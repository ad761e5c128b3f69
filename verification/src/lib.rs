pub mod color;
pub mod camera;
pub mod canvas;
pub mod error;
pub mod laws;
pub mod world;
pub mod plane;
pub mod shape;
pub mod sphere;
pub mod material;
pub mod light;
pub mod pattern;
pub mod intersection;
pub mod ray;
pub mod matrix;
pub mod fx;
pub mod vec3;

pub use color::Color;
pub use matrix::Matrix;

pub use camera::Camera;
pub use canvas::Canvas;
pub use error::TracerError;
pub use world::State;
pub use world::World;
pub use plane::Plane;
pub use shape::Shape;
pub use sphere::Sphere;
pub use material::Material;
pub use light::Light;
pub use pattern::Pattern;
pub use pattern::PatternKind;
pub use intersection::Intersection;
pub use intersection::Intersections;
pub use ray::Ray;
pub use fx::Fx;
pub use vec3::Vec3;
pub use vec3::Vec3Type;
