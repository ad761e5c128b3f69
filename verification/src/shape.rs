use vstd::prelude::*;

use crate::color::Color;
use crate::error::TracerError;
use crate::intersection::{Intersection, Intersections};
use crate::light::Light;
use crate::material::{spec_lighting_at, Material};
use crate::matrix::Matrix;
use crate::plane::{spec_plane_intersect, spec_plane_normal, Plane};
use crate::ray::Ray;
use crate::sphere::{spec_sphere_intersect, spec_sphere_normal, Sphere};
use crate::vec3::{v3_mag, v3_normalize, Vec3};

verus! {

/// A scene object: one of the supported primitives, matched exhaustively
/// wherever geometry is computed.
#[derive(Clone, Debug)]
pub enum Shape {
    Sphere(Sphere),
    Plane(Plane),
}

pub open spec fn spec_shape_intersect(s: Shape, r: Ray) -> Result<Seq<Intersection>, TracerError> {
    match s {
        Shape::Sphere(sp) => spec_sphere_intersect(sp, r),
        Shape::Plane(pl) => spec_plane_intersect(pl, r),
    }
}

pub open spec fn spec_shape_normal(s: Shape, world_point: Vec3) -> Result<Vec3, TracerError> {
    match s {
        Shape::Sphere(sp) => spec_sphere_normal(sp, world_point),
        Shape::Plane(pl) => spec_plane_normal(pl),
    }
}

impl Shape {
    pub open spec fn wf(self) -> bool {
        match self {
            Shape::Sphere(sp) => sp.wf(),
            Shape::Plane(pl) => pl.wf(),
        }
    }

    pub open spec fn id_of(self) -> usize {
        match self {
            Shape::Sphere(sp) => sp.id,
            Shape::Plane(pl) => pl.id,
        }
    }

    pub open spec fn transform_of(self) -> Matrix {
        match self {
            Shape::Sphere(sp) => sp.transform,
            Shape::Plane(pl) => pl.transform,
        }
    }

    pub open spec fn material_of(self) -> Material {
        match self {
            Shape::Sphere(sp) => sp.material,
            Shape::Plane(pl) => pl.material,
        }
    }

    pub fn get_id(&self) -> (r: usize)
        ensures
            r == self.id_of(),
    {
        match self {
            Shape::Sphere(sp) => sp.get_id(),
            Shape::Plane(pl) => pl.get_id(),
        }
    }

    pub fn material(&self) -> (r: &Material)
        ensures
            *r == self.material_of(),
    {
        match self {
            Shape::Sphere(sp) => &sp.material,
            Shape::Plane(pl) => &pl.material,
        }
    }

    pub fn set_material(&mut self, material: Material)
        requires
            material.wf(),
        ensures
            final(self).material_of() == material,
            final(self).id_of() == old(self).id_of(),
            final(self).transform_of() == old(self).transform_of(),
            (*final(self)) is Sphere <==> (*old(self)) is Sphere,
    {
        match self {
            Shape::Sphere(sp) => sp.set_material(material),
            Shape::Plane(pl) => pl.set_material(material),
        }
    }

    pub fn set_transform(&mut self, transform: Matrix)
        requires
            transform.wf(),
            transform.n_rows == 4,
            transform.n_cols == 4,
        ensures
            final(self).transform_of() == transform,
            final(self).id_of() == old(self).id_of(),
            final(self).material_of() == old(self).material_of(),
            (*final(self)) is Sphere <==> (*old(self)) is Sphere,
    {
        match self {
            Shape::Sphere(sp) => sp.set_transform(transform),
            Shape::Plane(pl) => pl.set_transform(transform),
        }
    }

    /// Local-space intersection of the primitive, by exhaustive match.
    pub fn intersection(&self, ray: &Ray) -> (r: Result<Intersections, TracerError>)
        requires
            self.wf(),
        ensures
            match r {
                Ok(xs) => xs.wf() && spec_shape_intersect(*self, *ray) == Ok::<
                    Seq<Intersection>,
                    TracerError,
                >(xs.crossings@),
                Err(e) => spec_shape_intersect(*self, *ray) == Err::<Seq<Intersection>, TracerError>(
                    e,
                ),
            },
    {
        match self {
            Shape::Sphere(sp) => sp.intersection(ray),
            Shape::Plane(pl) => pl.intersection(ray),
        }
    }

    /// World-space surface normal of the primitive, by exhaustive match.
    pub fn normal_at(&self, world_point: Vec3) -> (r: Result<Vec3, TracerError>)
        requires
            self.wf(),
        ensures
            match r {
                Ok(n) => spec_shape_normal(*self, world_point) == Ok::<Vec3, TracerError>(n)
                    && n.is_vector_spec(),
                Err(e) => spec_shape_normal(*self, world_point) == Err::<Vec3, TracerError>(e),
            },
    {
        match self {
            Shape::Sphere(sp) => sp.normal_at(world_point),
            Shape::Plane(pl) => pl.normal_at(world_point),
        }
    }

    /// Phong shading against the primitive's material, with the eye vector
    /// normalized first.
    pub fn lighting_at(
        &self,
        point: Vec3,
        eye_v: Vec3,
        normal_v: Vec3,
        light: Light,
        in_shadow: bool,
    ) -> (r: Result<Color, TracerError>)
        requires
            self.wf(),
            light.wf(),
            point.is_point_spec(),
            eye_v.is_vector_spec(),
            normal_v.is_vector_spec(),
        ensures
            r == spec_lighting_at(
                self.material_of(),
                self.transform_of().grid(),
                light,
                point,
                eye_v,
                normal_v,
                in_shadow,
            ),
    {
        match self {
            Shape::Sphere(sp) => sp.lighting_at(point, eye_v, normal_v, light, in_shadow),
            Shape::Plane(pl) => pl.lighting_at(point, eye_v, normal_v, light, in_shadow),
        }
    }
}

impl Ray {
    /// Intersects this ray with a shape.
    pub fn intersect(&self, obj: &Shape) -> (r: Result<Intersections, TracerError>)
        requires
            obj.wf(),
        ensures
            match r {
                Ok(xs) => xs.wf() && spec_shape_intersect(*obj, *self) == Ok::<
                    Seq<Intersection>,
                    TracerError,
                >(xs.crossings@),
                Err(e) => spec_shape_intersect(*obj, *self) == Err::<Seq<Intersection>, TracerError>(
                    e,
                ),
            },
    {
        obj.intersection(self)
    }
}

} // verus!
