use tracer::{
    Camera, Color, Fx, Intersection, Light, Matrix, Pattern, Plane, Ray, Shape, Sphere, Vec3,
    World,
};

fn fxi(i: i64) -> Fx {
    Fx::from_int(i)
}

fn pt(x: i64, y: i64, z: i64) -> Vec3 {
    Vec3::point(fxi(x), fxi(y), fxi(z))
}

fn vc(x: i64, y: i64, z: i64) -> Vec3 {
    Vec3::vector(fxi(x), fxi(y), fxi(z))
}

fn col(r: i64, g: i64, b: i64) -> Color {
    Color::new(Fx::new(r), Fx::new(g), Fx::new(b))
}

const DEPTH: u32 = 5;

#[test]
fn create_world() {
    let world = World::new();
    assert_eq!(world.objects.len(), 0);
    assert_eq!(world.lights.len(), 0);
}

#[test]
fn default_world() {
    let world = World::default();
    assert_eq!(world.objects.len(), 2);
    let light = Light::new(pt(-10, 10, -10), Color::white()).unwrap();
    assert!(world.lights[0].position.equals(light.position));
    assert!(world.lights[0].intensity.equals(light.intensity));
}

#[test]
fn intersect_with_ray() {
    let world = World::default();
    let ray = Ray::new(pt(0, 0, -5), vc(0, 0, 1)).unwrap();
    let xs = world.intersect_with(&ray).unwrap();
    assert_eq!(xs.len(), 4);
    assert!(xs.get(0).t.equals(fxi(4)));
    assert!(xs.get(1).t.equals(Fx::new(4_500_000)));
    assert!(xs.get(2).t.equals(Fx::new(5_500_000)));
    assert!(xs.get(3).t.equals(fxi(6)));
}

#[test]
fn shading_intersection() {
    let ray = Ray::new(pt(0, 0, -5), vc(0, 0, 1)).unwrap();
    let world = World::default();
    let id = world.objects[0].get_id();
    let intersection = Intersection::new(fxi(4), id);
    let state = intersection.compute_state(&ray, &world).unwrap();
    let color = world.shade_hit(&state, DEPTH).unwrap();
    assert!(color.equals(col(380_660, 475_830, 285_500)));
}

#[test]
fn shading_intersection_inside() {
    let ray = Ray::new(pt(0, 0, 0), vc(0, 0, 1)).unwrap();
    let mut world = World::default();
    world.lights[0] = Light::new(
        Vec3::point(Fx::zero(), Fx::new(250_000), Fx::zero()),
        Color::white(),
    )
    .unwrap();
    let id = world.objects[1].get_id();
    let intersection = Intersection::new(Fx::new(500_000), id);
    let state = intersection.compute_state(&ray, &world).unwrap();
    let color = world.shade_hit(&state, DEPTH).unwrap();
    assert!(color.equals(col(904_980, 904_980, 904_980)));
}

#[test]
fn ray_misses() {
    let world = World::default();
    let ray = Ray::new(pt(0, 0, -5), vc(0, 1, 0)).unwrap();
    assert!(world.color_at(&ray, DEPTH).unwrap().equals(Color::black()));
}

#[test]
fn ray_hits() {
    let world = World::default();
    let ray = Ray::new(pt(0, 0, -5), vc(0, 0, 1)).unwrap();
    assert!(world
        .color_at(&ray, DEPTH)
        .unwrap()
        .equals(col(380_660, 475_830, 285_500)));
}

#[test]
fn intersection_behind_ray() {
    let mut world = World::new();
    world.add_light(Light::new(pt(-10, -10, -10), Color::white()).unwrap());
    let mut s1 = Sphere::new(0);
    s1.material.color = col(800_000, 1_000_000, 600_000);
    s1.material.diffuse = Fx::new(700_000);
    s1.material.specular = Fx::new(700_000);
    s1.material.ambient = Fx::one();
    let mut s2 = Sphere::new(1);
    s2.set_transform(Matrix::scaling(
        Fx::new(500_000),
        Fx::new(500_000),
        Fx::new(500_000),
    ));
    s2.material.ambient = Fx::one();
    world.insert(Shape::Sphere(s1)).unwrap();
    world.insert(Shape::Sphere(s2)).unwrap();
    let ray = Ray::new(
        Vec3::point(Fx::zero(), Fx::zero(), Fx::new(750_000)),
        vc(0, 0, -1),
    )
    .unwrap();
    assert!(world.color_at(&ray, DEPTH).unwrap().equals(Color::white()));
}

#[test]
fn not_collinear_no_shadow() {
    let world = World::default();
    assert_eq!(world.is_shadowed(pt(0, 10, 0), 0).unwrap(), false);
}

#[test]
fn obj_between_point_and_light() {
    let world = World::default();
    assert_eq!(world.is_shadowed(pt(10, -10, 10), 0).unwrap(), true);
}

#[test]
fn obj_behind_light() {
    let world = World::default();
    assert_eq!(world.is_shadowed(pt(-20, 20, -20), 0).unwrap(), false);
}

#[test]
fn obj_behind_point() {
    let world = World::default();
    assert_eq!(world.is_shadowed(pt(-2, 2, -2), 0).unwrap(), false);
}

#[test]
fn shade_hit_intersection() {
    let mut world = World::new();
    world.add_light(Light::new(pt(0, 0, -10), Color::white()).unwrap());
    let s1 = Sphere::new(0);
    let mut s2 = Sphere::new(1);
    s2.set_transform(Matrix::translation(fxi(0), fxi(0), fxi(10)));
    world.insert(Shape::Sphere(s1)).unwrap();
    world.insert(Shape::Sphere(s2)).unwrap();
    let ray = Ray::new(pt(0, 0, 5), vc(0, 0, 1)).unwrap();
    let xs = Intersection::new(fxi(4), 1);
    let comps = xs.compute_state(&ray, &world).unwrap();
    let color = world.shade_hit(&comps, DEPTH).unwrap();
    assert!(color.equals(col(100_000, 100_000, 100_000)));
}

#[test]
fn strike_non_reflective_surface() {
    let mut world = World::default();
    let ray = Ray::new(pt(0, 0, 5), vc(0, 0, 1)).unwrap();
    let id = world.objects[1].get_id();
    let mut material = world.objects[1].material().clone();
    material.ambient = Fx::one();
    world.objects[1].set_material(material);
    let xs = Intersection::new(fxi(1), id);
    let comps = xs.compute_state(&ray, &world).unwrap();
    let color = world.reflected_color(&comps, DEPTH).unwrap();
    assert!(color.equals(Color::black()));
}

#[test]
fn strike_reflective_surface() {
    let mut world = World::default();
    let mut shape = Plane::new(9);
    shape.material.reflective = Fx::new(500_000);
    shape.set_transform(Matrix::translation(fxi(0), fxi(-1), fxi(0)));
    world.insert(Shape::Plane(shape)).unwrap();
    let s = Fx::new(707_107);
    let ray = Ray::new(pt(0, 0, -3), Vec3::vector(Fx::zero(), s.neg(), s)).unwrap();
    let xs = Intersection::new(Fx::new(1_414_214), 9);
    let comps = xs.compute_state(&ray, &world).unwrap();
    let color = world.reflected_color(&comps, DEPTH).unwrap();
    assert!(color.equals(col(190_589, 238_237, 142_942)));
}

#[test]
fn shade_hit_with_reflective_material() {
    let mut world = World::default();
    let mut shape = Plane::new(9);
    shape.material.reflective = Fx::new(500_000);
    shape.set_transform(Matrix::translation(fxi(0), fxi(-1), fxi(0)));
    world.insert(Shape::Plane(shape)).unwrap();
    let s = Fx::new(707_107);
    let ray = Ray::new(pt(0, 0, -3), Vec3::vector(Fx::zero(), s.neg(), s)).unwrap();
    let xs = Intersection::new(Fx::new(1_414_214), 9);
    let comps = xs.compute_state(&ray, &world).unwrap();
    let color = world.shade_hit(&comps, DEPTH).unwrap();
    assert!(color.equals(col(877_015, 924_662, 829_367)));
}

#[test]
fn precompute_intersection_state() {
    let ray = Ray::new(pt(0, 0, -5), vc(0, 0, 1)).unwrap();
    let mut world = World::new();
    world.insert(Shape::Sphere(Sphere::new(3))).unwrap();
    let intersection = Intersection::new(fxi(4), 3);
    let state = intersection.compute_state(&ray, &world).unwrap();
    assert_eq!(state.t, intersection.t);
    assert_eq!(state.obj_id, intersection.obj_id);
    assert!(state.point.equals(pt(0, 0, -1)));
    assert!(state.eyev.equals(vc(0, 0, -1)));
    assert!(state.normalv.equals(vc(0, 0, -1)));
    assert_eq!(state.inside, false);
}

#[test]
fn compute_state_of_hit_inside_object() {
    let ray = Ray::new(pt(0, 0, 0), vc(0, 0, 1)).unwrap();
    let mut world = World::new();
    world.insert(Shape::Sphere(Sphere::new(3))).unwrap();
    let intersection = Intersection::new(fxi(1), 3);
    let state = intersection.compute_state(&ray, &world).unwrap();
    assert!(state.point.equals(pt(0, 0, 1)));
    assert!(state.eyev.equals(vc(0, 0, -1)));
    assert!(state.normalv.equals(vc(0, 0, -1)));
    assert_eq!(state.inside, true);
}

#[test]
fn hit_should_offset_point() {
    let mut world = World::new();
    let ray = Ray::new(pt(0, 0, -5), vc(0, 0, 1)).unwrap();
    let mut shape = Sphere::new(3);
    shape.set_transform(Matrix::translation(fxi(0), fxi(0), fxi(1)));
    world.insert(Shape::Sphere(shape)).unwrap();
    let xs = Intersection::new(fxi(5), 3);
    let comps = xs.compute_state(&ray, &world).unwrap();
    assert!(comps.over_point.z.raw < -50);
    assert!(comps.point.z.raw > comps.over_point.z.raw);
}

#[test]
fn precompute_reflectv() {
    let mut world = World::new();
    world.insert(Shape::Plane(Plane::new(3))).unwrap();
    let s = Fx::new(707_107);
    let ray = Ray::new(pt(0, 1, -1), Vec3::vector(Fx::zero(), s.neg(), s)).unwrap();
    let xs = Intersection::new(Fx::new(1_414_214), 3);
    let comps = xs.compute_state(&ray, &world).unwrap();
    assert!(comps.reflectv.equals(Vec3::vector(Fx::zero(), s, s)));
}

#[test]
fn create_camera() {
    let camera = Camera::new(160, 120, Fx::one());
    assert_eq!(camera.hsize, 160);
    assert_eq!(camera.vsize, 120);
    assert!(camera.half_view.equals(Fx::one()));
    assert!(camera.transform.equals(&Matrix::identity_matrix(4)));
}

#[test]
fn pixel_size() {
    let c1 = Camera::new(200, 125, Fx::one());
    assert!(c1.pixel_size.equals(Fx::new(10_000)));
    let c2 = Camera::new(125, 200, Fx::one());
    assert!(c2.pixel_size.equals(Fx::new(10_000)));
}

#[test]
fn compute_ray_for_pixel() {
    let mut camera = Camera::new(201, 101, Fx::one());
    let r1 = camera.ray_for_pixel(100, 50).unwrap();
    let r2 = camera.ray_for_pixel(0, 0).unwrap();
    let s = Fx::new(707_107);
    camera.transform = Matrix::rotation_y(s, s)
        .mul_matrix(&Matrix::translation(fxi(0), fxi(-2), fxi(5)));
    let r3 = camera.ray_for_pixel(100, 50).unwrap();
    assert!(r1.origin.equals(pt(0, 0, 0)));
    assert!(r1.direction.equals(vc(0, 0, -1)));
    assert!(r2.origin.equals(pt(0, 0, 0)));
    assert!(r2
        .direction
        .equals(Vec3::vector(Fx::new(665_186), Fx::new(332_593), Fx::new(-668_512))));
    assert!(r3.origin.equals(pt(0, 2, -5)));
    assert!(r3.direction.equals(Vec3::vector(s, Fx::zero(), s.neg())));
}

#[test]
fn render_image() {
    let world = World::default();
    let mut camera = Camera::new(11, 11, Fx::one());
    camera.transform =
        Matrix::view_transformation(pt(0, 0, -5), pt(0, 0, 0), vc(0, 1, 0)).unwrap();
    let image = camera.render(&world).unwrap();
    assert!(image
        .pixel_at(5, 5)
        .equals(col(380_660, 475_830, 285_500)));
}

#[test]
fn camera_center_ray_runs_through_look_at_target() {
    let from = pt(0, 0, -5);
    let to = pt(0, 0, 0);
    let camera_transform =
        Matrix::view_transformation(from, to, vc(0, 1, 0)).unwrap();
    let mut camera = Camera::new(11, 11, Fx::one());
    camera.transform = camera_transform;
    let ray = camera.ray_for_pixel(5, 5).unwrap();
    let toward = to.sub(from).unwrap().normalize().unwrap();
    assert!(ray.direction.equals(toward));
    assert!(ray.origin.equals(from));
}

#[test]
fn gradient_pattern() {
    let pattern = Pattern::gradient(vec![Color::white(), Color::black()]).unwrap();
    assert!(pattern.color_at(pt(0, 0, 0)).equals(Color::white()));
    let q = |v: i64| Vec3::point(Fx::new(v), Fx::zero(), Fx::zero());
    assert!(pattern.color_at(q(250_000)).equals(col(750_000, 750_000, 750_000)));
    assert!(pattern.color_at(q(500_000)).equals(col(500_000, 500_000, 500_000)));
    assert!(pattern.color_at(q(750_000)).equals(col(250_000, 250_000, 250_000)));
}

#[test]
fn ring_pattern() {
    let pattern = Pattern::ring(vec![Color::white(), Color::black()]).unwrap();
    assert!(pattern.color_at(pt(0, 0, 0)).equals(Color::white()));
    assert!(pattern.color_at(pt(1, 0, 0)).equals(Color::black()));
    assert!(pattern.color_at(pt(0, 0, 1)).equals(Color::black()));
    let q = Fx::new(708_000);
    assert!(pattern
        .color_at(Vec3::point(q, Fx::zero(), q))
        .equals(Color::black()));
}

#[test]
fn checkers_pattern() {
    let pattern = Pattern::checkers(vec![Color::white(), Color::black()]).unwrap();
    let p = |x: i64, y: i64, z: i64| Vec3::point(Fx::new(x), Fx::new(y), Fx::new(z));
    assert!(pattern.color_at(p(0, 0, 0)).equals(Color::white()));
    assert!(pattern.color_at(p(990_000, 0, 0)).equals(Color::white()));
    assert!(pattern.color_at(p(1_010_000, 0, 0)).equals(Color::black()));
    assert!(pattern.color_at(p(0, 990_000, 0)).equals(Color::white()));
    assert!(pattern.color_at(p(0, 1_010_000, 0)).equals(Color::black()));
    assert!(pattern.color_at(p(0, 0, 990_000)).equals(Color::white()));
    assert!(pattern.color_at(p(0, 0, 1_010_000)).equals(Color::black()));
    assert!(pattern.color_at(p(-1_010_000, 0, 0)).equals(Color::white()));
    assert!(pattern.color_at(p(-990_000, 0, 0)).equals(Color::black()));
}

#[test]
fn create_stripe_pattern() {
    let pattern = Pattern::stripe(vec![Color::white(), Color::black()]).unwrap();
    assert!(pattern.colors[0].equals(Color::white()));
    assert!(pattern.colors[1].equals(Color::black()));
}

#[test]
fn get_color_at_point() {
    let pattern = Pattern::stripe(vec![Color::white(), Color::black()]).unwrap();
    assert!(pattern.color_at(pt(0, 0, 0)).equals(Color::white()));
    assert!(pattern.color_at(pt(0, 2, 0)).equals(Color::white()));
    assert!(pattern.color_at(pt(0, 1, 0)).equals(Color::white()));
    assert!(pattern.color_at(pt(0, 0, 1)).equals(Color::white()));
    assert!(pattern.color_at(pt(0, 0, 2)).equals(Color::white()));
    assert!(pattern.color_at(pt(-1, 2, 0)).equals(Color::black()));
    assert!(pattern.color_at(pt(1, 2, 0)).equals(Color::black()));
    assert!(pattern.color_at(pt(2, 1, 0)).equals(Color::white()));
    assert!(pattern
        .color_at(Vec3::point(Fx::new(2_300_000), Fx::one(), Fx::zero()))
        .equals(Color::white()));
}

#[test]
fn stripes_with_pattern_transformation() {
    let mut pattern = Pattern::stripe(vec![Color::white(), Color::black()]).unwrap();
    pattern.transform = Matrix::scaling(fxi(2), fxi(2), fxi(2));
    let color = pattern
        .pattern_at(
            Vec3::point(Fx::new(1_500_000), Fx::zero(), Fx::zero()),
            &Matrix::identity_matrix(4),
        )
        .unwrap();
    assert!(color.equals(Color::white()));
}

#[test]
fn stripes_with_obj_transformation() {
    let pattern = Pattern::stripe(vec![Color::white(), Color::black()]).unwrap();
    let color = pattern
        .pattern_at(
            Vec3::point(Fx::new(1_500_000), Fx::zero(), Fx::zero()),
            &Matrix::scaling(fxi(2), fxi(2), fxi(2)),
        )
        .unwrap();
    assert!(color.equals(Color::white()));
}

#[test]
fn stripes_with_obj_pattern_transformation() {
    let mut pattern = Pattern::stripe(vec![Color::white(), Color::black()]).unwrap();
    pattern.transform = Matrix::translation(Fx::new(500_000), Fx::zero(), Fx::zero());
    let color = pattern
        .pattern_at(
            Vec3::point(Fx::new(2_500_000), Fx::zero(), Fx::zero()),
            &Matrix::scaling(fxi(2), fxi(2), fxi(2)),
        )
        .unwrap();
    assert!(color.equals(Color::white()));
}

#[test]
fn create_color_pixel() {
    let _c = col(-500_000, 400_000, 1_700_000);
}

#[test]
fn adding_colors() {
    let c1 = col(900_000, 600_000, 750_000);
    let c2 = col(700_000, 100_000, 250_000);
    assert!(col(1_600_000, 700_000, 1_000_000).equals(c1.add(c2)));
}

#[test]
fn subtracting_colors() {
    let c1 = col(900_000, 600_000, 750_000);
    let c2 = col(700_000, 100_000, 250_000);
    assert!(col(200_000, 500_000, 500_000).equals(c1.sub(c2)));
}

#[test]
fn multiplying_color_with_scalar() {
    let c = col(200_000, 300_000, 400_000);
    assert!(col(400_000, 600_000, 800_000).equals(c.mul(fxi(2))));
}

#[test]
fn multiplying_colors() {
    let c1 = col(1_000_000, 200_000, 400_000);
    let c2 = col(900_000, 1_000_000, 100_000);
    assert!(col(900_000, 200_000, 40_000).equals(c1.hadamard(c2)));
}

#[test]
fn create_canvas() {
    let c = tracer::Canvas::new(5, 6);
    assert_eq!(c.width, 5);
    assert_eq!(c.height, 6);
    for pixel in c.grid.iter() {
        assert!(pixel.equals(Color::black()));
    }
}

#[test]
fn set_pixel_in_canvas() {
    let mut c = tracer::Canvas::new(5, 5);
    let pix = Color::white();
    c.set_pixel(1, 1, pix);
    assert!(c.pixel_at(1, 1).equals(pix));
}

#[test]
fn channel_clamping() {
    assert_eq!(tracer::Canvas::clamp(Fx::one()), 255);
    assert_eq!(tracer::Canvas::clamp(Fx::from_int(-1)), 0);
    assert_eq!(tracer::Canvas::clamp(Fx::from_int(2)), 255);
    assert_eq!(tracer::Canvas::clamp(Fx::new(500_000)), 127);
}
