use tracer::{
    Color, Fx, Intersection, Intersections, Light, Material, Matrix, Pattern, Plane, Ray, Shape,
    Sphere, Vec3, World,
};

fn fxi(i: i64) -> Fx {
    Fx::from_int(i)
}

fn pt(x: i64, y: i64, z: i64) -> Vec3 {
    Vec3::point(fxi(x), fxi(y), fxi(z))
}

fn vc(x: i64, y: i64, z: i64) -> Vec3 {
    Vec3::vector(fxi(x), fxi(y), fxi(z))
}

fn white() -> Color {
    Color::white()
}

#[test]
fn intersection_encapsulation() {
    let intersection = Intersection::new(Fx::new(3_500_000), 3);
    assert!(intersection.t.equals(Fx::new(3_500_000)));
    assert_eq!(intersection.obj_id, 3);
}

#[test]
fn aggregating_intersections() {
    let mut intersections = Intersections::new();
    intersections.push(Intersection::new(fxi(1), 1));
    intersections.push(Intersection::new(fxi(2), 1));
    assert_eq!(intersections.len(), 2);
    assert_eq!(intersections.get(0).t, fxi(1));
    assert_eq!(intersections.get(1).t, fxi(2));
}

#[test]
fn ray_intersections() {
    let ray = Ray::new(pt(0, 0, -5), vc(0, 0, 1)).unwrap();
    let sphere = Shape::Sphere(Sphere::new(7));
    let xs = ray.intersect(&sphere).unwrap();
    assert_eq!(xs.len(), 2);
    assert_eq!(xs.get(0).obj_id, xs.get(1).obj_id);
    assert_eq!(xs.get(0).obj_id, sphere.get_id());
}

#[test]
fn hit_intersection() {
    let id = 1;
    let mut intersections = Intersections::new();
    intersections.push(Intersection::new(fxi(1), id));
    intersections.push(Intersection::new(fxi(2), id));
    assert_eq!(intersections.hit(), Some(Intersection::new(fxi(1), id)));

    let mut intersections = Intersections::new();
    intersections.push(Intersection::new(fxi(-1), id));
    intersections.push(Intersection::new(fxi(1), id));
    assert_eq!(intersections.hit(), Some(Intersection::new(fxi(1), id)));

    let mut intersections = Intersections::new();
    intersections.push(Intersection::new(fxi(-1), id));
    intersections.push(Intersection::new(fxi(-2), id));
    assert_eq!(intersections.hit(), None);
}

#[test]
fn ray_sphere_intersection_two() {
    let ray = Ray::new(pt(0, 0, -5), vc(0, 0, 1)).unwrap();
    let sphere = Sphere::new(0);
    let xs = sphere.intersection(&ray).unwrap();
    assert_eq!(xs.len(), 2);
    assert!(xs.get(0).t.equals(fxi(4)));
    assert!(xs.get(1).t.equals(fxi(6)));
}

#[test]
fn ray_sphere_tangent_intersection() {
    let ray = Ray::new(pt(0, 1, -5), vc(0, 0, 1)).unwrap();
    let xs = Sphere::new(0).intersection(&ray).unwrap();
    assert_eq!(xs.len(), 2);
    assert!(xs.get(0).t.equals(fxi(5)));
    assert!(xs.get(1).t.equals(fxi(5)));
}

#[test]
fn ray_sphere_no_intersection() {
    let ray = Ray::new(pt(0, 2, -5), vc(0, 0, 1)).unwrap();
    let xs = Sphere::new(0).intersection(&ray).unwrap();
    assert_eq!(xs.len(), 0);
}

#[test]
fn ray_originates_inside_sphere() {
    let ray = Ray::new(pt(0, 0, 0), vc(0, 0, 1)).unwrap();
    let xs = Sphere::new(0).intersection(&ray).unwrap();
    assert_eq!(xs.len(), 2);
    assert!(xs.get(0).t.equals(fxi(-1)));
    assert!(xs.get(1).t.equals(fxi(1)));
}

#[test]
fn sphere_behind_ray() {
    let ray = Ray::new(pt(0, 0, 5), vc(0, 0, 1)).unwrap();
    let xs = Sphere::new(0).intersection(&ray).unwrap();
    assert_eq!(xs.len(), 2);
    assert!(xs.get(0).t.equals(fxi(-6)));
    assert!(xs.get(1).t.equals(fxi(-4)));
}

#[test]
fn intersect_scaled_sphere() {
    let ray = Ray::new(pt(0, 0, -5), vc(0, 0, 1)).unwrap();
    let mut sphere = Sphere::new(0);
    sphere.set_transform(Matrix::scaling(fxi(2), fxi(2), fxi(2)));
    let xs = sphere.intersection(&ray).unwrap();
    assert_eq!(xs.len(), 2);
    assert!(xs.get(0).t.equals(fxi(3)));
    assert!(xs.get(1).t.equals(fxi(7)));
}

#[test]
fn intersect_translated_sphere() {
    let ray = Ray::new(pt(0, 0, -5), vc(0, 0, 1)).unwrap();
    let mut sphere = Sphere::new(0);
    sphere.set_transform(Matrix::translation(fxi(5), fxi(0), fxi(0)));
    let xs = sphere.intersection(&ray).unwrap();
    assert_eq!(xs.len(), 0);
}

#[test]
fn create_spheres() {
    let s1 = Sphere::new(1);
    let s2 = Sphere::new(2);
    assert_ne!(s1.get_id(), s2.get_id());
}

#[test]
fn default_transform() {
    let s = Sphere::new(0);
    assert!(s.transform.equals(&Matrix::identity_matrix(4)));
}

#[test]
fn change_transformation() {
    let mut s = Sphere::new(0);
    s.set_transform(Matrix::translation(fxi(1), fxi(2), fxi(3)));
    assert!(s.transform.equals(&Matrix::translation(fxi(1), fxi(2), fxi(3))));
}

#[test]
fn normal_on_x() {
    let n = Sphere::new(0).normal_at(pt(1, 0, 0)).unwrap();
    assert!(n.equals(vc(1, 0, 0)));
}

#[test]
fn normal_on_y() {
    let n = Sphere::new(0).normal_at(pt(0, 1, 0)).unwrap();
    assert!(n.equals(vc(0, 1, 0)));
}

#[test]
fn normal_on_z() {
    let n = Sphere::new(0).normal_at(pt(0, 0, 1)).unwrap();
    assert!(n.equals(vc(0, 0, 1)));
}

#[test]
fn normal_on_non_axial() {
    let c = Fx::new(577_350);
    let p = Vec3::point(c, c, c);
    let n = Sphere::new(0).normal_at(p).unwrap();
    assert!(n.equals(Vec3::vector(c, c, c)));
}

#[test]
fn normal_is_normalized() {
    let c = Fx::new(577_350);
    let n = Sphere::new(0).normal_at(Vec3::point(c, c, c)).unwrap();
    assert!(n.equals(n.normalize().unwrap()));
}

#[test]
fn normal_on_translated_sphere() {
    let mut s = Sphere::new(0);
    s.set_transform(Matrix::translation(fxi(0), fxi(1), fxi(0)));
    let n = s
        .normal_at(Vec3::point(Fx::zero(), Fx::new(1_707_110), Fx::new(-707_110)))
        .unwrap();
    assert!(n.equals(Vec3::vector(Fx::zero(), Fx::new(707_107), Fx::new(-707_107))));
}

#[test]
fn sphere_material() {
    let mut s = Sphere::new(0);
    let def = Material::default();
    assert!(s.material.color.equals(def.color));
    assert!(s.material.ambient.equals(def.ambient));
    let mut material = Material::default();
    material.shininess = fxi(150);
    s.set_material(material.clone());
    assert!(s.material.shininess.equals(fxi(150)));
}

#[test]
fn plane_normal() {
    let plane = Plane::new(0);
    assert!(plane.normal_at(pt(0, 0, 0)).unwrap().equals(vc(0, 1, 0)));
    assert!(plane.normal_at(pt(10, 0, -10)).unwrap().equals(vc(0, 1, 0)));
    assert!(plane.normal_at(pt(-5, 0, 150)).unwrap().equals(vc(0, 1, 0)));
}

#[test]
fn ray_parallel_to_plane() {
    let p = Plane::new(0);
    let r = Ray::new(pt(0, 10, 0), vc(0, 0, 1)).unwrap();
    assert_eq!(p.intersection(&r).unwrap().len(), 0);
}

#[test]
fn intersect_with_coplanar_ray() {
    let p = Plane::new(0);
    let r = Ray::new(pt(0, 0, 0), vc(0, 0, 1)).unwrap();
    assert_eq!(p.intersection(&r).unwrap().len(), 0);
}

#[test]
fn intersect_plane_from_above() {
    let p = Plane::new(4);
    let r = Ray::new(pt(0, 1, 0), vc(0, -1, 0)).unwrap();
    let xs = p.intersection(&r).unwrap();
    assert_eq!(xs.len(), 1);
    assert!(xs.get(0).t.equals(fxi(1)));
    assert_eq!(xs.get(0).obj_id, 4);
}

#[test]
fn intersect_plane_from_below() {
    let p = Plane::new(4);
    let r = Ray::new(pt(0, -1, 0), vc(0, 1, 0)).unwrap();
    let xs = p.intersection(&r).unwrap();
    assert_eq!(xs.len(), 1);
    assert!(xs.get(0).t.equals(fxi(1)));
    assert_eq!(xs.get(0).obj_id, 4);
}

#[test]
fn create_light_source() {
    let light = Light::new(pt(0, 0, 0), white()).unwrap();
    assert!(light.position.equals(pt(0, 0, 0)));
    assert!(light.intensity.equals(white()));
}

#[test]
fn create_material() {
    let m = Material::new(
        white(),
        Fx::new(100_000),
        Fx::new(900_000),
        Fx::new(900_000),
        fxi(200),
        Fx::zero(),
        None,
    )
    .unwrap();
    let d = Material::default();
    assert!(m.color.equals(d.color));
    assert!(m.ambient.equals(d.ambient));
    assert!(m.specular.equals(d.specular));
    assert!(m.diffuse.equals(d.diffuse));
    assert!(m.shininess.equals(d.shininess));
    assert!(m.reflective.equals(d.reflective));
}

#[test]
fn material_out_of_bounds_is_rejected() {
    let r = Material::new(
        white(),
        fxi(2),
        Fx::new(900_000),
        Fx::new(900_000),
        fxi(200),
        Fx::zero(),
        None,
    );
    assert_eq!(r.unwrap_err(), tracer::TracerError::InvalidArgument);
}

#[test]
fn lighting_light_eye_surface() {
    let m = Material::default();
    let result = m
        .lighting(
            &Matrix::identity_matrix(4),
            Light::new(pt(0, 0, -10), white()).unwrap(),
            pt(0, 0, 0),
            vc(0, 0, -1),
            vc(0, 0, -1),
            false,
        )
        .unwrap();
    let c = Fx::new(1_900_000);
    assert!(result.equals(Color::new(c, c, c)));
}

#[test]
fn lighting_light_eye_offset_surface() {
    let m = Material::default();
    let s = Fx::new(707_107);
    let eyev = Vec3::vector(Fx::zero(), s, s.neg());
    let result = m
        .lighting(
            &Matrix::identity_matrix(4),
            Light::new(pt(0, 0, -10), white()).unwrap(),
            pt(0, 0, 0),
            eyev,
            vc(0, 0, -1),
            false,
        )
        .unwrap();
    assert!(result.equals(white()));
}

#[test]
fn lighting_light_offset_eye_surface() {
    let m = Material::default();
    let result = m
        .lighting(
            &Matrix::identity_matrix(4),
            Light::new(pt(0, 10, -10), white()).unwrap(),
            pt(0, 0, 0),
            vc(0, 0, -1),
            vc(0, 0, -1),
            false,
        )
        .unwrap();
    let c = Fx::new(736_396);
    assert!(result.equals(Color::new(c, c, c)));
}

#[test]
fn lighting_eye_in_path_of_reflectionv() {
    let m = Material::default();
    let s = Fx::new(707_107);
    let eyev = Vec3::vector(Fx::zero(), s.neg(), s.neg());
    let result = m
        .lighting(
            &Matrix::identity_matrix(4),
            Light::new(pt(0, 10, -10), white()).unwrap(),
            pt(0, 0, 0),
            eyev,
            vc(0, 0, -1),
            false,
        )
        .unwrap();
    let c = Fx::new(1_636_385);
    assert!(result.equals(Color::new(c, c, c)));
}

#[test]
fn lighting_light_behind_surface() {
    let m = Material::default();
    let result = m
        .lighting(
            &Matrix::identity_matrix(4),
            Light::new(pt(0, 0, 10), white()).unwrap(),
            pt(0, 0, 0),
            vc(0, 0, -1),
            vc(0, 0, -1),
            false,
        )
        .unwrap();
    let c = Fx::new(100_000);
    assert!(result.equals(Color::new(c, c, c)));
}

#[test]
fn lighting_with_surface_in_shadow() {
    let m = Material::default();
    let result = m
        .lighting(
            &Matrix::identity_matrix(4),
            Light::new(pt(0, 0, -10), white()).unwrap(),
            pt(0, 0, 0),
            vc(0, 0, -1),
            vc(0, 0, -1),
            true,
        )
        .unwrap();
    let c = Fx::new(100_000);
    assert!(result.equals(Color::new(c, c, c)));
}

#[test]
fn lighting_with_pattern_applied() {
    let pattern = Pattern::stripe(vec![white(), Color::black()]).unwrap();
    let m = Material::new(
        white(),
        Fx::one(),
        Fx::zero(),
        Fx::zero(),
        fxi(10),
        Fx::zero(),
        Some(pattern),
    )
    .unwrap();
    let light = Light::new(pt(0, 0, -10), white()).unwrap();
    let c1 = m
        .lighting(
            &Matrix::identity_matrix(4),
            light,
            Vec3::point(Fx::new(900_000), Fx::zero(), Fx::zero()),
            vc(0, 0, -1),
            vc(0, 0, -1),
            false,
        )
        .unwrap();
    let c2 = m
        .lighting(
            &Matrix::identity_matrix(4),
            light,
            Vec3::point(Fx::new(1_100_000), Fx::zero(), Fx::zero()),
            vc(0, 0, -1),
            vc(0, 0, -1),
            false,
        )
        .unwrap();
    assert!(c1.equals(white()));
    assert!(c2.equals(Color::black()));
}
