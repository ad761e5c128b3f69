use tracer::{Fx, Matrix, Ray, Vec3};

fn fxi(i: i64) -> Fx {
    Fx::from_int(i)
}

fn pt(x: i64, y: i64, z: i64) -> Vec3 {
    Vec3::point(fxi(x), fxi(y), fxi(z))
}

fn vc(x: i64, y: i64, z: i64) -> Vec3 {
    Vec3::vector(fxi(x), fxi(y), fxi(z))
}

#[test]
fn adding_vec3() {
    let p = pt(3, -2, 5);
    let v = vc(-2, 3, 1);
    let l = p.add(v).unwrap();
    assert!(l.equals(pt(1, 1, 6)));
}

#[test]
fn subtracting_vec3() {
    let p1 = pt(3, 2, 1);
    let p2 = pt(5, 6, 7);
    let v = vc(-2, -4, -6);
    assert!(v.equals(p1.sub(p2).unwrap()));
    let v1 = vc(5, 6, 7);
    let p3 = pt(-2, -4, -6);
    assert!(p3.equals(p1.sub(v1).unwrap()));
    let v2 = vc(3, 2, 1);
    assert!(v.equals(v2.sub(v1).unwrap()));
}

#[test]
fn negating_vec3() {
    assert!(vc(1, 2, 3).neg().equals(vc(-1, -2, -3)));
}

#[test]
fn multiplying_with_scalar() {
    assert!(vc(1, 2, 3).mul(fxi(3)).equals(vc(3, 6, 9)));
}

#[test]
fn dividing_by_scalar() {
    assert!(vc(2, 4, 8).div(fxi(2)).unwrap().equals(vc(1, 2, 4)));
}

#[test]
fn magnitude_of_vector() {
    assert_eq!(vc(1, 0, 0).magnitude().unwrap(), Fx::one());
    assert_eq!(
        vc(1, 2, 3).magnitude().unwrap(),
        vc(-1, -2, -3).magnitude().unwrap()
    );
}

#[test]
fn normalize_vector() {
    assert!(vc(4, 0, 0).normalize().unwrap().equals(vc(1, 0, 0)));
    let uv = vc(1, 2, 3).normalize().unwrap();
    assert!(Fx::one().equals(uv.magnitude().unwrap()));
}

#[test]
fn dot_product() {
    assert!(fxi(20).equals(vc(1, 2, 3).dot(vc(2, 3, 4)).unwrap()));
}

#[test]
fn cross_product() {
    let v1 = vc(1, 2, 3);
    let v2 = vc(2, 3, 4);
    assert!(vc(-1, 2, -1).equals(v1.cross(v2).unwrap()));
    assert!(vc(1, -2, 1).equals(v2.cross(v1).unwrap()));
}

#[test]
fn compare_fx() {
    assert!(Fx::new(10).equals(Fx::new(10)));
    assert!(Fx::new(10).equals(Fx::new(60)));
    assert!(!Fx::new(0).equals(Fx::new(200)));
}

#[test]
fn reflecting_vector() {
    let r = vc(1, -1, 0).reflect(vc(0, 1, 0)).unwrap();
    assert!(r.equals(vc(1, 1, 0)));
    let inv_sqrt2 = Fx::new(707_107);
    let n = Vec3::vector(inv_sqrt2, inv_sqrt2, Fx::zero());
    let r2 = vc(0, -1, 0).reflect(n).unwrap();
    assert!(r2.equals(vc(1, 0, 0)));
}

#[test]
fn create_ray() {
    let origin = pt(0, 0, 0);
    let direction = vc(1, 2, 3);
    let ray = Ray::new(origin, direction).unwrap();
    assert_eq!(ray.origin, origin);
    assert_eq!(ray.direction, direction);
}

#[test]
fn position_of_ray() {
    let r = Ray::new(pt(2, 3, 4), vc(1, 0, 0)).unwrap();
    assert!(r.position(Fx::zero()).equals(pt(2, 3, 4)));
    assert!(r.position(fxi(1)).equals(pt(3, 3, 4)));
    assert!(r.position(fxi(-1)).equals(pt(1, 3, 4)));
    assert!(r.position(Fx::new(2_500_000)).equals(Vec3::point(
        Fx::new(4_500_000),
        fxi(3),
        fxi(4)
    )));
}

#[test]
fn translating_ray() {
    let r1 = Ray::new(pt(1, 2, 3), vc(0, 1, 0)).unwrap();
    let r2 = r1.transform(&Matrix::translation(fxi(3), fxi(4), fxi(5)));
    assert!(r2.origin.equals(pt(4, 6, 8)));
    assert!(r2.direction.equals(vc(0, 1, 0)));
}

#[test]
fn scaling_ray() {
    let r1 = Ray::new(pt(1, 2, 3), vc(0, 1, 0)).unwrap();
    let r2 = r1.transform(&Matrix::scaling(fxi(2), fxi(3), fxi(4)));
    assert!(r2.origin.equals(pt(2, 6, 12)));
    assert!(r2.direction.equals(vc(0, 3, 0)));
}

#[test]
fn translation_of_point() {
    let transform = Matrix::translation(fxi(5), fxi(-3), fxi(2));
    assert!(transform.mul_vec3(pt(-3, 4, 5)).equals(pt(2, 1, 7)));
}

#[test]
fn inverse_translation() {
    let transform = Matrix::translation(fxi(5), fxi(-3), fxi(2));
    let inv = transform.inverse_matrix().unwrap();
    assert!(inv.mul_vec3(pt(-3, 4, 5)).equals(pt(-8, 7, 3)));
}

#[test]
fn translating_vectors() {
    let transform = Matrix::translation(fxi(5), fxi(-3), fxi(2));
    let vector = vc(-3, 4, 5);
    assert!(transform.mul_vec3(vector).equals(vector));
}

#[test]
fn scaling() {
    let transform = Matrix::scaling(fxi(2), fxi(3), fxi(4));
    let inv = transform.inverse_matrix().unwrap();
    assert!(transform.mul_vec3(pt(-4, 6, 8)).equals(pt(-8, 18, 32)));
    assert!(transform.mul_vec3(vc(-4, 6, 8)).equals(vc(-8, 18, 32)));
    assert!(inv.mul_vec3(pt(-4, 6, 8)).equals(pt(-2, 2, 2)));
}

#[test]
fn rotation_around_x() {
    let full_quarter = Matrix::rotation_x(Fx::one(), Fx::zero());
    assert!(full_quarter.mul_vec3(pt(0, 1, 0)).equals(pt(0, 0, 1)));
}

#[test]
fn rotation_around_y() {
    let full_quarter = Matrix::rotation_y(Fx::one(), Fx::zero());
    assert!(full_quarter.mul_vec3(pt(0, 0, 1)).equals(pt(1, 0, 0)));
}

#[test]
fn rotation_around_z() {
    let full_quarter = Matrix::rotation_z(Fx::one(), Fx::zero());
    assert!(full_quarter.mul_vec3(pt(0, 1, 0)).equals(pt(-1, 0, 0)));
}

#[test]
fn shearing() {
    let p = pt(2, 3, 4);
    let o = Fx::one();
    let z = Fx::zero();
    assert!(Matrix::shearing(o, z, z, z, z, z).mul_vec3(p).equals(pt(5, 3, 4)));
    assert!(Matrix::shearing(z, o, z, z, z, z).mul_vec3(p).equals(pt(6, 3, 4)));
    assert!(Matrix::shearing(z, z, o, z, z, z).mul_vec3(p).equals(pt(2, 5, 4)));
    assert!(Matrix::shearing(z, z, z, o, z, z).mul_vec3(p).equals(pt(2, 7, 4)));
    assert!(Matrix::shearing(z, z, z, z, o, z).mul_vec3(p).equals(pt(2, 3, 6)));
    assert!(Matrix::shearing(z, z, z, z, z, o).mul_vec3(p).equals(pt(2, 3, 7)));
}

#[test]
fn chaining_transformations() {
    let p = pt(1, 0, 1);
    let a = Matrix::rotation_x(Fx::one(), Fx::zero());
    let b = Matrix::scaling(fxi(5), fxi(5), fxi(5));
    let c = Matrix::translation(fxi(10), fxi(5), fxi(7));
    let p2 = a.mul_vec3(p);
    let p3 = b.mul_vec3(p2);
    let p4 = c.mul_vec3(p3);
    assert!(p4.equals(pt(15, 0, 7)));
    let chained = c.mul_matrix(&b).mul_matrix(&a);
    assert!(chained.mul_vec3(p).equals(p4));
    let fluent = Matrix::identity_matrix(4)
        .rotate_x(Fx::one(), Fx::zero())
        .scale(fxi(5), fxi(5), fxi(5))
        .translate(fxi(10), fxi(5), fxi(7));
    assert!(fluent.mul_vec3(p).equals(p4));
}
