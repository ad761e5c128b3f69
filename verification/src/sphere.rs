use vstd::prelude::*;

use crate::color::Color;
use crate::error::TracerError;
use crate::fx::{fx_add, fx_div, fx_mul, fx_neg, fx_of_int, fx_sqrt, fx_sub, Fx, SCALE};
use crate::intersection::{Intersection, Intersections};
use crate::light::Light;
use crate::material::{default_material, spec_lighting_at, Material};
use crate::matrix::{det, inv_grid, transpose_grid, xform, Matrix};
use crate::ray::{local_ray, Ray};
use crate::vec3::{
    lemma_mag_sq_nonneg, v3, v3_dot, v3_force_vector, v3_mag, v3_mag_sq, v3_normalize, v3_sub,
    Vec3, Vec3Type,
};

verus! {

/// The unit sphere at the local origin, wrapped by a transform and a
/// material, with an externally assigned identity.
#[derive(Clone, Debug)]
pub struct Sphere {
    pub id: usize,
    pub transform: Matrix,
    pub material: Material,
}

/// The point of local space the transformed ray starts from, relative to
/// the sphere's center.
pub open spec fn sphere_to_ray_of(lr: Ray) -> Vec3 {
    v3_sub(lr.origin, v3(0, 0, 0, Vec3Type::Point))
}

pub open spec fn sphere_a(lr: Ray) -> int {
    v3_mag_sq(lr.direction)
}

pub open spec fn sphere_b(lr: Ray) -> int {
    fx_mul(fx_of_int(2), v3_dot(lr.direction, sphere_to_ray_of(lr)))
}

pub open spec fn sphere_c(lr: Ray) -> int {
    fx_sub(v3_mag_sq(sphere_to_ray_of(lr)), SCALE as int)
}

/// The quadratic discriminant b^2 - 4 a c of the local-space ray.
pub open spec fn sphere_disc(lr: Ray) -> int {
    fx_sub(
        fx_mul(sphere_b(lr), sphere_b(lr)),
        fx_mul(fx_mul(fx_of_int(4), sphere_a(lr)), sphere_c(lr)),
    )
}

pub open spec fn sphere_t1(lr: Ray) -> int {
    fx_div(
        fx_sub(fx_neg(sphere_b(lr)), fx_sqrt(sphere_disc(lr))),
        fx_mul(fx_of_int(2), sphere_a(lr)),
    )
}

pub open spec fn sphere_t2(lr: Ray) -> int {
    fx_div(
        fx_add(fx_neg(sphere_b(lr)), fx_sqrt(sphere_disc(lr))),
        fx_mul(fx_of_int(2), sphere_a(lr)),
    )
}

/// What intersecting a sphere returns: both quadratic roots in ascending
/// order when the discriminant is non-negative (a tangent ray still yields
/// two coincident hits), nothing when it is negative. Fails on a singular
/// transform, a degenerate transformed ray, or a zero quadratic
/// coefficient.
#[verifier::opaque]
pub open spec fn spec_sphere_intersect(s: Sphere, r: Ray) -> Result<Seq<Intersection>, TracerError> {
    if det(s.transform.grid()) == 0 {
        Err(TracerError::SingularMatrix)
    } else {
        let lr = local_ray(s.transform.grid(), r);
        if !lr.origin.is_point_spec() {
            Err(TracerError::InvalidOperand)
        } else if !lr.direction.is_vector_spec() {
            Err(TracerError::InvalidOperand)
        } else if sphere_disc(lr) < 0 {
            Ok(Seq::empty())
        } else if fx_mul(fx_of_int(2), sphere_a(lr)) == 0 {
            Err(TracerError::DivisionByZero)
        } else {
            let i1 = Intersection { t: crate::vec3::fx_val(sphere_t1(lr)), obj_id: s.id };
            let i2 = Intersection { t: crate::vec3::fx_val(sphere_t2(lr)), obj_id: s.id };
            if sphere_t2(lr) >= sphere_t1(lr) {
                Ok(seq![i1, i2])
            } else {
                Ok(seq![i2, i1])
            }
        }
    }
}

/// What the sphere's normal computation returns: the local point taken as
/// a vector from the center, carried back by the transposed inverse with
/// its homogeneous coordinate zeroed, then normalized.
#[verifier::opaque]
pub open spec fn spec_sphere_normal(s: Sphere, world_point: Vec3) -> Result<Vec3, TracerError> {
    if det(s.transform.grid()) == 0 {
        Err(TracerError::SingularMatrix)
    } else {
        let ig = inv_grid(s.transform.grid());
        let object_point = xform(ig, world_point);
        if !object_point.is_point_spec() {
            Err(TracerError::InvalidOperand)
        } else {
            let object_normal = v3_sub(object_point, v3(0, 0, 0, Vec3Type::Point));
            let world_normal = v3_force_vector(xform(transpose_grid(ig, 4, 4), object_normal));
            if v3_mag(world_normal) == 0 {
                Err(TracerError::DivisionByZero)
            } else {
                Ok(v3_normalize(world_normal))
            }
        }
    }
}

impl Sphere {
    pub open spec fn wf(self) -> bool {
        &&& self.transform.wf()
        &&& self.transform.n_rows == 4
        &&& self.transform.n_cols == 4
        &&& self.material.wf()
    }

    /// A unit sphere with the identity transform, the default material,
    /// and the identity the caller assigns.
    pub fn new(id: usize) -> (r: Sphere)
        ensures
            r.id == id,
            r.wf(),
            forall|i: int, j: int|
                0 <= i < 4 && 0 <= j < 4 ==> r.transform.at(i, j) == (if i == j {
                    SCALE as int
                } else {
                    0
                }),
            r.material == default_material(),
    {
        Sphere { id, transform: Matrix::identity_matrix(4), material: Material::default() }
    }

    pub fn get_id(&self) -> (r: usize)
        ensures
            r == self.id,
    {
        self.id
    }

    /// Replaces the transform; it must be a 4x4.
    pub fn set_transform(&mut self, transform: Matrix)
        requires
            transform.wf(),
            transform.n_rows == 4,
            transform.n_cols == 4,
        ensures
            final(self).transform == transform,
            final(self).id == old(self).id,
            final(self).material == old(self).material,
    {
        self.transform = transform;
    }

    pub fn set_material(&mut self, material: Material)
        requires
            material.wf(),
        ensures
            final(self).material == material,
            final(self).id == old(self).id,
            final(self).transform == old(self).transform,
    {
        self.material = material;
    }

    /// Solves the sphere-ray quadratic in object space.
    #[verifier::rlimit(100)]
    pub fn intersection(&self, actual_ray: &Ray) -> (r: Result<Intersections, TracerError>)
        requires
            self.wf(),
        ensures
            match r {
                Ok(xs) => xs.wf() && spec_sphere_intersect(*self, *actual_ray) == Ok::<
                    Seq<Intersection>,
                    TracerError,
                >(xs.crossings@),
                Err(e) => spec_sphere_intersect(*self, *actual_ray) == Err::<
                    Seq<Intersection>,
                    TracerError,
                >(e),
            },
    {
        proof {
            reveal(spec_sphere_intersect);
        }
        let inv: Matrix = match self.transform.inverse_matrix() {
            Ok(m) => m,
            Err(e) => {
                return Err(e);
            },
        };
        let ray: Ray = actual_ray.transform(&inv);
        let origin: Vec3 = Vec3::point(Fx::zero(), Fx::zero(), Fx::zero());
        let sphere_to_ray: Vec3 = match ray.origin.sub(origin) {
            Ok(v) => v,
            Err(e) => {
                return Err(e);
            },
        };
        let a: Fx = match ray.direction.magnitude_square() {
            Ok(v) => v,
            Err(e) => {
                return Err(e);
            },
        };
        let b: Fx = match ray.direction.dot(sphere_to_ray) {
            Ok(d) => Fx::from_int(2).mul(d),
            Err(e) => {
                proof {
                    assert(false);
                }
                return Err(e);
            },
        };
        let c: Fx = match sphere_to_ray.magnitude_square() {
            Ok(v) => v.sub(Fx::one()),
            Err(e) => {
                proof {
                    assert(false);
                }
                return Err(e);
            },
        };
        let discriminant: Fx = b.mul(b).sub(Fx::from_int(4).mul(a).mul(c));
        let mut intersections: Intersections = Intersections::new();
        if discriminant.raw >= 0 {
            let denom: Fx = Fx::from_int(2).mul(a);
            if denom.raw == 0 {
                return Err(TracerError::DivisionByZero);
            }
            let sq: Fx = discriminant.sqrt();
            let t1: Fx = b.neg().sub(sq).div(denom);
            let t2: Fx = b.neg().add(sq).div(denom);
            let i1 = Intersection { t: t1, obj_id: self.id };
            let i2 = Intersection { t: t2, obj_id: self.id };
            intersections.push(i1);
            proof {
                assert(intersections.crossings@ =~= seq![i1]);
            }
            intersections.push(i2);
            proof {
                let lr = local_ray(self.transform.grid(), *actual_ray);
                assert(ray == lr);
                assert(sphere_to_ray == sphere_to_ray_of(lr));
                assert(a.raw as int == sphere_a(lr));
                assert(b.raw as int == sphere_b(lr));
                assert(c.raw as int == sphere_c(lr));
                assert(discriminant.raw as int == sphere_disc(lr));
                assert(t1.raw as int == sphere_t1(lr));
                assert(t2.raw as int == sphere_t2(lr));
                reveal_with_fuel(crate::intersection::lower_bound, 3);
                assert(seq![i1].drop_first() =~= Seq::<Intersection>::empty());
                if t1.raw >= t2.raw {
                    assert(crate::intersection::lower_bound(seq![i1], t2.raw as int) == 0);
                    assert(intersections.crossings@ =~= seq![i2, i1]);
                } else {
                    assert(crate::intersection::lower_bound(seq![i1], t2.raw as int) == 1);
                    assert(intersections.crossings@ =~= seq![i1, i2]);
                }
            }
        }
        proof {
            if discriminant.raw < 0 {
                assert(intersections.crossings@ =~= Seq::<Intersection>::empty());
            }
        }
        Ok(intersections)
    }

    /// The outward surface normal at a world point.
    pub fn normal_at(&self, world_point: Vec3) -> (r: Result<Vec3, TracerError>)
        requires
            self.wf(),
        ensures
            match r {
                Ok(n) => spec_sphere_normal(*self, world_point) == Ok::<Vec3, TracerError>(n)
                    && n.is_vector_spec(),
                Err(e) => spec_sphere_normal(*self, world_point) == Err::<Vec3, TracerError>(e),
            },
    {
        proof {
            reveal(spec_sphere_normal);
        }
        let inv: Matrix = match self.transform.inverse_matrix() {
            Ok(m) => m,
            Err(e) => {
                return Err(e);
            },
        };
        let object_point: Vec3 = inv.mul_vec3(world_point);
        let origin: Vec3 = Vec3::point(Fx::zero(), Fx::zero(), Fx::zero());
        let object_normal: Vec3 = match object_point.sub(origin) {
            Ok(v) => v,
            Err(e) => {
                return Err(e);
            },
        };
        let transposed: Matrix = inv.transpose();
        let carried: Vec3 = transposed.mul_vec3(object_normal);
        let world_normal: Vec3 = Vec3::vector(carried.x, carried.y, carried.z);
        match world_normal.normalize() {
            Ok(n) => Ok(n),
            Err(_) => Err(TracerError::DivisionByZero),
        }
    }

    /// Phong shading against this sphere's material, with the eye vector
    /// normalized first.
    pub fn lighting_at(
        &self,
        point: Vec3,
        eye_v: Vec3,
        normal_v: Vec3,
        light: Light,
        in_shadow: bool,
    ) -> (r: Result<Color, TracerError>)
        requires
            self.wf(),
            light.wf(),
            point.is_point_spec(),
            eye_v.is_vector_spec(),
            normal_v.is_vector_spec(),
        ensures
            r == spec_lighting_at(
                self.material,
                self.transform.grid(),
                light,
                point,
                eye_v,
                normal_v,
                in_shadow,
            ),
    {
        let eye_n: Vec3 = match eye_v.normalize() {
            Ok(v) => v,
            Err(_) => {
                return Err(TracerError::DivisionByZero);
            },
        };
        self.material.lighting(&self.transform, light, point, eye_n, normal_v, in_shadow)
    }
}

} // verus!
