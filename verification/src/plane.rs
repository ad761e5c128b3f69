use vstd::prelude::*;

use crate::color::Color;
use crate::error::TracerError;
use crate::fx::{fx_div, fx_eq, fx_neg, Fx, SCALE};
use crate::intersection::{Intersection, Intersections};
use crate::light::Light;
use crate::material::{default_material, spec_lighting_at, Material};
use crate::matrix::{det, inv_grid, transpose_grid, xform, Matrix};
use crate::ray::{local_ray, Ray};
use crate::vec3::{v3, v3_force_vector, v3_mag, v3_normalize, Vec3, Vec3Type};

verus! {

/// The local y = 0 plane, wrapped by a transform and a material, with an
/// externally assigned identity.
#[derive(Clone, Debug)]
pub struct Plane {
    pub id: usize,
    pub transform: Matrix,
    pub material: Material,
}

/// What intersecting a plane returns: nothing when the transformed ray is
/// parallel to the plane within tolerance (a coplanar ray included), else
/// the single parameter -origin.y / direction.y. Fails only on a singular
/// transform.
#[verifier::opaque]
pub open spec fn spec_plane_intersect(p: Plane, r: Ray) -> Result<Seq<Intersection>, TracerError> {
    if det(p.transform.grid()) == 0 {
        Err(TracerError::SingularMatrix)
    } else {
        let lr = local_ray(p.transform.grid(), r);
        if fx_eq(lr.direction.y.raw as int, 0) {
            Ok(Seq::empty())
        } else {
            Ok(
                seq![
                    Intersection {
                        t: crate::vec3::fx_val(
                            fx_div(fx_neg(lr.origin.y.raw as int), lr.direction.y.raw as int),
                        ),
                        obj_id: p.id,
                    },
                ],
            )
        }
    }
}

/// What the plane's normal computation returns: the constant local normal
/// (0, 1, 0) carried back by the transposed inverse with its homogeneous
/// coordinate zeroed, then normalized.
#[verifier::opaque]
pub open spec fn spec_plane_normal(p: Plane) -> Result<Vec3, TracerError> {
    if det(p.transform.grid()) == 0 {
        Err(TracerError::SingularMatrix)
    } else {
        let ig = inv_grid(p.transform.grid());
        let object_normal = v3(0, SCALE as int, 0, Vec3Type::Vector);
        let world_normal = v3_force_vector(xform(transpose_grid(ig, 4, 4), object_normal));
        if v3_mag(world_normal) == 0 {
            Err(TracerError::DivisionByZero)
        } else {
            Ok(v3_normalize(world_normal))
        }
    }
}

impl Plane {
    pub open spec fn wf(self) -> bool {
        &&& self.transform.wf()
        &&& self.transform.n_rows == 4
        &&& self.transform.n_cols == 4
        &&& self.material.wf()
    }

    /// A plane with the identity transform, the default material, and the
    /// identity the caller assigns.
    pub fn new(id: usize) -> (r: Plane)
        ensures
            r.id == id,
            r.wf(),
            forall|i: int, j: int|
                0 <= i < 4 && 0 <= j < 4 ==> r.transform.at(i, j) == (if i == j {
                    SCALE as int
                } else {
                    0
                }),
            r.material == default_material(),
    {
        Plane { id, transform: Matrix::identity_matrix(4), material: Material::default() }
    }

    pub fn get_id(&self) -> (r: usize)
        ensures
            r == self.id,
    {
        self.id
    }

    /// Replaces the transform; it must be a 4x4.
    pub fn set_transform(&mut self, transform: Matrix)
        requires
            transform.wf(),
            transform.n_rows == 4,
            transform.n_cols == 4,
        ensures
            final(self).transform == transform,
            final(self).id == old(self).id,
            final(self).material == old(self).material,
    {
        self.transform = transform;
    }

    pub fn set_material(&mut self, material: Material)
        requires
            material.wf(),
        ensures
            final(self).material == material,
            final(self).id == old(self).id,
            final(self).transform == old(self).transform,
    {
        self.material = material;
    }

    /// Intersects the transformed ray with the local y = 0 plane: a ray
    /// parallel to the plane yields no intersection at all.
    pub fn intersection(&self, actual_ray: &Ray) -> (r: Result<Intersections, TracerError>)
        requires
            self.wf(),
        ensures
            match r {
                Ok(xs) => xs.wf() && spec_plane_intersect(*self, *actual_ray) == Ok::<
                    Seq<Intersection>,
                    TracerError,
                >(xs.crossings@),
                Err(e) => spec_plane_intersect(*self, *actual_ray) == Err::<
                    Seq<Intersection>,
                    TracerError,
                >(e),
            },
    {
        proof {
            reveal(spec_plane_intersect);
        }
        let inv: Matrix = match self.transform.inverse_matrix() {
            Ok(m) => m,
            Err(e) => {
                return Err(e);
            },
        };
        let ray: Ray = actual_ray.transform(&inv);
        let mut intersections: Intersections = Intersections::new();
        if !ray.direction.y.equals(Fx::zero()) {
            let t: Fx = ray.origin.y.neg().div(ray.direction.y);
            let x = Intersection { t, obj_id: self.id };
            intersections.push(x);
            proof {
                assert(intersections.crossings@ =~= seq![x]);
            }
        } else {
            proof {
                assert(intersections.crossings@ =~= Seq::<Intersection>::empty());
            }
        }
        Ok(intersections)
    }

    /// The surface normal, the same at every point of the plane.
    pub fn normal_at(&self, _world_point: Vec3) -> (r: Result<Vec3, TracerError>)
        requires
            self.wf(),
        ensures
            match r {
                Ok(n) => spec_plane_normal(*self) == Ok::<Vec3, TracerError>(n)
                    && n.is_vector_spec(),
                Err(e) => spec_plane_normal(*self) == Err::<Vec3, TracerError>(e),
            },
    {
        proof {
            reveal(spec_plane_normal);
        }
        let inv: Matrix = match self.transform.inverse_matrix() {
            Ok(m) => m,
            Err(e) => {
                return Err(e);
            },
        };
        let object_normal: Vec3 = Vec3::vector(Fx::zero(), Fx::one(), Fx::zero());
        let transposed: Matrix = inv.transpose();
        let carried: Vec3 = transposed.mul_vec3(object_normal);
        let world_normal: Vec3 = Vec3::vector(carried.x, carried.y, carried.z);
        match world_normal.normalize() {
            Ok(n) => Ok(n),
            Err(_) => Err(TracerError::DivisionByZero),
        }
    }

    /// Phong shading against this plane's material, with the eye vector
    /// normalized first.
    pub fn lighting_at(
        &self,
        point: Vec3,
        eye_v: Vec3,
        normal_v: Vec3,
        light: Light,
        in_shadow: bool,
    ) -> (r: Result<Color, TracerError>)
        requires
            self.wf(),
            light.wf(),
            point.is_point_spec(),
            eye_v.is_vector_spec(),
            normal_v.is_vector_spec(),
        ensures
            r == spec_lighting_at(
                self.material,
                self.transform.grid(),
                light,
                point,
                eye_v,
                normal_v,
                in_shadow,
            ),
    {
        let eye_n: Vec3 = match eye_v.normalize() {
            Ok(v) => v,
            Err(_) => {
                return Err(TracerError::DivisionByZero);
            },
        };
        self.material.lighting(&self.transform, light, point, eye_n, normal_v, in_shadow)
    }
}

} // verus!
