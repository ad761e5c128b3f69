use vstd::prelude::*;

use crate::error::TracerError;
use crate::fx::Fx;
use crate::matrix::{xform, Matrix};
use crate::vec3::{v3_add, v3_scale, Vec3};

verus! {

/// A half-line: an origin point and a direction vector.
#[derive(Clone, Copy, Debug, PartialEq, Eq, Structural)]
pub struct Ray {
    pub origin: Vec3,
    pub direction: Vec3,
}

/// The point origin + direction * t.
pub open spec fn ray_position(r: Ray, t: int) -> Vec3 {
    v3_add(r.origin, v3_scale(r.direction, t))
}

/// The ray carried into a shape's object space by the inverse of the
/// shape's transform grid.
pub open spec fn local_ray(g: Seq<Seq<int>>, r: Ray) -> Ray {
    Ray {
        origin: xform(crate::matrix::inv_grid(g), r.origin),
        direction: xform(crate::matrix::inv_grid(g), r.direction),
    }
}

impl Ray {
    pub open spec fn wf(self) -> bool {
        self.origin.is_point_spec() && self.direction.is_vector_spec()
    }

    /// A ray needs a point origin and a vector direction; anything else is
    /// rejected.
    pub fn new(origin: Vec3, direction: Vec3) -> (r: Result<Ray, TracerError>)
        ensures
            match r {
                Ok(ray) => {
                    &&& origin.is_point_spec()
                    &&& direction.is_vector_spec()
                    &&& ray == (Ray { origin, direction })
                    &&& ray.wf()
                },
                Err(e) => {
                    &&& !(origin.is_point_spec() && direction.is_vector_spec())
                    &&& e == TracerError::InvalidArgument
                },
            },
    {
        if !origin.is_point() || !direction.is_vector() {
            return Err(TracerError::InvalidArgument);
        }
        Ok(Ray { origin, direction })
    }

    /// The point reached after traveling t along the ray.
    pub fn position(&self, t: Fx) -> (p: Vec3)
        requires
            self.wf(),
        ensures
            p == ray_position(*self, t.raw as int),
            p.is_point_spec(),
    {
        match self.origin.add(self.direction.mul(t)) {
            Ok(p) => p,
            Err(_) => {
                proof {
                    assert(false);
                }
                Vec3::point(Fx::zero(), Fx::zero(), Fx::zero())
            },
        }
    }

    /// Applies a 4x4 transform to both the origin and the direction.
    pub fn transform(&self, transform: &Matrix) -> (r: Ray)
        requires
            transform.wf(),
            transform.n_rows == 4,
            transform.n_cols == 4,
        ensures
            r.origin == xform(transform.grid(), self.origin),
            r.direction == xform(transform.grid(), self.direction),
    {
        Ray {
            origin: transform.mul_vec3(self.origin),
            direction: transform.mul_vec3(self.direction),
        }
    }
}

} // verus!
