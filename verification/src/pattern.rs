use vstd::prelude::*;

use crate::color::{c_add, c_scale, c_sub, Color};
use crate::error::TracerError;
use crate::fx::{emod_usize, fx_add, fx_floor, fx_mul, fx_of_int, fx_sqrt, fx_sub, Fx};
use crate::matrix::{det, inv_grid, xform, Matrix};
use crate::vec3::{lemma_fx_square_nonneg, Vec3};

verus! {

/// The procedural texture families: each is a pure color function of a
/// point in pattern space.
#[derive(Clone, Copy, Debug, PartialEq, Eq, Structural)]
pub enum PatternKind {
    Stripe,
    Gradient,
    Ring,
    Checkers,
}

/// A procedural texture: a kind, its ordered colors, and its own transform
/// from object space to pattern space.
#[derive(Clone, Debug)]
pub struct Pattern {
    pub kind: PatternKind,
    pub colors: Vec<Color>,
    pub transform: Matrix,
}

/// Stripe color index: floor(x) mod n, with mathematical floor.
pub open spec fn stripe_index(p: Vec3, n: int) -> int {
    fx_floor(p.x.raw as int) % n
}

/// Ring color index: floor(sqrt(x^2 + z^2)) mod n.
pub open spec fn ring_index(p: Vec3, n: int) -> int {
    fx_floor(
        fx_sqrt(
            fx_add(
                fx_mul(p.x.raw as int, p.x.raw as int),
                fx_mul(p.z.raw as int, p.z.raw as int),
            ),
        ),
    ) % n
}

/// Checkers color index: floor(x) + floor(y) + floor(z) mod n.
pub open spec fn checkers_index(p: Vec3, n: int) -> int {
    (fx_floor(p.x.raw as int) + fx_floor(p.y.raw as int) + fx_floor(p.z.raw as int)) % n
}

/// Linear blend of exactly two colors by the fractional part of x.
pub open spec fn gradient_at(c0: Color, c1: Color, x: int) -> Color {
    c_add(c0, c_scale(c_sub(c1, c0), fx_sub(x, fx_of_int(fx_floor(x)))))
}

/// The color a pattern produces at a point already in pattern space.
pub open spec fn pattern_color_at(pat: Pattern, p: Vec3) -> Color {
    let n = pat.colors@.len() as int;
    match pat.kind {
        PatternKind::Stripe => pat.colors@[stripe_index(p, n)],
        PatternKind::Gradient => gradient_at(pat.colors@[0], pat.colors@[1], p.x.raw as int),
        PatternKind::Ring => pat.colors@[ring_index(p, n)],
        PatternKind::Checkers => pat.colors@[checkers_index(p, n)],
    }
}

/// A world point carried into pattern space: through the shape's inverse
/// transform, then the pattern's inverse transform.
pub open spec fn pattern_point(pat_t: Seq<Seq<int>>, obj_t: Seq<Seq<int>>, p: Vec3) -> Vec3 {
    xform(inv_grid(pat_t), xform(inv_grid(obj_t), p))
}

impl Pattern {
    /// At least one color; a gradient takes exactly two; the transform is a
    /// rectangular 4x4.
    pub open spec fn wf(self) -> bool {
        &&& self.colors@.len() >= 1
        &&& (self.kind == PatternKind::Gradient ==> self.colors@.len() == 2)
        &&& self.transform.wf()
        &&& self.transform.n_rows == 4
        &&& self.transform.n_cols == 4
    }

    /// Builds a pattern with the identity transform. An empty color list is
    /// rejected, as is a gradient without exactly two colors.
    pub fn new(kind: PatternKind, colors: Vec<Color>) -> (r: Result<Pattern, TracerError>)
        ensures
            match r {
                Ok(pat) => {
                    &&& pat.kind == kind
                    &&& pat.colors@ == colors@
                    &&& pat.wf()
                    &&& forall|i: int, j: int|
                        0 <= i < 4 && 0 <= j < 4 ==> pat.transform.at(i, j) == (if i == j {
                            crate::fx::SCALE as int
                        } else {
                            0
                        })
                },
                Err(e) => {
                    &&& e == TracerError::InvalidArgument
                    &&& (colors@.len() == 0 || (kind == PatternKind::Gradient && colors@.len()
                        != 2))
                },
            },
    {
        if colors.len() == 0 {
            return Err(TracerError::InvalidArgument);
        }
        let is_gradient: bool = match kind {
            PatternKind::Gradient => true,
            _ => false,
        };
        if is_gradient && colors.len() != 2 {
            return Err(TracerError::InvalidArgument);
        }
        let transform: Matrix = Matrix::identity_matrix(4);
        Ok(Pattern { kind, colors, transform })
    }

    pub fn stripe(colors: Vec<Color>) -> (r: Result<Pattern, TracerError>)
        ensures
            match r {
                Ok(pat) => pat.kind == PatternKind::Stripe && pat.colors@ == colors@ && pat.wf(),
                Err(e) => e == TracerError::InvalidArgument && colors@.len() == 0,
            },
    {
        Pattern::new(PatternKind::Stripe, colors)
    }

    pub fn gradient(colors: Vec<Color>) -> (r: Result<Pattern, TracerError>)
        ensures
            match r {
                Ok(pat) => pat.kind == PatternKind::Gradient && pat.colors@ == colors@ && pat.wf(),
                Err(e) => e == TracerError::InvalidArgument && colors@.len() != 2,
            },
    {
        Pattern::new(PatternKind::Gradient, colors)
    }

    pub fn ring(colors: Vec<Color>) -> (r: Result<Pattern, TracerError>)
        ensures
            match r {
                Ok(pat) => pat.kind == PatternKind::Ring && pat.colors@ == colors@ && pat.wf(),
                Err(e) => e == TracerError::InvalidArgument && colors@.len() == 0,
            },
    {
        Pattern::new(PatternKind::Ring, colors)
    }

    pub fn checkers(colors: Vec<Color>) -> (r: Result<Pattern, TracerError>)
        ensures
            match r {
                Ok(pat) => pat.kind == PatternKind::Checkers && pat.colors@ == colors@ && pat.wf(),
                Err(e) => e == TracerError::InvalidArgument && colors@.len() == 0,
            },
    {
        Pattern::new(PatternKind::Checkers, colors)
    }

    /// The color at a point in pattern space.
    pub fn color_at(&self, point_in_space: Vec3) -> (r: Color)
        requires
            self.wf(),
        ensures
            r == pattern_color_at(*self, point_in_space),
    {
        let n: usize = self.colors.len();
        match self.kind {
            PatternKind::Stripe => {
                let idx: usize = emod_usize(point_in_space.x.floor(), n);
                self.colors[idx]
            },
            PatternKind::Gradient => {
                let c0: Color = self.colors[0];
                let c1: Color = self.colors[1];
                let distance: Color = c1.sub(c0);
                let fraction: Fx = point_in_space.x.sub(Fx::from_int(point_in_space.x.floor()));
                c0.add(distance.mul(fraction))
            },
            PatternKind::Ring => {
                let x2: Fx = point_in_space.x.mul(point_in_space.x);
                let z2: Fx = point_in_space.z.mul(point_in_space.z);
                proof {
                    lemma_fx_square_nonneg(point_in_space.x.raw as int);
                    lemma_fx_square_nonneg(point_in_space.z.raw as int);
                }
                let s: Fx = x2.add(z2);
                let idx: usize = emod_usize(s.sqrt().floor(), n);
                self.colors[idx]
            },
            PatternKind::Checkers => {
                let fs: i64 = point_in_space.x.floor() + point_in_space.y.floor()
                    + point_in_space.z.floor();
                let idx: usize = emod_usize(fs, n);
                self.colors[idx]
            },
        }
    }

    /// The color at a world point on a shape: the point is mapped through
    /// the shape's inverse transform and then the pattern's inverse
    /// transform. A singular transform on either side is rejected.
    pub fn pattern_at(&self, world_point: Vec3, obj_transform: &Matrix) -> (r: Result<
        Color,
        TracerError,
    >)
        requires
            self.wf(),
            obj_transform.wf(),
            obj_transform.n_rows == 4,
            obj_transform.n_cols == 4,
        ensures
            match r {
                Ok(c) => {
                    &&& det(obj_transform.grid()) != 0
                    &&& det(self.transform.grid()) != 0
                    &&& c == pattern_color_at(
                        *self,
                        pattern_point(self.transform.grid(), obj_transform.grid(), world_point),
                    )
                },
                Err(e) => {
                    &&& e == TracerError::SingularMatrix
                    &&& (det(obj_transform.grid()) == 0 || det(self.transform.grid()) == 0)
                },
            },
    {
        let obj_inv: Matrix = match obj_transform.inverse_matrix() {
            Ok(m) => m,
            Err(e) => {
                return Err(e);
            },
        };
        let obj_point: Vec3 = obj_inv.mul_vec3(world_point);
        let pat_inv: Matrix = match self.transform.inverse_matrix() {
            Ok(m) => m,
            Err(e) => {
                return Err(e);
            },
        };
        let pattern_space: Vec3 = pat_inv.mul_vec3(obj_point);
        Ok(self.color_at(pattern_space))
    }
}

} // verus!
