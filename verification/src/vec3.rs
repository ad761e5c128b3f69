use vstd::prelude::*;

use crate::error::TracerError;
use crate::fx::{fx_add, fx_div, fx_eq, fx_mul, fx_neg, fx_of_int, fx_sqrt, fx_sub, Fx, SCALE};

verus! {

/// The geometric kind of a tuple: a location in space or a displacement.
#[derive(Clone, Copy, Debug, PartialEq, Eq, Structural)]
pub enum Vec3Type {
    Point,
    Vector,
}

/// A three-component tuple tagged as a point or a vector.
#[derive(Clone, Copy, Debug, PartialEq, Eq, Structural)]
pub struct Vec3 {
    pub x: Fx,
    pub y: Fx,
    pub z: Fx,
    pub t: Vec3Type,
}

/// The scalar with the given raw value (which must fit in i64).
pub open spec fn fx_val(v: int) -> Fx {
    Fx { raw: v as i64 }
}

pub open spec fn v3(x: int, y: int, z: int, t: Vec3Type) -> Vec3 {
    Vec3 { x: fx_val(x), y: fx_val(y), z: fx_val(z), t }
}

/// The homogeneous coordinate a tuple carries through matrix transforms.
pub open spec fn w_of(t: Vec3Type) -> int {
    if t == Vec3Type::Vector {
        0
    } else {
        SCALE as int
    }
}

/// Kind of a valid sum: point + vector and vector + point give a point,
/// vector + vector a vector (point + point is rejected).
pub open spec fn add_type(a: Vec3Type, b: Vec3Type) -> Vec3Type {
    if a == Vec3Type::Point {
        Vec3Type::Point
    } else {
        b
    }
}

/// Kind of a valid difference: point - point gives a vector, point - vector
/// a point, vector - vector a vector (vector - point is rejected).
pub open spec fn sub_type(a: Vec3Type, b: Vec3Type) -> Vec3Type {
    if a == Vec3Type::Point && b == Vec3Type::Point {
        Vec3Type::Vector
    } else if a == Vec3Type::Point {
        Vec3Type::Point
    } else {
        Vec3Type::Vector
    }
}

pub open spec fn v3_add(a: Vec3, b: Vec3) -> Vec3 {
    v3(
        fx_add(a.x.raw as int, b.x.raw as int),
        fx_add(a.y.raw as int, b.y.raw as int),
        fx_add(a.z.raw as int, b.z.raw as int),
        add_type(a.t, b.t),
    )
}

pub open spec fn v3_sub(a: Vec3, b: Vec3) -> Vec3 {
    v3(
        fx_sub(a.x.raw as int, b.x.raw as int),
        fx_sub(a.y.raw as int, b.y.raw as int),
        fx_sub(a.z.raw as int, b.z.raw as int),
        sub_type(a.t, b.t),
    )
}

pub open spec fn v3_neg(a: Vec3) -> Vec3 {
    v3(fx_neg(a.x.raw as int), fx_neg(a.y.raw as int), fx_neg(a.z.raw as int), a.t)
}

pub open spec fn v3_scale(a: Vec3, s: int) -> Vec3 {
    v3(
        fx_mul(a.x.raw as int, s),
        fx_mul(a.y.raw as int, s),
        fx_mul(a.z.raw as int, s),
        a.t,
    )
}

pub open spec fn v3_div(a: Vec3, s: int) -> Vec3 {
    v3(
        fx_div(a.x.raw as int, s),
        fx_div(a.y.raw as int, s),
        fx_div(a.z.raw as int, s),
        a.t,
    )
}

pub open spec fn v3_dot(a: Vec3, b: Vec3) -> int {
    fx_add(
        fx_add(
            fx_mul(a.x.raw as int, b.x.raw as int),
            fx_mul(a.y.raw as int, b.y.raw as int),
        ),
        fx_mul(a.z.raw as int, b.z.raw as int),
    )
}

pub open spec fn v3_mag_sq(a: Vec3) -> int {
    v3_dot(a, a)
}

pub open spec fn v3_mag(a: Vec3) -> int {
    fx_sqrt(v3_mag_sq(a))
}

pub open spec fn v3_normalize(a: Vec3) -> Vec3 {
    v3_div(a, v3_mag(a))
}

pub open spec fn v3_cross(a: Vec3, b: Vec3) -> Vec3 {
    v3(
        fx_sub(fx_mul(a.y.raw as int, b.z.raw as int), fx_mul(a.z.raw as int, b.y.raw as int)),
        fx_sub(fx_mul(a.z.raw as int, b.x.raw as int), fx_mul(a.x.raw as int, b.z.raw as int)),
        fx_sub(fx_mul(a.x.raw as int, b.y.raw as int), fx_mul(a.y.raw as int, b.x.raw as int)),
        Vec3Type::Vector,
    )
}

/// incoming - normal * 2 * dot(incoming, normal)
pub open spec fn v3_reflect(a: Vec3, n: Vec3) -> Vec3 {
    v3_sub(a, v3_scale(v3_scale(n, fx_of_int(2)), v3_dot(a, n)))
}

/// The same components retagged as a vector (a zeroed homogeneous w).
pub open spec fn v3_force_vector(a: Vec3) -> Vec3 {
    Vec3 { x: a.x, y: a.y, z: a.z, t: Vec3Type::Vector }
}

pub open spec fn v3_eq(a: Vec3, b: Vec3) -> bool {
    &&& fx_eq(a.x.raw as int, b.x.raw as int)
    &&& fx_eq(a.y.raw as int, b.y.raw as int)
    &&& fx_eq(a.z.raw as int, b.z.raw as int)
    &&& a.t == b.t
}

/// A rounded product of a scalar with itself is never negative.
pub proof fn lemma_fx_square_nonneg(a: int)
    ensures
        fx_mul(a, a) >= 0,
{
    assert(a * a >= 0) by (nonlinear_arith);
    vstd::arithmetic::div_mod::lemma_div_pos_is_pos(a * a + (SCALE as int) / 2, SCALE as int);
}

/// The squared magnitude of any tuple is never negative.
pub proof fn lemma_mag_sq_nonneg(a: Vec3)
    ensures
        v3_mag_sq(a) >= 0,
        v3_mag_sq(a) <= i64::MAX as int,
{
    lemma_fx_square_nonneg(a.x.raw as int);
    lemma_fx_square_nonneg(a.y.raw as int);
    lemma_fx_square_nonneg(a.z.raw as int);
}

impl Vec3 {
    pub open spec fn is_point_spec(self) -> bool {
        self.t == Vec3Type::Point
    }

    pub open spec fn is_vector_spec(self) -> bool {
        self.t == Vec3Type::Vector
    }

    pub fn point(x: Fx, y: Fx, z: Fx) -> (r: Vec3)
        ensures
            r == (Vec3 { x, y, z, t: Vec3Type::Point }),
    {
        Vec3 { x, y, z, t: Vec3Type::Point }
    }

    pub fn vector(x: Fx, y: Fx, z: Fx) -> (r: Vec3)
        ensures
            r == (Vec3 { x, y, z, t: Vec3Type::Vector }),
    {
        Vec3 { x, y, z, t: Vec3Type::Vector }
    }

    /// Builds a tuple from a homogeneous 4-tuple; a fourth component within
    /// tolerance of zero marks a vector, anything else a point.
    pub fn new(v: &Vec<Fx>) -> (r: Vec3)
        requires
            v@.len() == 4,
        ensures
            r.x == v@[0],
            r.y == v@[1],
            r.z == v@[2],
            r.t == (if fx_eq(v@[3].raw as int, 0) {
                Vec3Type::Vector
            } else {
                Vec3Type::Point
            }),
    {
        let w: Fx = *v.get(3).unwrap();
        let t: Vec3Type = if w.equals(Fx::zero()) {
            Vec3Type::Vector
        } else {
            Vec3Type::Point
        };
        Vec3 { x: *v.get(0).unwrap(), y: *v.get(1).unwrap(), z: *v.get(2).unwrap(), t }
    }

    /// The homogeneous 4-tuple [x, y, z, w] with w = 1 for points, 0 for
    /// vectors.
    pub fn as_vec(&self) -> (r: Vec<Fx>)
        ensures
            r@.len() == 4,
            r@[0] == self.x,
            r@[1] == self.y,
            r@[2] == self.z,
            r@[3].raw as int == w_of(self.t),
    {
        let w: Fx = if self.is_vector() {
            Fx::zero()
        } else {
            Fx::one()
        };
        let mut v: Vec<Fx> = Vec::new();
        v.push(self.x);
        v.push(self.y);
        v.push(self.z);
        v.push(w);
        v
    }

    pub fn is_point(&self) -> (r: bool)
        ensures
            r == self.is_point_spec(),
    {
        match self.t {
            Vec3Type::Point => true,
            Vec3Type::Vector => false,
        }
    }

    pub fn is_vector(&self) -> (r: bool)
        ensures
            r == self.is_vector_spec(),
    {
        match self.t {
            Vec3Type::Vector => true,
            Vec3Type::Point => false,
        }
    }

    /// Componentwise sum; adding two points has no geometric meaning and is
    /// rejected.
    pub fn add(self, other: Vec3) -> (r: Result<Vec3, TracerError>)
        ensures
            match r {
                Ok(v) => !(self.is_point_spec() && other.is_point_spec()) && v == v3_add(
                    self,
                    other,
                ),
                Err(e) => self.is_point_spec() && other.is_point_spec() && e
                    == TracerError::InvalidOperand,
            },
    {
        if self.is_point() && other.is_point() {
            return Err(TracerError::InvalidOperand);
        }
        let t: Vec3Type = if self.is_point() {
            Vec3Type::Point
        } else {
            other.t
        };
        Ok(Vec3 { x: self.x.add(other.x), y: self.y.add(other.y), z: self.z.add(other.z), t })
    }

    /// Componentwise difference; subtracting a point from a vector is
    /// rejected.
    pub fn sub(self, other: Vec3) -> (r: Result<Vec3, TracerError>)
        ensures
            match r {
                Ok(v) => !(self.is_vector_spec() && other.is_point_spec()) && v == v3_sub(
                    self,
                    other,
                ),
                Err(e) => self.is_vector_spec() && other.is_point_spec() && e
                    == TracerError::InvalidOperand,
            },
    {
        if self.is_vector() && other.is_point() {
            return Err(TracerError::InvalidOperand);
        }
        let t: Vec3Type = if self.is_point() && other.is_point() {
            Vec3Type::Vector
        } else if self.is_point() {
            Vec3Type::Point
        } else {
            Vec3Type::Vector
        };
        Ok(Vec3 { x: self.x.sub(other.x), y: self.y.sub(other.y), z: self.z.sub(other.z), t })
    }

    pub fn neg(self) -> (r: Vec3)
        ensures
            r == v3_neg(self),
    {
        Vec3 { x: self.x.neg(), y: self.y.neg(), z: self.z.neg(), t: self.t }
    }

    /// Componentwise product with a scalar; the kind is kept.
    pub fn mul(self, rhs: Fx) -> (r: Vec3)
        ensures
            r == v3_scale(self, rhs.raw as int),
    {
        Vec3 { x: self.x.mul(rhs), y: self.y.mul(rhs), z: self.z.mul(rhs), t: self.t }
    }

    /// Componentwise quotient by a scalar; dividing by zero is rejected.
    pub fn div(self, rhs: Fx) -> (r: Result<Vec3, TracerError>)
        ensures
            match r {
                Ok(v) => rhs.raw != 0 && v == v3_div(self, rhs.raw as int),
                Err(e) => rhs.raw == 0 && e == TracerError::DivisionByZero,
            },
    {
        if rhs.raw == 0 {
            return Err(TracerError::DivisionByZero);
        }
        Ok(Vec3 { x: self.x.div(rhs), y: self.y.div(rhs), z: self.z.div(rhs), t: self.t })
    }

    /// Dot product, defined on vectors only.
    pub fn dot(&self, other: Vec3) -> (r: Result<Fx, TracerError>)
        ensures
            match r {
                Ok(d) => self.is_vector_spec() && other.is_vector_spec() && d.raw as int == v3_dot(
                    *self,
                    other,
                ),
                Err(e) => !(self.is_vector_spec() && other.is_vector_spec()) && e
                    == TracerError::InvalidOperand,
            },
    {
        if !self.is_vector() || !other.is_vector() {
            return Err(TracerError::InvalidOperand);
        }
        Ok(
            self.x.mul(other.x).add(self.y.mul(other.y)).add(self.z.mul(other.z)),
        )
    }

    /// Cross product, defined on vectors only.
    pub fn cross(&self, other: Vec3) -> (r: Result<Vec3, TracerError>)
        ensures
            match r {
                Ok(v) => self.is_vector_spec() && other.is_vector_spec() && v == v3_cross(
                    *self,
                    other,
                ),
                Err(e) => !(self.is_vector_spec() && other.is_vector_spec()) && e
                    == TracerError::InvalidOperand,
            },
    {
        if !self.is_vector() || !other.is_vector() {
            return Err(TracerError::InvalidOperand);
        }
        Ok(
            Vec3 {
                x: self.y.mul(other.z).sub(self.z.mul(other.y)),
                y: self.z.mul(other.x).sub(self.x.mul(other.z)),
                z: self.x.mul(other.y).sub(self.y.mul(other.x)),
                t: Vec3Type::Vector,
            },
        )
    }

    /// Squared length, defined on vectors only.
    pub fn magnitude_square(&self) -> (r: Result<Fx, TracerError>)
        ensures
            match r {
                Ok(m) => self.is_vector_spec() && m.raw as int == v3_mag_sq(*self),
                Err(e) => !self.is_vector_spec() && e == TracerError::InvalidOperand,
            },
    {
        if !self.is_vector() {
            return Err(TracerError::InvalidOperand);
        }
        Ok(
            self.x.mul(self.x).add(self.y.mul(self.y)).add(self.z.mul(self.z)),
        )
    }

    /// Length, defined on vectors only.
    pub fn magnitude(&self) -> (r: Result<Fx, TracerError>)
        ensures
            match r {
                Ok(m) => self.is_vector_spec() && m.raw as int == v3_mag(*self) && m.raw >= 0,
                Err(e) => !self.is_vector_spec() && e == TracerError::InvalidOperand,
            },
    {
        let ms: Fx = match self.magnitude_square() {
            Ok(m) => m,
            Err(e) => {
                return Err(e);
            },
        };
        proof {
            lemma_mag_sq_nonneg(*self);
        }
        Ok(ms.sqrt())
    }

    /// The unit vector with this vector's direction; rejected on points and
    /// on vectors whose length rounds to zero.
    pub fn normalize(&self) -> (r: Result<Vec3, TracerError>)
        ensures
            match r {
                Ok(v) => self.is_vector_spec() && v3_mag(*self) != 0 && v == v3_normalize(*self),
                Err(e) => {
                    ||| (!self.is_vector_spec() && e == TracerError::InvalidOperand)
                    ||| (self.is_vector_spec() && v3_mag(*self) == 0 && e
                        == TracerError::DivisionByZero)
                },
            },
    {
        let m: Fx = match self.magnitude() {
            Ok(m) => m,
            Err(e) => {
                return Err(e);
            },
        };
        if m.raw == 0 {
            return Err(TracerError::DivisionByZero);
        }
        Ok(Vec3 { x: self.x.div(m), y: self.y.div(m), z: self.z.div(m), t: self.t })
    }

    /// incoming - normal * 2 * dot(incoming, normal); both operands must be
    /// vectors.
    pub fn reflect(&self, normal: Vec3) -> (r: Result<Vec3, TracerError>)
        ensures
            match r {
                Ok(v) => self.is_vector_spec() && normal.is_vector_spec() && v == v3_reflect(
                    *self,
                    normal,
                ),
                Err(e) => !(self.is_vector_spec() && normal.is_vector_spec()) && e
                    == TracerError::InvalidOperand,
            },
    {
        let d: Fx = match self.dot(normal) {
            Ok(d) => d,
            Err(e) => {
                return Err(e);
            },
        };
        let scaled: Vec3 = normal.mul(Fx::from_int(2)).mul(d);
        match self.sub(scaled) {
            Ok(v) => Ok(v),
            Err(_) => Err(TracerError::InvalidOperand),
        }
    }

    /// Componentwise equality within tolerance, with matching kinds.
    pub fn equals(&self, other: Vec3) -> (r: bool)
        ensures
            r == v3_eq(*self, other),
    {
        self.x.equals(other.x) && self.y.equals(other.y) && self.z.equals(other.z) && (
        self.is_point() == other.is_point())
    }
}

} // verus!
