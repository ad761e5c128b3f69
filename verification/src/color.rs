use vstd::prelude::*;

use crate::fx::{fx_add, fx_eq, fx_mul, fx_sub, Fx, SCALE};
use crate::vec3::fx_val;

verus! {

/// An RGB color; channel values are unclamped scalars where 0.0 is dark and
/// 1.0 is full intensity.
#[derive(Clone, Copy, Debug, PartialEq, Eq, Structural)]
pub struct Color {
    pub red: Fx,
    pub green: Fx,
    pub blue: Fx,
}

pub open spec fn col(r: int, g: int, b: int) -> Color {
    Color { red: fx_val(r), green: fx_val(g), blue: fx_val(b) }
}

pub open spec fn c_black() -> Color {
    col(0, 0, 0)
}

pub open spec fn c_add(a: Color, b: Color) -> Color {
    col(
        fx_add(a.red.raw as int, b.red.raw as int),
        fx_add(a.green.raw as int, b.green.raw as int),
        fx_add(a.blue.raw as int, b.blue.raw as int),
    )
}

pub open spec fn c_sub(a: Color, b: Color) -> Color {
    col(
        fx_sub(a.red.raw as int, b.red.raw as int),
        fx_sub(a.green.raw as int, b.green.raw as int),
        fx_sub(a.blue.raw as int, b.blue.raw as int),
    )
}

pub open spec fn c_scale(a: Color, s: int) -> Color {
    col(
        fx_mul(a.red.raw as int, s),
        fx_mul(a.green.raw as int, s),
        fx_mul(a.blue.raw as int, s),
    )
}

/// Componentwise (Hadamard) product of two colors.
pub open spec fn c_hadamard(a: Color, b: Color) -> Color {
    col(
        fx_mul(a.red.raw as int, b.red.raw as int),
        fx_mul(a.green.raw as int, b.green.raw as int),
        fx_mul(a.blue.raw as int, b.blue.raw as int),
    )
}

pub open spec fn c_eq(a: Color, b: Color) -> bool {
    &&& fx_eq(a.red.raw as int, b.red.raw as int)
    &&& fx_eq(a.green.raw as int, b.green.raw as int)
    &&& fx_eq(a.blue.raw as int, b.blue.raw as int)
}

impl Color {
    pub fn new(r: Fx, g: Fx, b: Fx) -> (c: Color)
        ensures
            c == (Color { red: r, green: g, blue: b }),
    {
        Color { red: r, green: g, blue: b }
    }

    pub fn black() -> (c: Color)
        ensures
            c == c_black(),
    {
        Color { red: Fx::zero(), green: Fx::zero(), blue: Fx::zero() }
    }

    pub fn white() -> (c: Color)
        ensures
            c == col(SCALE as int, SCALE as int, SCALE as int),
    {
        Color { red: Fx::one(), green: Fx::one(), blue: Fx::one() }
    }

    /// Channelwise equality within the geometric tolerance.
    pub fn equals(&self, other: Color) -> (r: bool)
        ensures
            r == c_eq(*self, other),
    {
        self.red.equals(other.red) && self.green.equals(other.green) && self.blue.equals(
            other.blue,
        )
    }

    pub fn add(self, other: Color) -> (c: Color)
        ensures
            c == c_add(self, other),
    {
        Color {
            red: self.red.add(other.red),
            green: self.green.add(other.green),
            blue: self.blue.add(other.blue),
        }
    }

    pub fn sub(self, other: Color) -> (c: Color)
        ensures
            c == c_sub(self, other),
    {
        Color {
            red: self.red.sub(other.red),
            green: self.green.sub(other.green),
            blue: self.blue.sub(other.blue),
        }
    }

    /// Scales every channel by a scalar.
    pub fn mul(self, rhs: Fx) -> (c: Color)
        ensures
            c == c_scale(self, rhs.raw as int),
    {
        Color { red: self.red.mul(rhs), green: self.green.mul(rhs), blue: self.blue.mul(rhs) }
    }

    /// Componentwise (Hadamard) product.
    pub fn hadamard(self, other: Color) -> (c: Color)
        ensures
            c == c_hadamard(self, other),
    {
        Color {
            red: self.red.mul(other.red),
            green: self.green.mul(other.green),
            blue: self.blue.mul(other.blue),
        }
    }
}

} // verus!
