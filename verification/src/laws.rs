use vstd::prelude::*;

verus! {

/// An exact integer vector: the unrounded model that `Vec3`'s rounded
/// operations approximate, with raw components taken as integers.
pub ghost struct V3m {
    pub x: int,
    pub y: int,
    pub z: int,
}

pub open spec fn mdot(a: V3m, b: V3m) -> int {
    a.x * b.x + a.y * b.y + a.z * b.z
}

pub open spec fn mscale(a: V3m, s: int) -> V3m {
    V3m { x: s * a.x, y: s * a.y, z: s * a.z }
}

pub open spec fn msub(a: V3m, b: V3m) -> V3m {
    V3m { x: a.x - b.x, y: a.y - b.y, z: a.z - b.z }
}

pub open spec fn mneg(a: V3m) -> V3m {
    V3m { x: -a.x, y: -a.y, z: -a.z }
}

/// The exact reflection of v about n, kept integral by scaling by |n|^2:
/// |n|^2 v - 2 (v . n) n. For a unit normal this is the reflection law
/// that `Vec3::reflect` computes up to fixed-point rounding.
pub open spec fn mreflect(v: V3m, n: V3m) -> V3m {
    msub(mscale(v, mdot(n, n)), mscale(n, 2 * mdot(v, n)))
}

/// The angle of incidence equals the angle of reflection: reflection
/// flips the component of v along the normal ...
pub proof fn lemma_reflect_flips_normal(v: V3m, n: V3m)
    ensures
        mdot(mreflect(v, n), n) == -(mdot(n, n) * mdot(v, n)),
{
    let nn = mdot(n, n);
    let d = mdot(v, n);
    assert(mdot(mreflect(v, n), n) == (nn * v.x - 2 * d * n.x) * n.x + (nn * v.y - 2 * d * n.y)
        * n.y + (nn * v.z - 2 * d * n.z) * n.z);
    assert((nn * v.x - 2 * d * n.x) * n.x == nn * (v.x * n.x) - 2 * d * (n.x * n.x))
        by (nonlinear_arith);
    assert((nn * v.y - 2 * d * n.y) * n.y == nn * (v.y * n.y) - 2 * d * (n.y * n.y))
        by (nonlinear_arith);
    assert((nn * v.z - 2 * d * n.z) * n.z == nn * (v.z * n.z) - 2 * d * (n.z * n.z))
        by (nonlinear_arith);
    assert(nn * (v.x * n.x) + nn * (v.y * n.y) + nn * (v.z * n.z) == nn * d) by (nonlinear_arith)
        requires
            d == v.x * n.x + v.y * n.y + v.z * n.z,
    ;
    assert(2 * d * (n.x * n.x) + 2 * d * (n.y * n.y) + 2 * d * (n.z * n.z) == 2 * d * nn)
        by (nonlinear_arith)
        requires
            nn == n.x * n.x + n.y * n.y + n.z * n.z,
    ;
    assert(nn * d - 2 * d * nn == -(nn * d)) by (nonlinear_arith);
}

/// ... and preserves every component tangent to the surface, so the
/// reflected ray leaves at the mirrored angle.
pub proof fn lemma_reflect_preserves_tangent(v: V3m, n: V3m, t: V3m)
    requires
        mdot(t, n) == 0,
    ensures
        mdot(mreflect(v, n), t) == mdot(n, n) * mdot(v, t),
{
    let nn = mdot(n, n);
    let d = mdot(v, n);
    assert(mdot(mreflect(v, n), t) == (nn * v.x - 2 * d * n.x) * t.x + (nn * v.y - 2 * d * n.y)
        * t.y + (nn * v.z - 2 * d * n.z) * t.z);
    assert((nn * v.x - 2 * d * n.x) * t.x == nn * (v.x * t.x) - 2 * d * (n.x * t.x))
        by (nonlinear_arith);
    assert((nn * v.y - 2 * d * n.y) * t.y == nn * (v.y * t.y) - 2 * d * (n.y * t.y))
        by (nonlinear_arith);
    assert((nn * v.z - 2 * d * n.z) * t.z == nn * (v.z * t.z) - 2 * d * (n.z * t.z))
        by (nonlinear_arith);
    assert(nn * (v.x * t.x) + nn * (v.y * t.y) + nn * (v.z * t.z) == nn * mdot(v, t))
        by (nonlinear_arith);
    assert(2 * d * (n.x * t.x) + 2 * d * (n.y * t.y) + 2 * d * (n.z * t.z) == 2 * d * mdot(n, t))
        by (nonlinear_arith);
    assert(mdot(n, t) == mdot(t, n)) by (nonlinear_arith);
    assert(2 * d * mdot(n, t) == 0) by (nonlinear_arith)
        requires
            mdot(n, t) == 0,
    ;
}

/// Reflecting twice about the same normal gives the original vector back
/// (scaled by |n|^4, the factor both reflections introduce).
pub proof fn lemma_reflect_involution(v: V3m, n: V3m)
    ensures
        mreflect(mreflect(v, n), n) == mscale(v, mdot(n, n) * mdot(n, n)),
{
    let nn = mdot(n, n);
    let d = mdot(v, n);
    let r1 = mreflect(v, n);
    lemma_reflect_flips_normal(v, n);
    assert(mdot(r1, n) == -(nn * d));
    let r2 = mreflect(r1, n);
    assert(r2.x == nn * (nn * v.x - 2 * d * n.x) - 2 * (-(nn * d)) * n.x);
    assert(nn * (nn * v.x - 2 * d * n.x) - 2 * (-(nn * d)) * n.x == (nn * nn) * v.x)
        by (nonlinear_arith);
    assert(r2.y == nn * (nn * v.y - 2 * d * n.y) - 2 * (-(nn * d)) * n.y);
    assert(nn * (nn * v.y - 2 * d * n.y) - 2 * (-(nn * d)) * n.y == (nn * nn) * v.y)
        by (nonlinear_arith);
    assert(r2.z == nn * (nn * v.z - 2 * d * n.z) - 2 * (-(nn * d)) * n.z);
    assert(nn * (nn * v.z - 2 * d * n.z) - 2 * (-(nn * d)) * n.z == (nn * nn) * v.z)
        by (nonlinear_arith);
}

/// Reflecting about the negated normal behaves consistently: it gives
/// exactly the same vector as reflecting about the normal itself.
pub proof fn lemma_reflect_neg_normal(v: V3m, n: V3m)
    ensures
        mreflect(v, mneg(n)) == mreflect(v, n),
{
    let m = mneg(n);
    assert(mdot(mneg(n), mneg(n)) == mdot(n, n)) by (nonlinear_arith);
    assert(mdot(v, mneg(n)) == -mdot(v, n)) by (nonlinear_arith);
    let d = mdot(v, n);
    let nn = mdot(n, n);
    assert(mreflect(v, m).x == nn * v.x - (2 * -d) * -n.x);
    assert(nn * v.x - (2 * -d) * -n.x == nn * v.x - (2 * d) * n.x) by (nonlinear_arith);
    assert(mreflect(v, m).y == nn * v.y - (2 * -d) * -n.y);
    assert(nn * v.y - (2 * -d) * -n.y == nn * v.y - (2 * d) * n.y) by (nonlinear_arith);
    assert(mreflect(v, m).z == nn * v.z - (2 * -d) * -n.z);
    assert(nn * v.z - (2 * -d) * -n.z == nn * v.z - (2 * d) * n.z) by (nonlinear_arith);
}

/// The exact 2x2 determinant.
pub open spec fn mdet2(a: int, b: int, c: int, d: int) -> int {
    a * d - b * c
}

/// A 2x2 matrix times its adjugate is the determinant times the identity:
/// the exact identity behind `Matrix::inverse_matrix`, whose entries are
/// the rounded quotients of the cofactors by the determinant.
pub proof fn lemma_adjugate2(a: int, b: int, c: int, d: int)
    by (nonlinear_arith)
    ensures
        a * d + b * (-c) == mdet2(a, b, c, d),
        a * (-b) + b * a == 0,
        c * d + d * (-c) == 0,
        c * (-b) + d * a == mdet2(a, b, c, d),
{
}

} // verus!
