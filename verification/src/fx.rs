use vstd::prelude::*;

verus! {

/// Raw units per 1.0: the library computes on 64-bit integers that carry six
/// decimal digits of fraction.
pub const SCALE: i64 = 1_000_000;

/// The comparison tolerance (1e-4) in raw units: two scalars closer than this
/// are treated as equal wherever geometric values are compared.
pub const EPSILON_RAW: i64 = 100;

/// Saturate an unbounded integer into the i64 range.
pub open spec fn clip(x: int) -> int {
    if x > i64::MAX as int {
        i64::MAX as int
    } else if x < i64::MIN as int {
        i64::MIN as int
    } else {
        x
    }
}

/// The nearest integer to n / d for d > 0, ties rounded away from zero.
pub open spec fn round_div(n: int, d: int) -> int {
    if n >= 0 {
        (n + d / 2) / d
    } else {
        -((-n + d / 2) / d)
    }
}

/// round_div extended to negative divisors: the sign of the result is the
/// sign of the exact quotient.
pub open spec fn round_div_signed(n: int, d: int) -> int {
    if d > 0 {
        round_div(n, d)
    } else {
        round_div(-n, -d)
    }
}

pub open spec fn fx_add(a: int, b: int) -> int {
    clip(a + b)
}

pub open spec fn fx_sub(a: int, b: int) -> int {
    clip(a - b)
}

pub open spec fn fx_neg(a: int) -> int {
    clip(-a)
}

pub open spec fn fx_mul(a: int, b: int) -> int {
    clip(round_div(a * b, SCALE as int))
}

pub open spec fn fx_div(a: int, b: int) -> int {
    clip(round_div_signed(a * (SCALE as int), b))
}

pub open spec fn fx_of_int(i: int) -> int {
    clip(i * (SCALE as int))
}

/// Absolute-epsilon equality: the scalars differ by less than the tolerance.
pub open spec fn fx_eq(a: int, b: int) -> bool {
    a - b < EPSILON_RAW as int && b - a < EPSILON_RAW as int
}

/// Strictly greater by more than the tolerance.
pub open spec fn fx_gt(a: int, b: int) -> bool {
    a - b > EPSILON_RAW as int
}

/// Mathematical floor of the scalar value (rounds toward minus infinity).
pub open spec fn fx_floor(a: int) -> int {
    a / (SCALE as int)
}

pub open spec fn is_sqrt(x: int, r: int) -> bool {
    0 <= r && r * r <= x && x < (r + 1) * (r + 1)
}

/// The integer square root (floor of the real square root) of x >= 0.
pub open spec fn isqrt(x: int) -> int {
    choose|r: int| is_sqrt(x, r)
}

/// Square root of a non-negative scalar: sqrt(a / S) == isqrt(a * S) / S.
pub open spec fn fx_sqrt(a: int) -> int {
    isqrt(a * (SCALE as int))
}

/// b raised to the integer power n, accumulated by repeated rounded products.
pub open spec fn fx_powi(b: int, n: nat) -> int
    decreases n,
{
    if n == 0 {
        SCALE as int
    } else {
        fx_mul(fx_powi(b, (n - 1) as nat), b)
    }
}

pub proof fn lemma_isqrt_unique(x: int, r1: int, r2: int)
    by (nonlinear_arith)
    requires
        is_sqrt(x, r1),
        is_sqrt(x, r2),
    ensures
        r1 == r2,
{
}

pub proof fn lemma_isqrt_value(x: int, r: int)
    requires
        is_sqrt(x, r),
    ensures
        isqrt(x) == r,
{
    assert(is_sqrt(x, isqrt(x))) by {
        assert(exists|q: int| is_sqrt(x, q));
    }
    lemma_isqrt_unique(x, r, isqrt(x));
}

/// A fixed-point scalar: the real value raw / 1_000_000.
#[derive(Clone, Copy, Debug, PartialEq, Eq, Structural)]
pub struct Fx {
    pub raw: i64,
}

/// Saturate a 128-bit intermediate into the i64 range.
fn clip_i128(p: i128) -> (r: i64)
    ensures
        r as int == clip(p as int),
{
    if p > i64::MAX as i128 {
        i64::MAX
    } else if p < i64::MIN as i128 {
        i64::MIN
    } else {
        p as i64
    }
}

/// Rounded division of a 128-bit intermediate by a small positive divisor,
/// saturated into the i64 range.
fn round_div_clip(p: i128, d: i128) -> (r: i64)
    requires
        0 < d <= 0x10000000000000000i128,
        i128::MIN as int + d < p as int <= i128::MAX as int - d,
    ensures
        r as int == clip(round_div(p as int, d as int)),
{
    let h: u128 = (d as u128) / 2;
    if p >= 0 {
        let q: u128 = ((p as u128) + h) / (d as u128);
        clip_i128(q as i128)
    } else {
        let n: u128 = (-p) as u128;
        let q: u128 = (n + h) / (d as u128);
        clip_i128(-(q as i128))
    }
}

proof fn lemma_i64_products_fit(a: int, b: int)
    by (nonlinear_arith)
    requires
        i64::MIN as int <= a <= i64::MAX as int,
        i64::MIN as int <= b <= i64::MAX as int,
    ensures
        a * b < (i128::MAX as int) - 0x10000000000000000,
        a * b > (i128::MIN as int) + 0x10000000000000000,
{
}

impl Fx {
    pub fn new(raw: i64) -> (r: Fx)
        ensures
            r.raw == raw,
    {
        Fx { raw }
    }

    pub fn zero() -> (r: Fx)
        ensures
            r.raw == 0,
    {
        Fx { raw: 0 }
    }

    pub fn one() -> (r: Fx)
        ensures
            r.raw == SCALE,
    {
        Fx { raw: SCALE }
    }

    /// The scalar with integer value i (saturated if out of range).
    pub fn from_int(i: i64) -> (r: Fx)
        ensures
            r.raw as int == fx_of_int(i as int),
    {
        proof {
            lemma_i64_products_fit(i as int, SCALE as int);
        }
        let p: i128 = (i as i128) * (SCALE as i128);
        Fx { raw: clip_i128(p) }
    }

    pub fn add(self, o: Fx) -> (r: Fx)
        ensures
            r.raw as int == fx_add(self.raw as int, o.raw as int),
    {
        Fx { raw: clip_i128((self.raw as i128) + (o.raw as i128)) }
    }

    pub fn sub(self, o: Fx) -> (r: Fx)
        ensures
            r.raw as int == fx_sub(self.raw as int, o.raw as int),
    {
        Fx { raw: clip_i128((self.raw as i128) - (o.raw as i128)) }
    }

    pub fn neg(self) -> (r: Fx)
        ensures
            r.raw as int == fx_neg(self.raw as int),
    {
        Fx { raw: clip_i128(-(self.raw as i128)) }
    }

    pub fn mul(self, o: Fx) -> (r: Fx)
        ensures
            r.raw as int == fx_mul(self.raw as int, o.raw as int),
    {
        proof {
            lemma_i64_products_fit(self.raw as int, o.raw as int);
        }
        let p: i128 = (self.raw as i128) * (o.raw as i128);
        Fx { raw: round_div_clip(p, SCALE as i128) }
    }

    pub fn div(self, o: Fx) -> (r: Fx)
        requires
            o.raw != 0,
        ensures
            r.raw as int == fx_div(self.raw as int, o.raw as int),
    {
        proof {
            lemma_i64_products_fit(self.raw as int, SCALE as int);
        }
        let n: i128 = (self.raw as i128) * (SCALE as i128);
        if o.raw > 0 {
            Fx { raw: round_div_clip(n, o.raw as i128) }
        } else {
            Fx { raw: round_div_clip(-n, -(o.raw as i128)) }
        }
    }

    pub fn equals(self, o: Fx) -> (r: bool)
        ensures
            r == fx_eq(self.raw as int, o.raw as int),
    {
        let d: i128 = (self.raw as i128) - (o.raw as i128);
        -(EPSILON_RAW as i128) < d && d < EPSILON_RAW as i128
    }

    pub fn greater(self, o: Fx) -> (r: bool)
        ensures
            r == fx_gt(self.raw as int, o.raw as int),
    {
        (self.raw as i128) - (o.raw as i128) > EPSILON_RAW as i128
    }

    /// Mathematical floor (rounds toward minus infinity).
    pub fn floor(self) -> (r: i64)
        ensures
            r as int == fx_floor(self.raw as int),
    {
        if self.raw >= 0 {
            let q: u64 = (self.raw as u64) / (SCALE as u64);
            proof {
                vstd::arithmetic::div_mod::lemma_fundamental_div_mod(self.raw as int, SCALE as int);
            }
            q as i64
        } else {
            let n: u128 = (-(self.raw as i128)) as u128;
            let q: u128 = (n + (SCALE as u128) - 1) / (SCALE as u128);
            proof {
                lemma_neg_ceil_is_floor(self.raw as int, SCALE as int);
            }
            (-(q as i128)) as i64
        }
    }

    pub fn sqrt(self) -> (r: Fx)
        requires
            self.raw >= 0,
        ensures
            r.raw as int == fx_sqrt(self.raw as int),
            r.raw >= 0,
    {
        proof {
            assert((self.raw as int) * (SCALE as int) < 0x1000000000000000000000int)
                by (nonlinear_arith)
                requires
                    0 <= self.raw <= i64::MAX,
            ;
        }
        let x: u128 = (self.raw as u128) * (SCALE as u128);
        let root: u128 = isqrt_u128(x);
        proof {
            lemma_isqrt_value(x as int, root as int);
        }
        Fx { raw: root as i64 }
    }

    pub fn powi(self, n: u32) -> (r: Fx)
        ensures
            r.raw as int == fx_powi(self.raw as int, n as nat),
    {
        let mut acc: Fx = Fx { raw: SCALE };
        let mut i: u32 = 0;
        while i < n
            invariant
                i <= n,
                acc.raw as int == fx_powi(self.raw as int, i as nat),
            decreases n - i,
        {
            acc = acc.mul(self);
            i = i + 1;
        }
        acc
    }
}

/// Euclidean remainder of a by n > 0: always in [0, n).
pub fn emod_usize(a: i64, n: usize) -> (r: usize)
    requires
        n > 0,
    ensures
        r as int == (a as int) % (n as int),
        r < n,
{
    if a >= 0 {
        ((a as u128) % (n as u128)) as usize
    } else {
        let m: u128 = ((-(a as i128)) as u128) % (n as u128);
        proof {
            lemma_neg_mod(a as int, n as int);
        }
        if m == 0 {
            0
        } else {
            n - (m as usize)
        }
    }
}

/// For a < 0 and n > 0, the Euclidean remainder of a is n minus the
/// remainder of -a, except when the latter is zero.
proof fn lemma_neg_mod(a: int, n: int)
    requires
        a < 0,
        0 < n,
    ensures
        a % n == (if (-a) % n == 0 {
            0int
        } else {
            n - (-a) % n
        }),
{
    let p = -a;
    let q = p / n;
    let r = p % n;
    vstd::arithmetic::div_mod::lemma_fundamental_div_mod(p, n);
    if r == 0 {
        assert(a == n * (-q) + 0) by (nonlinear_arith)
            requires
                p == n * q + r,
                r == 0,
                a == -p,
        ;
        vstd::arithmetic::div_mod::lemma_fundamental_div_mod_converse(a, n, -q, 0);
    } else {
        assert(a == n * (-(q + 1)) + (n - r)) by (nonlinear_arith)
            requires
                p == n * q + r,
                a == -p,
        ;
        vstd::arithmetic::div_mod::lemma_fundamental_div_mod_converse(a, n, -(q + 1), n - r);
    }
}

/// For a < 0 and d > 0, the Euclidean quotient a / d equals the negated
/// ceiling of (-a) / d.
proof fn lemma_neg_ceil_is_floor(a: int, d: int)
    requires
        a < 0,
        0 < d,
    ensures
        a / d == -((-a + d - 1) / d),
{
    let n = -a;
    let q = n / d;
    let r = n % d;
    vstd::arithmetic::div_mod::lemma_fundamental_div_mod(n, d);
    if r == 0 {
        assert(n == d * q);
        assert((n + d - 1) == d * q + (d - 1));
        vstd::arithmetic::div_mod::lemma_fundamental_div_mod_converse(n + d - 1, d, q, d - 1);
        assert(a == d * (-q) + 0) by (nonlinear_arith)
            requires
                n == d * q,
                a == -n,
        ;
        vstd::arithmetic::div_mod::lemma_fundamental_div_mod_converse(a, d, -q, 0);
    } else {
        assert(n == d * q + r);
        assert(n + d - 1 == d * (q + 1) + (r - 1)) by (nonlinear_arith)
            requires
                n == d * q + r,
        ;
        vstd::arithmetic::div_mod::lemma_fundamental_div_mod_converse(n + d - 1, d, q + 1, r - 1);
        assert(a == d * (-(q + 1)) + (d - r)) by (nonlinear_arith)
            requires
                n == d * q + r,
                a == -n,
        ;
        vstd::arithmetic::div_mod::lemma_fundamental_div_mod_converse(a, d, -(q + 1), d - r);
    }
}

/// Binary search for the integer square root of a 128-bit value below 2^84.
fn isqrt_u128(x: u128) -> (r: u128)
    requires
        (x as int) < 0x1000000000000000000000,
    ensures
        is_sqrt(x as int, r as int),
        r <= 0x40000000000,
{
    let mut lo: u128 = 0;
    let mut hi: u128 = 0x40000000000;
    proof {
        assert(0x40000000000int * 0x40000000000int == 0x1000000000000000000000int) by (nonlinear_arith);
    }
    while lo + 1 < hi
        invariant
            lo < hi <= 0x40000000000,
            (lo as int) * (lo as int) <= x as int,
            (x as int) < (hi as int) * (hi as int),
        decreases hi - lo,
    {
        let mid: u128 = lo + (hi - lo) / 2;
        proof {
            assert((mid as int) * (mid as int) <= 0x1000000000000000000000int) by (nonlinear_arith)
                requires
                    mid <= 0x40000000000u128,
            ;
        }
        if mid * mid <= x {
            lo = mid;
        } else {
            hi = mid;
        }
    }
    lo
}

} // verus!
