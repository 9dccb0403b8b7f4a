//! Signed 32-bit fixed-point scalars with 16 fractional bits.
//!
//! A value `Fx32 { x }` stands for the rational number `x / 65536`.
//! Every operation is specified exactly over the raw representation.
//! Rounding strategy for this build: all narrowing operations round
//! toward zero (truncating division), uniformly across multiply,
//! divide and conversion paths.
//!
//! Valid operating range: raw values are `i32`, so scalars cover about
//! +/-32768 units at 1/65536-unit granularity; the collision layer
//! further restricts positions and sweep lengths so that squared
//! quantities stay inside the representation (see `raytrace`).

use vstd::prelude::*;

verus! {

/// Number of fractional bits in half a product operand shift.
pub const HALF_FRACTIONAL_BITS: i32 = 8;
/// Number of fractional bits.
pub const FRACTIONAL_BITS: i32 = 16;
/// The unit value: raw representation of 1.0.
pub const DENOMINATOR: i32 = 65536;
/// Raw representation of the divisor used by the half-shift strategies.
pub const HALF_DENOMINATOR: i32 = 256;

/// Absolute value over mathematical integers.
pub open spec fn iabs(a: int) -> int {
    if a < 0 {
        -a
    } else {
        a
    }
}

/// Truncating (round-toward-zero) integer division, the rounding used
/// by Rust's `/` on signed integers.
pub open spec fn tdiv(a: int, b: int) -> int
    recommends
        b != 0,
{
    if (a < 0) == (b < 0) {
        iabs(a) / iabs(b)
    } else {
        -(iabs(a) / iabs(b))
    }
}

/// Fixed-point product: the scaled-back wide product, truncated.
pub open spec fn fxmul(a: int, b: int) -> int {
    tdiv(a * b, DENOMINATOR as int)
}

/// Fixed-point quotient: the widened dividend over the raw divisor, truncated.
pub open spec fn fxdiv(a: int, b: int) -> int
    recommends
        b != 0,
{
    tdiv(a * (DENOMINATOR as int), b)
}

/// The quotient-remainder characterisation of truncating division.
pub proof fn lemma_tdiv_facts(a: int, b: int)
    requires
        b != 0,
    ensures
        iabs(tdiv(a, b)) * iabs(b) <= iabs(a),
        iabs(a) < (iabs(tdiv(a, b)) + 1) * iabs(b),
        a >= 0 && b > 0 ==> tdiv(a, b) >= 0,
        a <= 0 && b > 0 ==> tdiv(a, b) <= 0,
        a >= 0 && b > 0 ==> tdiv(a, b) == a / b,
{
    let m = iabs(a);
    let d = iabs(b);
    assert(d > 0);
    assert(m >= 0);
    assert(m / d >= 0 && m / d * d <= m && m < (m / d + 1) * d) by (nonlinear_arith)
        requires
            m >= 0,
            d > 0,
    ;
    assert(iabs(tdiv(a, b)) == m / d);
}

/// Truncating division by a positive divisor never grows magnitude past a bound.
pub proof fn lemma_tdiv_le(a: int, b: int, c: int)
    requires
        b != 0,
        c >= 0,
        iabs(a) < (c + 1) * iabs(b),
    ensures
        iabs(tdiv(a, b)) <= c,
{
    lemma_tdiv_facts(a, b);
    let q = iabs(tdiv(a, b));
    assert(q <= c) by (nonlinear_arith)
        requires
            q * iabs(b) <= iabs(a),
            iabs(a) < (c + 1) * iabs(b),
            iabs(b) > 0,
            q >= 0,
    ;
}

/// A scalar in signed 16.16 fixed point; `x` counts 1/65536-unit steps.
#[derive(Clone, Copy, PartialEq, Eq, Structural, Debug)]
pub struct Fx32 {
    pub x: i32,
}

/// Exact wide product of two raw scalars.
pub(crate) fn wide_mul(a: i32, b: i32) -> (r: i64)
    ensures
        r == a as int * b as int,
        -0x4000_0000_0000_0000 <= r <= 0x4000_0000_0000_0000,
{
    proof {
        assert(-0x4000_0000_0000_0000 <= a as int * b as int <= 0x4000_0000_0000_0000)
            by (nonlinear_arith)
            requires
                -0x8000_0000 <= a as int <= 0x7fff_ffff,
                -0x8000_0000 <= b as int <= 0x7fff_ffff,
        ;
    }
    (a as i64) * (b as i64)
}

/// Truncating division on wide values: magnitudes divide as unsigned
/// numbers and the quotient takes the sign of the operands' product.
pub(crate) fn tdiv_i64(a: i64, b: i64) -> (q: i64)
    requires
        b != 0,
        a != i64::MIN,
        b != i64::MIN,
    ensures
        q == tdiv(a as int, b as int),
{
    let na: u64 = if a < 0 {
        (-a) as u64
    } else {
        a as u64
    };
    let nb: u64 = if b < 0 {
        (-b) as u64
    } else {
        b as u64
    };
    let nq: u64 = na / nb;
    proof {
        assert(na as int == iabs(a as int));
        assert(nb as int == iabs(b as int));
        assert(nq as int == iabs(a as int) / iabs(b as int));
        lemma_tdiv_facts(a as int, b as int);
        assert(nq as int <= iabs(a as int)) by (nonlinear_arith)
            requires
                nq as int * iabs(b as int) <= iabs(a as int),
                iabs(b as int) >= 1,
                nq as int >= 0,
        ;
    }
    if (a < 0) != (b < 0) {
        -(nq as i64)
    } else {
        nq as i64
    }
}

impl Fx32 {
    /// The value this scalar stands for, in whole raw steps.
    pub open spec fn v(self) -> int {
        self.x as int
    }

    /// Wraps a raw representation.
    pub fn new(x: i32) -> (r: Fx32)
        ensures
            r.x == x,
    {
        Fx32 { x }
    }

    /// Builds the scalar nearest `num / den`, rounding toward zero.
    pub fn from_q(num: i32, den: i32) -> (r: Fx32)
        requires
            den != 0,
            -0x8000_0000 <= fxdiv(num as int, den as int) <= 0x7fff_ffff,
        ensures
            r.x == fxdiv(num as int, den as int),
    {
        let wide: i64 = (num as i64) * (DENOMINATOR as i64);
        let q = tdiv_i64(wide, den as i64);
        Fx32 { x: q as i32 }
    }

    /// Builds the scalar for a whole number of units.
    pub fn from_int(x: i32) -> (r: Fx32)
        requires
            -32768 <= x <= 32767,
        ensures
            r.x == x as int * DENOMINATOR as int,
    {
        proof {
            assert(fxdiv(x as int, 1) == x as int * 65536) by {
                lemma_tdiv_facts(x as int * 65536, 1);
                assert(iabs(x as int * 65536) / 1 == iabs(x as int * 65536));
            }
        }
        Fx32::from_q(x, 1)
    }

    /// Truncates to a whole number of units.
    pub fn to_i32(&self) -> (r: i32)
        ensures
            r == tdiv(self.x as int, DENOMINATOR as int),
    {
        proof {
            lemma_tdiv_le(self.x as int, 65536, 0x8000_0000);
        }
        self.x / DENOMINATOR
    }

    /// Magnitude of the scalar.
    pub fn abs(&self) -> (r: Fx32)
        requires
            self.x != i32::MIN,
        ensures
            r.x == iabs(self.x as int),
    {
        if self.x < 0 {
            Fx32 { x: -self.x }
        } else {
            Fx32 { x: self.x }
        }
    }

    /// Exact sum.
    pub fn add(self, o: Fx32) -> (r: Fx32)
        requires
            -0x8000_0000 <= self.x + o.x <= 0x7fff_ffff,
        ensures
            r.x == self.x + o.x,
    {
        Fx32 { x: self.x + o.x }
    }

    /// Exact difference.
    pub fn sub(self, o: Fx32) -> (r: Fx32)
        requires
            -0x8000_0000 <= self.x - o.x <= 0x7fff_ffff,
        ensures
            r.x == self.x - o.x,
    {
        Fx32 { x: self.x - o.x }
    }

    /// Exact negation.
    pub fn neg(self) -> (r: Fx32)
        requires
            self.x != i32::MIN,
        ensures
            r.x == -self.x,
    {
        Fx32 { x: -self.x }
    }

    /// Half-shift multiply with a branch that keeps the larger operand whole.
    pub fn mul_precise(self, o: Fx32) -> (r: Fx32)
        requires
            self.x != i32::MIN,
            o.x != i32::MIN,
            -0x8000_0000 <= tdiv(self.x as int, 256) * o.x <= 0x7fff_ffff,
            -0x8000_0000 <= self.x * tdiv(o.x as int, 256) <= 0x7fff_ffff,
        ensures
            r.x == if iabs(self.x as int) > iabs(o.x as int) {
                tdiv(tdiv(self.x as int, 256) * o.x, 256)
            } else {
                tdiv(self.x * tdiv(o.x as int, 256), 256)
            },
    {
        let a = self.x;
        let b = o.x;
        let aa = if a < 0 {
            -a
        } else {
            a
        };
        let bb = if b < 0 {
            -b
        } else {
            b
        };
        if aa > bb {
            let q = a / HALF_DENOMINATOR;
            let p = q * b;
            proof {
                lemma_tdiv_le(p as int, 256, 0x8000_0000);
            }
            Fx32 { x: p / HALF_DENOMINATOR }
        } else {
            let q = b / HALF_DENOMINATOR;
            let p = a * q;
            proof {
                lemma_tdiv_le(p as int, 256, 0x8000_0000);
            }
            Fx32 { x: p / HALF_DENOMINATOR }
        }
    }

    /// Cheap multiply for operands whose product of halves stays in range.
    pub fn mul_small(&self, o: Fx32) -> (r: Fx32)
        requires
            -0x8000_0000 <= tdiv(self.x as int, 2) * tdiv(o.x as int, 2) <= 0x7fff_ffff,
        ensures
            r.x == tdiv(tdiv(self.x as int, 2) * tdiv(o.x as int, 2), 16384),
    {
        let a = self.x / 2;
        let b = o.x / 2;
        let p = a * b;
        proof {
            lemma_tdiv_le(p as int, 16384, 0x8000_0000);
        }
        Fx32 { x: p / 16384 }
    }

    /// Half-shift multiply: both operands lose their low half-word first.
    pub fn mul_big(&self, o: Fx32) -> (r: Fx32)
        requires
            -0x8000_0000 <= tdiv(self.x as int, 256) * tdiv(o.x as int, 256) <= 0x7fff_ffff,
        ensures
            r.x == tdiv(self.x as int, 256) * tdiv(o.x as int, 256),
    {
        let a = self.x / HALF_DENOMINATOR;
        let b = o.x / HALF_DENOMINATOR;
        Fx32 { x: a * b }
    }

    /// Widened multiply: the canonical strategy for this build.
    pub fn mul_64(self, o: Fx32) -> (r: Fx32)
        requires
            -0x8000_0000 <= fxmul(self.x as int, o.x as int) <= 0x7fff_ffff,
        ensures
            r.x == fxmul(self.x as int, o.x as int),
    {
        let c = wide_mul(self.x, o.x);
        let q = tdiv_i64(c, DENOMINATOR as i64);
        Fx32 { x: q as i32 }
    }

    /// Half-shift divide: divisor loses its low half-word, quotient regains it.
    pub fn div_32(self, o: Fx32) -> (r: Fx32)
        requires
            tdiv(o.x as int, 256) != 0,
            -0x0080_0000 <= tdiv(self.x as int, tdiv(o.x as int, 256)) < 0x0080_0000,
        ensures
            r.x == 256 * tdiv(self.x as int, tdiv(o.x as int, 256)),
    {
        let d = o.x / HALF_DENOMINATOR;
        let q = tdiv_i64(self.x as i64, d as i64);
        Fx32 { x: (q as i32) * HALF_DENOMINATOR }
    }

    /// Widened divide: the canonical strategy for this build.
    pub fn div_64(self, o: Fx32) -> (r: Fx32)
        requires
            o.x != 0,
            -0x8000_0000 <= fxdiv(self.x as int, o.x as int) <= 0x7fff_ffff,
        ensures
            r.x == fxdiv(self.x as int, o.x as int),
    {
        let a2: i64 = (self.x as i64) * (DENOMINATOR as i64);
        let q = tdiv_i64(a2, o.x as i64);
        Fx32 { x: q as i32 }
    }

    /// Half-shift square.
    pub fn square(self) -> (r: Fx32)
        requires
            iabs(self.x as int) < 46341 * 256,
        ensures
            r.x == tdiv(self.x as int, 256) * tdiv(self.x as int, 256),
    {
        let a = self.x / HALF_DENOMINATOR;
        proof {
            lemma_tdiv_le(self.x as int, 256, 46340);
            assert(a * a <= 46340 * 46340) by (nonlinear_arith)
                requires
                    -46340 <= a as int <= 46340,
            ;
            assert(a * a >= 0) by (nonlinear_arith);
        }
        Fx32 { x: a * a }
    }

    /// Widened square.
    pub fn square_64(self) -> (r: Fx32)
        requires
            fxmul(self.x as int, self.x as int) <= 0x7fff_ffff,
        ensures
            r.x == fxmul(self.x as int, self.x as int),
            r.x >= 0,
    {
        proof {
            lemma_tdiv_facts(self.x as int * self.x as int, 65536);
            assert(self.x as int * self.x as int >= 0) by (nonlinear_arith);
        }
        Fx32::mul_64(self, self)
    }

    /// Widened square root: the canonical strategy for this build.
    pub fn sqrt_64(self) -> (r: Fx32)
        requires
            self.x >= 0,
        ensures
            r.x == isqrt_spec(self.x as int * DENOMINATOR as int),
            r.x >= 0,
    {
        let n: u64 = ((self.x as i64) * (DENOMINATOR as i64)) as u64;
        let s = isqrt_u64(n);
        proof {
            assert(isqrt_spec(n as int) < 0x0100_0000) by {
                lemma_isqrt_bracket(n as int);
                assert(isqrt_spec(n as int) < 0x0100_0000) by (nonlinear_arith)
                    requires
                        isqrt_spec(n as int) >= 0,
                        isqrt_spec(n as int) * isqrt_spec(n as int) <= n as int,
                        (n as int) < 0x1_0000_0000_0000,
                ;
            }
        }
        Fx32 { x: s as i32 }
    }

    /// Narrow square root: root of the raw value, rescaled by a half word.
    pub fn sqrt(self) -> (r: Fx32)
        requires
            self.x >= 0,
        ensures
            r.x == isqrt_spec(self.x as int) * 256,
            r.x >= 0,
    {
        let s = isqrt_u64(self.x as u64);
        proof {
            assert(isqrt_spec(self.x as int) < 46341) by {
                lemma_isqrt_bracket(self.x as int);
                assert(isqrt_spec(self.x as int) < 46341) by (nonlinear_arith)
                    requires
                        isqrt_spec(self.x as int) >= 0,
                        isqrt_spec(self.x as int) * isqrt_spec(self.x as int) <= self.x as int,
                        (self.x as int) < 0x8000_0000,
                ;
            }
        }
        Fx32 { x: (s as i32) * HALF_DENOMINATOR }
    }

    /// Tags this scalar as lying strictly inside (-2, +2) units.
    pub fn to_small(self) -> (r: Fx32Small)
        requires
            iabs(self.x as int) < 131072,
        ensures
            r.x == self,
            r.inv(),
    {
        Fx32Small { x: self }
    }
}

/// The exact integer square root: the largest `r` with `r * r <= n`.
pub open spec fn isqrt_spec(n: int) -> int
    decreases n,
{
    if n <= 0 {
        0
    } else {
        let p = isqrt_spec(n - 1);
        if (p + 1) * (p + 1) <= n {
            p + 1
        } else {
            p
        }
    }
}

/// The square root spec brackets its argument.
pub proof fn lemma_isqrt_bracket(n: int)
    requires
        n >= 0,
    ensures
        isqrt_spec(n) >= 0,
        isqrt_spec(n) * isqrt_spec(n) <= n,
        n < (isqrt_spec(n) + 1) * (isqrt_spec(n) + 1),
    decreases n,
{
    if n > 0 {
        lemma_isqrt_bracket(n - 1);
        let p = isqrt_spec(n - 1);
        if (p + 1) * (p + 1) <= n {
            assert(n == (p + 1) * (p + 1));
            assert((p + 1) * (p + 1) < (p + 2) * (p + 2)) by (nonlinear_arith)
                requires
                    p >= 0,
            ;
        }
    }
}

/// Any bracketing root equals the square root spec.
pub proof fn lemma_isqrt_unique(n: int, r: int)
    requires
        n >= 0,
        r >= 0,
        r * r <= n,
        n < (r + 1) * (r + 1),
    ensures
        r == isqrt_spec(n),
{
    lemma_isqrt_bracket(n);
    let s = isqrt_spec(n);
    if r < s {
        assert(false) by (nonlinear_arith)
            requires
                0 <= r < s,
                s * s <= n,
                n < (r + 1) * (r + 1),
        ;
    }
    if s < r {
        assert(false) by (nonlinear_arith)
            requires
                0 <= s < r,
                r * r <= n,
                n < (s + 1) * (s + 1),
        ;
    }
}

/// The square root spec is monotone.
pub proof fn lemma_isqrt_mono(n: int, m: int)
    requires
        0 <= n <= m,
    ensures
        isqrt_spec(n) <= isqrt_spec(m),
{
    lemma_isqrt_bracket(n);
    lemma_isqrt_bracket(m);
    assert(isqrt_spec(n) <= isqrt_spec(m)) by (nonlinear_arith)
        requires
            isqrt_spec(n) >= 0,
            isqrt_spec(m) >= 0,
            isqrt_spec(n) * isqrt_spec(n) <= n,
            n <= m,
            m < (isqrt_spec(m) + 1) * (isqrt_spec(m) + 1),
    ;
}

/// Binary-search integer square root on wide unsigned values.
fn isqrt_u64(n: u64) -> (r: u64)
    requires
        n < 0x4000_0000_0000_0000,
    ensures
        r as int == isqrt_spec(n as int),
        r * r <= n,
        n < (r + 1) * (r + 1),
{
    if n == 0 {
        proof {
            lemma_isqrt_unique(0, 0);
        }
        return 0;
    }
    let mut lo: u64 = 0;
    let mut hi: u64 = 0x8000_0000;
    while lo + 1 < hi
        invariant
            0 <= lo < hi <= 0x8000_0000,
            lo * lo <= n,
            (n as int) < (hi as int) * (hi as int),
        decreases hi - lo,
    {
        let mid = lo + (hi - lo) / 2;
        proof {
            assert((mid as int) * (mid as int) < 0x8000_0000_0000_0000) by (nonlinear_arith)
                requires
                    0 <= (mid as int) < 0x8000_0000,
            ;
        }
        if mid * mid <= n {
            lo = mid;
        } else {
            hi = mid;
        }
    }
    proof {
        assert(hi == lo + 1);
        lemma_isqrt_unique(n as int, lo as int);
    }
    lo
}

/// A scalar tagged, at construction, as lying strictly inside (-2, +2)
/// units: normalized directions and time fractions.
#[derive(Clone, Copy, PartialEq, Eq, Structural, Debug)]
pub struct Fx32Small {
    pub x: Fx32,
}

impl Fx32Small {
    /// The tag's meaning: magnitude strictly below two units.
    pub open spec fn inv(self) -> bool {
        iabs(self.x.x as int) < 131072
    }

    /// The raw representation beneath the tag.
    pub open spec fn v(self) -> int {
        self.x.x as int
    }

    /// Multiply a bounded scalar by an ordinary one, trading the
    /// bounded side's low bits for headroom on the other operand.
    pub fn mul_by_big(self, o: Fx32) -> (r: Fx32)
        requires
            self.inv(),
            iabs(o.x as int) < 0x4000_0000,
        ensures
            r.x == tdiv(o.x as int, 16384) * tdiv(self.x.x as int, 4),
    {
        let a = o.x / 16384;
        let b = self.x.x / 4;
        proof {
            lemma_tdiv_le(o.x as int, 16384, 65535);
            lemma_tdiv_le(self.x.x as int, 4, 32767);
            assert(a as int * (b as int) <= 65535 * 32767 && a as int * (b as int) >= -(65535
                * 32767)) by (nonlinear_arith)
                requires
                    iabs(a as int) <= 65535,
                    iabs(b as int) <= 32767,
            ;
        }
        Fx32 { x: a * b }
    }
}

/// Scaling back by the unit leaves a remainder below one raw step.
pub proof fn lemma_tdiv_near(a: int)
    ensures
        iabs(65536 * tdiv(a, 65536) - a) <= 65535,
{
    lemma_tdiv_facts(a, 65536);
    let q = iabs(tdiv(a, 65536));
    if a >= 0 {
        assert(tdiv(a, 65536) == q);
        assert(iabs(65536 * q - a) <= 65535) by (nonlinear_arith)
            requires
                q * 65536 <= a,
                a < (q + 1) * 65536,
        ;
    } else {
        assert(tdiv(a, 65536) == -q);
        assert(iabs(65536 * (-q) - a) <= 65535) by (nonlinear_arith)
            requires
                q * 65536 <= -a,
                -a < (q + 1) * 65536,
        ;
    }
}

/// Scaled squares are ordered as the magnitudes are.
pub proof fn lemma_fxmul_sq_mono(a: int, b: int)
    requires
        iabs(a) <= iabs(b),
    ensures
        fxmul(a, a) <= fxmul(b, b),
{
    assert(a * a >= 0 && b * b >= 0 && a * a <= b * b) by (nonlinear_arith)
        requires
            iabs(a) <= iabs(b),
    ;
    assert(tdiv(a * a, 65536) == (a * a) / 65536);
    assert(tdiv(b * b, 65536) == (b * b) / 65536);
    vstd::arithmetic::div_mod::lemma_div_is_ordered(a * a, b * b, 65536);
}

/// Law: adding a scalar and then subtracting it again is exact; no
/// rounding occurs on the way.
pub proof fn lemma_add_sub_cancel(a: int, b: int)
    ensures
        (a + b) - b == a,
{
}

/// Law: the widened multiply by the unit scalar is exact.
pub proof fn lemma_mul_one_exact(a: int)
    ensures
        fxmul(a, DENOMINATOR as int) == a,
{
    assert(iabs(a * 65536) == iabs(a) * 65536) by (nonlinear_arith);
    assert(iabs(a) * 65536 / 65536 == iabs(a)) by {
        vstd::arithmetic::div_mod::lemma_div_by_multiple(iabs(a), 65536);
    }
    assert(fxmul(a, 65536) == tdiv(a * 65536, 65536));
    if a < 0 {
        assert(a * 65536 < 0) by (nonlinear_arith)
            requires
                a < 0,
        ;
    } else {
        assert(a * 65536 >= 0) by (nonlinear_arith)
            requires
                a >= 0,
        ;
    }
}

} // verus!

