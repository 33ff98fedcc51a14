use vstd::prelude::*;
use vstd::arithmetic::div_mod::lemma_fundamental_div_mod;
use vstd::arithmetic::div_mod::lemma_fundamental_div_mod_converse;
use vstd::arithmetic::div_mod::lemma_div_is_ordered;

verus! {

/// Number of fractional bits of the fixed-point format, as a scale factor:
/// a scalar with bit pattern `b` represents the real number `b / SCALE`.
pub const SCALE: i64 = 4294967296;

/// A signed fixed-point scalar with 32 fractional bits (Q31.32), stored as
/// its raw bit pattern.  All arithmetic on it saturates at the ends of the
/// `i64` range instead of wrapping.
#[derive(Clone, Copy, PartialEq, Eq, Structural, Debug)]
pub struct Fx {
    pub bits: i64,
}

impl View for Fx {
    type V = int;

    open spec fn view(&self) -> int {
        self.bits as int
    }
}

/// Saturation of a mathematical integer into the `i64` range.
pub open spec fn sat64(x: int) -> int {
    if x > i64::MAX {
        i64::MAX as int
    } else if x < i64::MIN {
        i64::MIN as int
    } else {
        x
    }
}

/// Saturating fixed-point addition, on raw bit values.
pub open spec fn fadd(a: int, b: int) -> int {
    sat64(a + b)
}

/// Saturating fixed-point subtraction, on raw bit values.
pub open spec fn fsub(a: int, b: int) -> int {
    sat64(a - b)
}

/// Saturating fixed-point multiplication, on raw bit values: the full
/// product is rescaled by `SCALE`, rounding toward minus infinity.
/// (For a positive divisor, Verus's Euclidean `/` is floor division.)
pub open spec fn fmul(a: int, b: int) -> int {
    sat64((a * b) / (SCALE as int))
}

/// Saturating fixed-point division by a positive divisor, on raw bit
/// values, rounding toward minus infinity.
pub open spec fn fdiv(a: int, b: int) -> int
    recommends
        b > 0,
{
    sat64((a * (SCALE as int)) / b)
}

/// Clamping into `[lo, hi]`, low bound first, as `f32::clamp` does.
pub open spec fn fclamp(v: int, lo: int, hi: int) -> int {
    if v < lo {
        lo
    } else if v > hi {
        hi
    } else {
        v
    }
}

/// The canonical non-negative remainder of `v` modulo a positive period
/// `p`: always in `[0, p)`, for negative `v` too.
pub open spec fn fwrap(v: int, p: int) -> int
    recommends
        p > 0,
{
    v % p
}

/// The magnitude of an `i64`, as a `u128`.
pub(crate) fn abs_mag(a: i64) -> (r: u128)
    ensures
        r as int == (if a < 0 { -(a as int) } else { a as int }),
{
    if a < 0 {
        (-(a as i128)) as u128
    } else {
        a as u128
    }
}

/// Floor division of the signed value `±mag` (sign given by `neg`) by the
/// positive divisor `d`, saturated into the `i64` range.
pub(crate) fn floor_div_sat(neg: bool, mag: u128, d: u128) -> (r: i64)
    requires
        d > 0,
    ensures
        r as int == sat64((if neg { -(mag as int) } else { mag as int }) / (d as int)),
{
    let q: u128 = mag / d;
    let rem: u128 = mag % d;
    proof {
        lemma_fundamental_div_mod(mag as int, d as int);
        assert(mag as int == (q as int) * (d as int) + (rem as int)) by (nonlinear_arith)
            requires
                mag as int == (d as int) * ((mag as int) / (d as int)) + (mag as int) % (
                d as int),
                q as int == (mag as int) / (d as int),
                rem as int == (mag as int) % (d as int),
        ;
    }
    if !neg {
        if q > i64::MAX as u128 {
            i64::MAX
        } else {
            q as i64
        }
    } else {
        proof {
            if rem != 0 {
                assert(q + 1 <= mag) by (nonlinear_arith)
                    requires
                        mag as int == (q as int) * (d as int) + (rem as int),
                        d >= 2 || rem == 0,
                        1 <= rem,
                        rem < d,
                ;
            }
        }
        let rm: u128 = if rem == 0 {
            q
        } else {
            q + 1
        };
        proof {
            if rem == 0 {
                assert(-(mag as int) == (-(q as int)) * (d as int) + 0)
                    by (nonlinear_arith)
                    requires
                        mag as int == (q as int) * (d as int) + (rem as int),
                        rem == 0,
                ;
                lemma_fundamental_div_mod_converse(
                    -(mag as int),
                    d as int,
                    -(q as int),
                    0,
                );
            } else {
                assert(-(mag as int) == (-(q as int) - 1) * (d as int) + ((d - rem) as int))
                    by (nonlinear_arith)
                    requires
                        mag as int == (q as int) * (d as int) + (rem as int),
                ;
                lemma_fundamental_div_mod_converse(
                    -(mag as int),
                    d as int,
                    -(q as int) - 1,
                    (d - rem) as int,
                );
            }
        }
        if rm > 9223372036854775808u128 {
            i64::MIN
        } else if rm == 9223372036854775808u128 {
            i64::MIN
        } else {
            -(rm as i64)
        }
    }
}

impl Fx {
    /// The scalar with the given raw bit pattern.
    pub fn from_bits(bits: i64) -> (r: Fx)
        ensures
            r@ == bits as int,
    {
        Fx { bits }
    }

    /// The scalar zero.
    pub fn zero() -> (r: Fx)
        ensures
            r@ == 0,
    {
        Fx { bits: 0 }
    }

    /// Saturating addition.
    pub fn plus(self, o: Fx) -> (r: Fx)
        ensures
            r@ == fadd(self@, o@),
    {
        let s: i128 = self.bits as i128 + o.bits as i128;
        if s > i64::MAX as i128 {
            Fx { bits: i64::MAX }
        } else if s < i64::MIN as i128 {
            Fx { bits: i64::MIN }
        } else {
            Fx { bits: s as i64 }
        }
    }

    /// Saturating subtraction.
    pub fn minus(self, o: Fx) -> (r: Fx)
        ensures
            r@ == fsub(self@, o@),
    {
        let s: i128 = self.bits as i128 - o.bits as i128;
        if s > i64::MAX as i128 {
            Fx { bits: i64::MAX }
        } else if s < i64::MIN as i128 {
            Fx { bits: i64::MIN }
        } else {
            Fx { bits: s as i64 }
        }
    }

    /// Saturating fixed-point multiplication.
    pub fn times(self, o: Fx) -> (r: Fx)
        ensures
            r@ == fmul(self@, o@),
    {
        let a: i64 = self.bits;
        let b: i64 = o.bits;
        let neg: bool = (a < 0) != (b < 0);
        let ma: u128 = abs_mag(a);
        let mb: u128 = abs_mag(b);
        proof {
            assert(ma * mb <= 0x8000000000000000u128 * 0x8000000000000000u128)
                by (nonlinear_arith)
                requires
                    ma <= 0x8000000000000000u128,
                    mb <= 0x8000000000000000u128,
            ;
        }
        let p: u128 = ma * mb;
        proof {
            if neg {
                assert((a as int) * (b as int) == -((ma as int) * (mb as int)))
                    by (nonlinear_arith)
                    requires
                        (a < 0) != (b < 0),
                        ma as int == (if a < 0 { -(a as int) } else { a as int }),
                        mb as int == (if b < 0 { -(b as int) } else { b as int }),
                ;
            } else {
                assert((a as int) * (b as int) == (ma as int) * (mb as int))
                    by (nonlinear_arith)
                    requires
                        (a < 0) == (b < 0),
                        ma as int == (if a < 0 { -(a as int) } else { a as int }),
                        mb as int == (if b < 0 { -(b as int) } else { b as int }),
                ;
            }
        }
        let bits: i64 = floor_div_sat(neg, p, SCALE as u128);
        Fx { bits }
    }

    /// Saturating fixed-point division by a positive divisor.
    pub fn div_by(self, o: Fx) -> (r: Fx)
        requires
            o@ > 0,
        ensures
            r@ == fdiv(self@, o@),
    {
        let a: i64 = self.bits;
        let neg: bool = a < 0;
        let ma: u128 = abs_mag(a);
        let n: u128 = ma * (SCALE as u128);
        proof {
            if neg {
                assert((a as int) * (SCALE as int) == -((ma as int) * (SCALE as int)))
                    by (nonlinear_arith)
                    requires
                        a < 0,
                        ma as int == -(a as int),
                ;
            }
        }
        let bits: i64 = floor_div_sat(neg, n, o.bits as u128);
        Fx { bits }
    }

    /// Clamping into `[lo, hi]`, low bound first.
    pub fn clamped(self, lo: Fx, hi: Fx) -> (r: Fx)
        ensures
            r@ == fclamp(self@, lo@, hi@),
    {
        if self.bits < lo.bits {
            lo
        } else if self.bits > hi.bits {
            hi
        } else {
            self
        }
    }

    /// The canonical non-negative remainder modulo a positive period:
    /// the result always lies in `[0, p)`.
    pub fn wrapped(self, p: Fx) -> (r: Fx)
        requires
            p@ > 0,
        ensures
            r@ == fwrap(self@, p@),
            0 <= r@ < p@,
    {
        let a: i64 = self.bits;
        let d: u128 = p.bits as u128;
        let ma: u128 = abs_mag(a);
        let r0: u128 = ma % d;
        proof {
            lemma_fundamental_div_mod(ma as int, d as int);
            assert(ma as int == ((ma / d) as int) * (d as int) + (r0 as int))
                by (nonlinear_arith)
                requires
                    ma as int == (d as int) * ((ma as int) / (d as int)) + (ma as int) % (
                    d as int),
                    (ma / d) as int == (ma as int) / (d as int),
                    r0 as int == (ma as int) % (d as int),
            ;
        }
        if a >= 0 {
            proof {
                lemma_fundamental_div_mod_converse(
                    a as int,
                    d as int,
                    (ma / d) as int,
                    r0 as int,
                );
            }
            Fx { bits: r0 as i64 }
        } else if r0 == 0 {
            proof {
                assert(a as int == (-((ma / d) as int)) * (d as int) + 0)
                    by (nonlinear_arith)
                    requires
                        a as int == -(ma as int),
                        ma as int == ((ma / d) as int) * (d as int) + (r0 as int),
                        r0 == 0,
                ;
                lemma_fundamental_div_mod_converse(
                    a as int,
                    d as int,
                    -((ma / d) as int),
                    0,
                );
            }
            Fx { bits: 0 }
        } else {
            proof {
                assert(a as int == (-((ma / d) as int) - 1) * (d as int) + ((d - r0) as int))
                    by (nonlinear_arith)
                    requires
                        a as int == -(ma as int),
                        ma as int == ((ma / d) as int) * (d as int) + (r0 as int),
                ;
                lemma_fundamental_div_mod_converse(
                    a as int,
                    d as int,
                    -((ma / d) as int) - 1,
                    (d - r0) as int,
                );
            }
            Fx { bits: (d - r0) as i64 }
        }
    }
}

/// `isqrt_rec(n)` is the integer square root of `n`: the largest `r` with
/// `r * r <= n`.
pub open spec fn isqrt_rec(n: nat) -> nat
    decreases n,
{
    if n == 0 {
        0
    } else {
        let r = isqrt_rec((n - 1) as nat);
        if (r + 1) * (r + 1) <= n {
            r + 1
        } else {
            r
        }
    }
}

/// The integer square root of a non-negative mathematical integer.
pub open spec fn isqrt(n: int) -> int
    recommends
        n >= 0,
{
    isqrt_rec(n as nat) as int
}

/// The defining bracketing of the integer square root:
/// `isqrt(n)^2 <= n < (isqrt(n) + 1)^2`.
pub proof fn lemma_isqrt_bracket(n: nat)
    ensures
        isqrt_rec(n) * isqrt_rec(n) <= n,
        n < (isqrt_rec(n) + 1) * (isqrt_rec(n) + 1),
    decreases n,
{
    if n == 0 {
        assert(isqrt_rec(n) == 0);
        assert(n < (isqrt_rec(n) + 1) * (isqrt_rec(n) + 1)) by (nonlinear_arith)
            requires
                n == 0,
                isqrt_rec(n) == 0,
        ;
    } else {
        lemma_isqrt_bracket((n - 1) as nat);
        let r = isqrt_rec((n - 1) as nat);
        assert(isqrt_rec(n) == (if (r + 1) * (r + 1) <= n {
            r + 1
        } else {
            r
        }));
        if (r + 1) * (r + 1) <= n {
            assert(isqrt_rec(n) == r + 1);
            assert(isqrt_rec(n) * isqrt_rec(n) <= n) by (nonlinear_arith)
                requires
                    isqrt_rec(n) == r + 1,
                    (r + 1) * (r + 1) <= n,
            ;
            assert(n < (isqrt_rec(n) + 1) * (isqrt_rec(n) + 1)) by (nonlinear_arith)
                requires
                    isqrt_rec(n) == r + 1,
                    n <= (r + 1) * (r + 1),
            ;
        } else {
            assert(isqrt_rec(n) == r);
            assert(isqrt_rec(n) * isqrt_rec(n) <= n) by (nonlinear_arith)
                requires
                    isqrt_rec(n) == r,
                    r * r <= n,
            ;
            assert(n < (isqrt_rec(n) + 1) * (isqrt_rec(n) + 1)) by (nonlinear_arith)
                requires
                    isqrt_rec(n) == r,
                    n < (r + 1) * (r + 1),
            ;
        }
    }
}

/// Any `r` bracketed by `r^2 <= n < (r+1)^2` is the integer square root.
pub proof fn lemma_isqrt_unique(n: nat, r: nat)
    requires
        r * r <= n,
        n < (r + 1) * (r + 1),
    ensures
        r == isqrt_rec(n),
{
    lemma_isqrt_bracket(n);
    let s = isqrt_rec(n);
    if r < s {
        assert(false) by (nonlinear_arith)
            requires
                r < s,
                s * s <= n,
                n < (r + 1) * (r + 1),
        ;
    }
    if s < r {
        assert(false) by (nonlinear_arith)
            requires
                s < r,
                r * r <= n,
                n < (s + 1) * (s + 1),
        ;
    }
}

/// The integer square root is monotone.
pub proof fn lemma_isqrt_monotone(m: nat, n: nat)
    requires
        m <= n,
    ensures
        isqrt_rec(m) <= isqrt_rec(n),
{
    lemma_isqrt_bracket(m);
    lemma_isqrt_bracket(n);
    let a = isqrt_rec(m);
    let b = isqrt_rec(n);
    if b < a {
        assert(false) by (nonlinear_arith)
            requires
                b < a,
                a * a <= m,
                m <= n,
                n < (b + 1) * (b + 1),
        ;
    }
}

/// A quotient whose numerator is no larger in magnitude than its positive
/// divisor stays within one fixed-point unit of zero.
pub proof fn lemma_fdiv_unit(a: int, d: int)
    requires
        d > 0,
        -d <= a <= d,
    ensures
        -(SCALE as int) <= fdiv(a, d) <= SCALE as int,
        fdiv(a, d) == (a * (SCALE as int)) / d,
{
    let s = SCALE as int;
    assert(a * s <= d * s && -(d * s) <= a * s) by (nonlinear_arith)
        requires
            -d <= a,
            a <= d,
            s > 0,
    ;
    lemma_div_is_ordered(a * s, d * s, d);
    lemma_div_is_ordered(-(d * s), a * s, d);
    assert(d * s == s * d + 0) by (nonlinear_arith);
    lemma_fundamental_div_mod_converse(d * s, d, s, 0);
    assert(-(d * s) == (-s) * d + 0) by (nonlinear_arith);
    lemma_fundamental_div_mod_converse(-(d * s), d, -s, 0);
}

/// The integer square root, computed by binary search.
pub fn isqrt_u128(n: u128) -> (r: u128)
    ensures
        r as int == isqrt(n as int),
        r * r <= n,
{
    let mut lo: u128 = 0;
    let mut hi: u128 = 18446744073709551616u128;
    proof {
        assert((18446744073709551616u128 as int) * (18446744073709551616u128 as int) > n as int)
            by (nonlinear_arith)
            requires
                n <= 0xffffffffffffffffffffffffffffffffu128,
        ;
    }
    while lo + 1 < hi
        invariant
            lo < hi,
            hi <= 18446744073709551616u128,
            (lo as int) * (lo as int) <= n as int,
            (n as int) < (hi as int) * (hi as int),
        decreases hi - lo,
    {
        let mid: u128 = lo + (hi - lo) / 2;
        proof {
            assert((mid as int) * (mid as int) <= 0xffffffffffffffffffffffffffffffffu128)
                by (nonlinear_arith)
                requires
                    mid < 18446744073709551616u128,
            ;
        }
        if mid * mid <= n {
            lo = mid;
        } else {
            hi = mid;
        }
    }
    proof {
        lemma_isqrt_unique(n as nat, lo as nat);
    }
    lo
}

} // verus!
