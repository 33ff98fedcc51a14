use vstd::prelude::*;
use crate::fx::{Fx, SCALE, fadd, fsub, fdiv, lemma_fdiv_unit};

verus! {

/// The bit pattern of pi in Q31.32, rounded to the nearest bit.
pub const PI_BITS: i64 = 13493037705;

/// The bit pattern of pi / 2 in Q31.32, rounded to the nearest bit.
pub const HALF_PI_BITS: i64 = 6746518852;

/// The sine of the fixed-point angle `a`, as the CORDIC routine of the
/// outside library computes it: a pure function of the argument's bits.
pub uninterp spec fn sin_of(a: int) -> int;

/// The cosine of the fixed-point angle `a`, as the CORDIC routine of the
/// outside library computes it: a pure function of the argument's bits.
pub uninterp spec fn cos_of(a: int) -> int;

/// The arc tangent of the fixed-point ratio `t`, for `t` within one unit
/// of zero, as the CORDIC routine of the outside library computes it.
pub uninterp spec fn atan_of(t: int) -> int;

/// The arc sine of the fixed-point value `t`, for `t` within one unit of
/// zero, as the CORDIC routine of the outside library computes it.
pub uninterp spec fn asin_of(t: int) -> int;

/// Relies on cordic::sin on fixed::types::I32F32: the result is a function
/// of the argument's bits alone, here named `sin_of`.
#[verifier::external_body]
pub(crate) fn fx_sin(a: Fx) -> (r: Fx)
    ensures
        r@ == sin_of(a@),
{
    Fx { bits: cordic::sin(fixed::types::I32F32::from_bits(a.bits)).to_bits() }
}

/// Relies on cordic::cos on fixed::types::I32F32: the result is a function
/// of the argument's bits alone, here named `cos_of`.
#[verifier::external_body]
pub(crate) fn fx_cos(a: Fx) -> (r: Fx)
    ensures
        r@ == cos_of(a@),
{
    Fx { bits: cordic::cos(fixed::types::I32F32::from_bits(a.bits)).to_bits() }
}

/// Relies on cordic::atan on fixed::types::I32F32: the result is a
/// function of the argument's bits alone, here named `atan_of`.  The
/// argument is kept within one unit of zero, where the routine's rotation
/// loop stays well inside the fixed-point range.
#[verifier::external_body]
pub(crate) fn fx_atan(t: Fx) -> (r: Fx)
    requires
        -(SCALE as int) <= t@ <= SCALE as int,
    ensures
        r@ == atan_of(t@),
{
    Fx { bits: cordic::atan(fixed::types::I32F32::from_bits(t.bits)).to_bits() }
}

/// Relies on cordic::asin on fixed::types::I32F32: the result is a
/// function of the argument's bits alone, here named `asin_of`.  The
/// argument is kept within one unit of zero, the domain of the arc sine.
#[verifier::external_body]
pub(crate) fn fx_asin(t: Fx) -> (r: Fx)
    requires
        -(SCALE as int) <= t@ <= SCALE as int,
    ensures
        r@ == asin_of(t@),
{
    Fx { bits: cordic::asin(fixed::types::I32F32::from_bits(t.bits)).to_bits() }
}

/// The quadrant-corrected arc tangent of the point `(xc, zc)`: the
/// standard octant reduction of `atan2` to arc tangents of ratios within
/// one unit of zero, with the convention that both components zero gives
/// zero.  Combinations with the (rounded) pi constants saturate like all
/// other fixed-point arithmetic.
pub open spec fn atan2_bits(zc: int, xc: int) -> int {
    let az = if zc < 0 {
        -zc
    } else {
        zc
    };
    let ax = if xc < 0 {
        -xc
    } else {
        xc
    };
    if az <= ax {
        if ax == 0 {
            0
        } else {
            let base = atan_of(fdiv(zc, ax));
            if xc >= 0 {
                base
            } else if zc >= 0 {
                fsub(PI_BITS as int, base)
            } else {
                fsub(-(PI_BITS as int), base)
            }
        }
    } else {
        let base = atan_of(fdiv(xc, az));
        if zc >= 0 {
            fsub(HALF_PI_BITS as int, base)
        } else {
            fadd(-(HALF_PI_BITS as int), base)
        }
    }
}

/// The quadrant-corrected arc tangent, computed by octant reduction so
/// that the trusted arc-tangent routine is only ever applied to a ratio
/// within one unit of zero.
pub fn atan2_fx(zc: Fx, xc: Fx) -> (r: Fx)
    requires
        -(SCALE as int) <= zc@ <= SCALE as int,
        -(SCALE as int) <= xc@ <= SCALE as int,
    ensures
        r@ == atan2_bits(zc@, xc@),
{
    let az: i64 = if zc.bits < 0 {
        -zc.bits
    } else {
        zc.bits
    };
    let ax: i64 = if xc.bits < 0 {
        -xc.bits
    } else {
        xc.bits
    };
    if az <= ax {
        if ax == 0 {
            Fx::zero()
        } else {
            proof {
                lemma_fdiv_unit(zc@, ax as int);
            }
            let t: Fx = zc.div_by(Fx { bits: ax });
            let base: Fx = fx_atan(t);
            if xc.bits >= 0 {
                base
            } else if zc.bits >= 0 {
                Fx { bits: PI_BITS }.minus(base)
            } else {
                Fx { bits: -PI_BITS }.minus(base)
            }
        }
    } else {
        proof {
            lemma_fdiv_unit(xc@, az as int);
        }
        let t: Fx = xc.div_by(Fx { bits: az });
        let base: Fx = fx_atan(t);
        if zc.bits >= 0 {
            Fx { bits: HALF_PI_BITS }.minus(base)
        } else {
            Fx { bits: -HALF_PI_BITS }.plus(base)
        }
    }
}

} // verus!
