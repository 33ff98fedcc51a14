use vstd::prelude::*;
use crate::fx::{Fx, SCALE, fadd, fsub, fmul, fdiv, isqrt, isqrt_rec};
use crate::fx::{abs_mag, floor_div_sat, isqrt_u128};
use crate::fx::{lemma_isqrt_bracket, lemma_isqrt_monotone, lemma_fdiv_unit};

verus! {

/// The mathematical content of a vector: the raw bit patterns of its three
/// fixed-point components, as unbounded integers.
pub ghost struct V3g {
    pub x: int,
    pub y: int,
    pub z: int,
}

/// A 3D vector of fixed-point scalars, in world coordinates.
#[derive(Clone, Copy, PartialEq, Eq, Structural, Debug)]
pub struct V3 {
    pub x: Fx,
    pub y: Fx,
    pub z: Fx,
}

impl View for V3 {
    type V = V3g;

    open spec fn view(&self) -> V3g {
        V3g { x: self.x@, y: self.y@, z: self.z@ }
    }
}

/// Componentwise saturating addition.
pub open spec fn vadd(a: V3g, b: V3g) -> V3g {
    V3g { x: fadd(a.x, b.x), y: fadd(a.y, b.y), z: fadd(a.z, b.z) }
}

/// Componentwise saturating subtraction.
pub open spec fn vsub(a: V3g, b: V3g) -> V3g {
    V3g { x: fsub(a.x, b.x), y: fsub(a.y, b.y), z: fsub(a.z, b.z) }
}

/// Scaling of every component by the fixed-point scalar `s`.
pub open spec fn vscale(s: int, v: V3g) -> V3g {
    V3g { x: fmul(s, v.x), y: fmul(s, v.y), z: fmul(s, v.z) }
}

/// The right-handed cross product, component by component.
pub open spec fn vcross(a: V3g, b: V3g) -> V3g {
    V3g {
        x: fsub(fmul(a.y, b.z), fmul(a.z, b.y)),
        y: fsub(fmul(a.z, b.x), fmul(a.x, b.z)),
        z: fsub(fmul(a.x, b.y), fmul(a.y, b.x)),
    }
}

/// The exact squared Euclidean norm of the raw component bits, without any
/// rescaling or saturation (64 fractional bits).
pub open spec fn norm2_wide(v: V3g) -> int {
    v.x * v.x + v.y * v.y + v.z * v.z
}

/// The fixed-point bit pattern of the Euclidean length: because the squared
/// norm carries twice the fractional bits, its integer square root is again
/// a Q31.32 bit pattern.
pub open spec fn vlen_bits(v: V3g) -> int {
    isqrt(norm2_wide(v))
}

/// The normalized direction of `v`: every component divided by the length,
/// rounding toward minus infinity.
pub open spec fn vnorm(v: V3g) -> V3g
    recommends
        norm2_wide(v) > 0,
{
    let l = vlen_bits(v);
    V3g { x: fdiv(v.x, l), y: fdiv(v.y, l), z: fdiv(v.z, l) }
}

/// The fixed-point dot product, summed left to right.
pub open spec fn vdot(a: V3g, b: V3g) -> int {
    fadd(fadd(fmul(a.x, b.x), fmul(a.y, b.y)), fmul(a.z, b.z))
}

/// The normalized direction where the vector has one, and the vector
/// itself where it is zero (instead of a division by zero).
pub open spec fn vdir(v: V3g) -> V3g {
    if norm2_wide(v) > 0 {
        vnorm(v)
    } else {
        v
    }
}

/// The squared magnitude of one component, exactly, as claimed of the
/// `u128` computation below.
proof fn lemma_square_mag(a: int, m: int)
    requires
        m == (if a < 0 { -a } else { a }),
    ensures
        m * m == a * a,
        m * m >= 0,
{
    assert(m * m == a * a && m * m >= 0) by (nonlinear_arith)
        requires
            m == (if a < 0 { -a } else { a }),
    ;
}

impl V3 {
    /// The vector with the given components.
    pub fn new(x: Fx, y: Fx, z: Fx) -> (r: V3)
        ensures
            r@ == (V3g { x: x@, y: y@, z: z@ }),
    {
        V3 { x, y, z }
    }

    /// The zero vector.
    pub fn zero() -> (r: V3)
        ensures
            r@ == (V3g { x: 0, y: 0, z: 0 }),
    {
        V3 { x: Fx { bits: 0 }, y: Fx { bits: 0 }, z: Fx { bits: 0 } }
    }

    /// Componentwise saturating addition.
    pub fn plus(self, o: V3) -> (r: V3)
        ensures
            r@ == vadd(self@, o@),
    {
        V3 { x: self.x.plus(o.x), y: self.y.plus(o.y), z: self.z.plus(o.z) }
    }

    /// Componentwise saturating subtraction.
    pub fn minus(self, o: V3) -> (r: V3)
        ensures
            r@ == vsub(self@, o@),
    {
        V3 { x: self.x.minus(o.x), y: self.y.minus(o.y), z: self.z.minus(o.z) }
    }

    /// Every component scaled by the fixed-point scalar `s`.
    pub fn scaled_by(self, s: Fx) -> (r: V3)
        ensures
            r@ == vscale(s@, self@),
    {
        V3 { x: s.times(self.x), y: s.times(self.y), z: s.times(self.z) }
    }

    /// The right-handed cross product.
    pub fn cross(self, o: V3) -> (r: V3)
        ensures
            r@ == vcross(self@, o@),
    {
        V3 {
            x: self.y.times(o.z).minus(self.z.times(o.y)),
            y: self.z.times(o.x).minus(self.x.times(o.z)),
            z: self.x.times(o.y).minus(self.y.times(o.x)),
        }
    }

    /// The fixed-point dot product, summed left to right.
    pub fn dot(self, o: V3) -> (r: Fx)
        ensures
            r@ == vdot(self@, o@),
    {
        self.x.times(o.x).plus(self.y.times(o.y)).plus(self.z.times(o.z))
    }

    /// The normalized direction where the vector has one, and the vector
    /// itself where it is zero.
    pub fn direction(self) -> (r: V3)
        ensures
            r@ == vdir(self@),
    {
        let w: u128 = self.norm2();
        if w > 0 {
            self.normalized()
        } else {
            self
        }
    }

    /// The exact squared norm of the raw bits, in 64 fractional bits.
    pub fn norm2(self) -> (r: u128)
        ensures
            r as int == norm2_wide(self@),
    {
        let mx: u128 = abs_mag(self.x.bits);
        let my: u128 = abs_mag(self.y.bits);
        let mz: u128 = abs_mag(self.z.bits);
        proof {
            lemma_square_mag(self.x@, mx as int);
            lemma_square_mag(self.y@, my as int);
            lemma_square_mag(self.z@, mz as int);
            assert(mx * mx <= 0x8000000000000000u128 * 0x8000000000000000u128
                && my * my <= 0x8000000000000000u128 * 0x8000000000000000u128
                && mz * mz <= 0x8000000000000000u128 * 0x8000000000000000u128)
                by (nonlinear_arith)
                requires
                    mx <= 0x8000000000000000u128,
                    my <= 0x8000000000000000u128,
                    mz <= 0x8000000000000000u128,
            ;
        }
        mx * mx + my * my + mz * mz
    }

    /// The fixed-point bit pattern of the Euclidean length.  It can exceed
    /// the `i64` range (by at most a factor of the square root of three),
    /// so it is returned as raw unsigned bits.
    pub fn length_bits(self) -> (r: u128)
        ensures
            r as int == vlen_bits(self@),
    {
        let w: u128 = self.norm2();
        isqrt_u128(w)
    }

    /// The normalized direction: every component divided by the length.
    /// Each component of the result lies within one fixed-point unit of
    /// zero, as a direction cosine must.
    pub fn normalized(self) -> (r: V3)
        requires
            norm2_wide(self@) > 0,
        ensures
            r@ == vnorm(self@),
            -(SCALE as int) <= r@.x <= SCALE as int,
            -(SCALE as int) <= r@.y <= SCALE as int,
            -(SCALE as int) <= r@.z <= SCALE as int,
    {
        let w: u128 = self.norm2();
        let l: u128 = isqrt_u128(w);
        proof {
            lemma_isqrt_monotone(1, w as nat);
            assert(isqrt_rec(0) == 0);
            assert(isqrt_rec(1) == 1);
            lemma_isqrt_bracket(w as nat);
            assert(self@.x * self@.x <= norm2_wide(self@) && self@.y * self@.y <= norm2_wide(
                self@,
            ) && self@.z * self@.z <= norm2_wide(self@)) by (nonlinear_arith)
                requires
                    norm2_wide(self@) == self@.x * self@.x + self@.y * self@.y + self@.z
                        * self@.z,
            ;
        }
        let bx: i64 = Self::norm_comp(self.x, l, Ghost(self@));
        let by: i64 = Self::norm_comp(self.y, l, Ghost(self@));
        let bz: i64 = Self::norm_comp(self.z, l, Ghost(self@));
        V3 { x: Fx { bits: bx }, y: Fx { bits: by }, z: Fx { bits: bz } }
    }

    /// One component of the normalized direction: `a / l` in fixed point,
    /// where `l` is the integer square root of the squared norm and `a` is
    /// one of the components entering that norm.
    fn norm_comp(a: Fx, l: u128, v: Ghost<V3g>) -> (r: i64)
        requires
            l >= 1,
            l as int == vlen_bits(v@),
            a@ * a@ <= norm2_wide(v@),
        ensures
            r as int == fdiv(a@, vlen_bits(v@)),
            -(SCALE as int) <= r as int <= SCALE as int,
    {
        let ma: u128 = abs_mag(a.bits);
        proof {
            lemma_isqrt_bracket(norm2_wide(v@) as nat);
            lemma_square_mag(a@, ma as int);
            assert(ma as int <= l as int) by (nonlinear_arith)
                requires
                    (ma as int) * (ma as int) <= norm2_wide(v@),
                    norm2_wide(v@) < (l as int + 1) * (l as int + 1),
                    ma >= 0,
                    l >= 0,
            ;
            assert(ma * (SCALE as u128) <= 0x8000000000000000u128 * 0x100000000u128)
                by (nonlinear_arith)
                requires
                    ma <= 0x8000000000000000u128,
            ;
            lemma_fdiv_unit(a@, l as int);
            if a@ >= 0 {
                assert((ma as int) * (SCALE as int) == (a@) * (SCALE as int))
                    by (nonlinear_arith)
                    requires
                        ma as int == a@,
                ;
            } else {
                assert(-((ma as int) * (SCALE as int)) == (a@) * (SCALE as int))
                    by (nonlinear_arith)
                    requires
                        ma as int == -(a@),
                ;
            }
        }
        floor_div_sat(a.bits < 0, ma * (SCALE as u128), l)
    }
}

} // verus!
