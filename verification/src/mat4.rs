use vstd::prelude::*;
use crate::fx::{Fx, SCALE, fadd, fsub, fmul, fdiv};
use crate::trig::{sin_of, cos_of, fx_sin, fx_cos};
use crate::vec3::{V3, V3g, vadd, vsub, vcross, vdot, vdir};
use crate::camera::{Camera, front_bits};

verus! {

/// The bit pattern of one half in Q31.32.
pub const HALF_BITS: i64 = 2147483648;

/// The bit pattern of two in Q31.32.
pub const TWO_FX_BITS: i64 = 8589934592;

/// The mathematical content of a matrix row: four raw bit patterns.
pub ghost struct V4g {
    pub x: int,
    pub y: int,
    pub z: int,
    pub w: int,
}

/// One row of a 4x4 fixed-point matrix.
#[derive(Clone, Copy, PartialEq, Eq, Structural, Debug)]
pub struct V4 {
    pub x: Fx,
    pub y: Fx,
    pub z: Fx,
    pub w: Fx,
}

impl View for V4 {
    type V = V4g;

    open spec fn view(&self) -> V4g {
        V4g { x: self.x@, y: self.y@, z: self.z@, w: self.w@ }
    }
}

/// The mathematical content of a 4x4 matrix, row by row.
pub ghost struct M4g {
    pub r0: V4g,
    pub r1: V4g,
    pub r2: V4g,
    pub r3: V4g,
}

/// A 4x4 fixed-point matrix, stored as four rows.
#[derive(Clone, Copy, PartialEq, Eq, Structural, Debug)]
pub struct M4 {
    pub r0: V4,
    pub r1: V4,
    pub r2: V4,
    pub r3: V4,
}

impl View for M4 {
    type V = M4g;

    open spec fn view(&self) -> M4g {
        M4g { r0: self.r0@, r1: self.r1@, r2: self.r2@, r3: self.r3@ }
    }
}

/// The four-component fixed-point dot product, summed left to right.
pub open spec fn dot4(a: V4g, b: V4g) -> int {
    fadd(fadd(fadd(fmul(a.x, b.x), fmul(a.y, b.y)), fmul(a.z, b.z)), fmul(a.w, b.w))
}

/// The `j`-th column of a row-major matrix, as a row vector.
pub open spec fn col_x(m: M4g) -> V4g {
    V4g { x: m.r0.x, y: m.r1.x, z: m.r2.x, w: m.r3.x }
}

pub open spec fn col_y(m: M4g) -> V4g {
    V4g { x: m.r0.y, y: m.r1.y, z: m.r2.y, w: m.r3.y }
}

pub open spec fn col_z(m: M4g) -> V4g {
    V4g { x: m.r0.z, y: m.r1.z, z: m.r2.z, w: m.r3.z }
}

pub open spec fn col_w(m: M4g) -> V4g {
    V4g { x: m.r0.w, y: m.r1.w, z: m.r2.w, w: m.r3.w }
}

/// One row of a matrix product: the row dotted with every column.
pub open spec fn mul_row(r: V4g, b: M4g) -> V4g {
    V4g {
        x: dot4(r, col_x(b)),
        y: dot4(r, col_y(b)),
        z: dot4(r, col_z(b)),
        w: dot4(r, col_w(b)),
    }
}

/// The fixed-point product of two 4x4 matrices.
pub open spec fn m4_mul(a: M4g, b: M4g) -> M4g {
    M4g {
        r0: mul_row(a.r0, b),
        r1: mul_row(a.r1, b),
        r2: mul_row(a.r2, b),
        r3: mul_row(a.r3, b),
    }
}

/// The clip-space correction: remaps the projection's depth range from
/// [-1, 1] to [0, 1] (Z scaled by one half, then translated by one half),
/// leaving X, Y and W alone.
pub open spec fn clip_bits() -> M4g {
    M4g {
        r0: V4g { x: SCALE as int, y: 0, z: 0, w: 0 },
        r1: V4g { x: 0, y: SCALE as int, z: 0, w: 0 },
        r2: V4g { x: 0, y: 0, z: HALF_BITS as int, w: HALF_BITS as int },
        r3: V4g { x: 0, y: 0, z: 0, w: SCALE as int },
    }
}

/// The cotangent of the half field of view, the projection's focal scale;
/// zero in the (out-of-domain) case that the sine's bits are not positive.
pub open spec fn cot_bits(h: int) -> int {
    if sin_of(h) > 0 {
        fdiv(cos_of(h), sin_of(h))
    } else {
        0
    }
}

/// The right-handed perspective projection with depth range [-1, 1]:
/// focal scales from the cotangent of half the field of view, and the
/// standard third row mapping eye-space depth into clip depth.
pub open spec fn persp_bits(aspect: int, fovy: int, znear: int, zfar: int) -> M4g {
    let t = cot_bits(fovy / 2);
    let dz = fsub(zfar, znear);
    M4g {
        r0: V4g { x: fdiv(t, aspect), y: 0, z: 0, w: 0 },
        r1: V4g { x: 0, y: t, z: 0, w: 0 },
        r2: V4g {
            x: 0,
            y: 0,
            z: fdiv(fsub(0, fadd(zfar, znear)), dz),
            w: fdiv(fsub(0, fmul(fmul(TWO_FX_BITS as int, zfar), znear)), dz),
        },
        r3: V4g { x: 0, y: 0, z: -(SCALE as int), w: 0 },
    }
}

/// The right-handed look-at view matrix: rows from the camera's side,
/// up and backward axes, with the translation folded in as negated dot
/// products with the eye position.
pub open spec fn look_at_bits(eye: V3g, center: V3g, up: V3g) -> M4g {
    let f = vdir(vsub(center, eye));
    let s = vdir(vcross(f, up));
    let u = vcross(s, f);
    M4g {
        r0: V4g { x: s.x, y: s.y, z: s.z, w: fsub(0, vdot(s, eye)) },
        r1: V4g { x: u.x, y: u.y, z: u.z, w: fsub(0, vdot(u, eye)) },
        r2: V4g { x: fsub(0, f.x), y: fsub(0, f.y), z: fsub(0, f.z), w: vdot(f, eye) },
        r3: V4g { x: 0, y: 0, z: 0, w: SCALE as int },
    }
}

/// The composed view-projection matrix the renderer uploads: the clip
/// correction times the projection, times the view, in that order.
pub open spec fn vp_bits(cam: Camera) -> M4g {
    let front = front_bits(cam.yaw@, cam.pitch@);
    let center = vadd(cam.position@, front);
    let view = look_at_bits(cam.position@, center, cam.world_up@);
    let proj = persp_bits(cam.aspect@, cam.fovy@, cam.znear@, cam.zfar@);
    m4_mul(m4_mul(clip_bits(), proj), view)
}

impl V4 {
    /// The row with the given components.
    pub fn new(x: Fx, y: Fx, z: Fx, w: Fx) -> (r: V4)
        ensures
            r@ == (V4g { x: x@, y: y@, z: z@, w: w@ }),
    {
        V4 { x, y, z, w }
    }

    /// The four-component fixed-point dot product.
    pub fn dot(self, o: V4) -> (r: Fx)
        ensures
            r@ == dot4(self@, o@),
    {
        self.x.times(o.x).plus(self.y.times(o.y)).plus(self.z.times(o.z)).plus(self.w.times(o.w))
    }
}

impl M4 {
    /// The matrix with the given rows.
    pub fn new(r0: V4, r1: V4, r2: V4, r3: V4) -> (r: M4)
        ensures
            r@ == (M4g { r0: r0@, r1: r1@, r2: r2@, r3: r3@ }),
    {
        M4 { r0, r1, r2, r3 }
    }

    /// The `x` column as a row vector.
    fn column_x(self) -> (r: V4)
        ensures
            r@ == col_x(self@),
    {
        V4 { x: self.r0.x, y: self.r1.x, z: self.r2.x, w: self.r3.x }
    }

    fn column_y(self) -> (r: V4)
        ensures
            r@ == col_y(self@),
    {
        V4 { x: self.r0.y, y: self.r1.y, z: self.r2.y, w: self.r3.y }
    }

    fn column_z(self) -> (r: V4)
        ensures
            r@ == col_z(self@),
    {
        V4 { x: self.r0.z, y: self.r1.z, z: self.r2.z, w: self.r3.z }
    }

    fn column_w(self) -> (r: V4)
        ensures
            r@ == col_w(self@),
    {
        V4 { x: self.r0.w, y: self.r1.w, z: self.r2.w, w: self.r3.w }
    }

    /// The fixed-point matrix product `self * o`.
    pub fn times(self, o: M4) -> (r: M4)
        ensures
            r@ == m4_mul(self@, o@),
    {
        let cx: V4 = o.column_x();
        let cy: V4 = o.column_y();
        let cz: V4 = o.column_z();
        let cw: V4 = o.column_w();
        M4 {
            r0: V4 {
                x: self.r0.dot(cx),
                y: self.r0.dot(cy),
                z: self.r0.dot(cz),
                w: self.r0.dot(cw),
            },
            r1: V4 {
                x: self.r1.dot(cx),
                y: self.r1.dot(cy),
                z: self.r1.dot(cz),
                w: self.r1.dot(cw),
            },
            r2: V4 {
                x: self.r2.dot(cx),
                y: self.r2.dot(cy),
                z: self.r2.dot(cz),
                w: self.r2.dot(cw),
            },
            r3: V4 {
                x: self.r3.dot(cx),
                y: self.r3.dot(cy),
                z: self.r3.dot(cz),
                w: self.r3.dot(cw),
            },
        }
    }
}

/// The constant clip-space correction matrix.
pub fn clip_correction() -> (r: M4)
    ensures
        r@ == clip_bits(),
{
    let zero: Fx = Fx::zero();
    let one: Fx = Fx { bits: SCALE };
    let half: Fx = Fx { bits: HALF_BITS };
    M4 {
        r0: V4 { x: one, y: zero, z: zero, w: zero },
        r1: V4 { x: zero, y: one, z: zero, w: zero },
        r2: V4 { x: zero, y: zero, z: half, w: half },
        r3: V4 { x: zero, y: zero, z: zero, w: one },
    }
}

/// The perspective projection matrix.
pub fn perspective(aspect: Fx, fovy: Fx, znear: Fx, zfar: Fx) -> (r: M4)
    requires
        0 < aspect@,
        0 < fovy@,
        0 < znear@ < zfar@,
    ensures
        r@ == persp_bits(aspect@, fovy@, znear@, zfar@),
{
    let h: Fx = Fx { bits: ((fovy.bits as u64) / 2) as i64 };
    let sh: Fx = fx_sin(h);
    let ch: Fx = fx_cos(h);
    let t: Fx = if sh.bits > 0 {
        ch.div_by(sh)
    } else {
        Fx::zero()
    };
    let zero: Fx = Fx::zero();
    let dz: Fx = zfar.minus(znear);
    let sum: Fx = zfar.plus(znear);
    let prod: Fx = Fx { bits: TWO_FX_BITS }.times(zfar).times(znear);
    M4 {
        r0: V4 { x: t.div_by(aspect), y: zero, z: zero, w: zero },
        r1: V4 { x: zero, y: t, z: zero, w: zero },
        r2: V4 { x: zero, y: zero, z: zero.minus(sum).div_by(dz), w: zero.minus(prod).div_by(dz) },
        r3: V4 { x: zero, y: zero, z: Fx { bits: -SCALE }, w: zero },
    }
}

/// The look-at view matrix.
pub fn look_at(eye: V3, center: V3, up: V3) -> (r: M4)
    ensures
        r@ == look_at_bits(eye@, center@, up@),
{
    let f: V3 = center.minus(eye).direction();
    let s: V3 = f.cross(up).direction();
    let u: V3 = s.cross(f);
    let zero: Fx = Fx::zero();
    M4 {
        r0: V4 { x: s.x, y: s.y, z: s.z, w: zero.minus(s.dot(eye)) },
        r1: V4 { x: u.x, y: u.y, z: u.z, w: zero.minus(u.dot(eye)) },
        r2: V4 {
            x: zero.minus(f.x),
            y: zero.minus(f.y),
            z: zero.minus(f.z),
            w: f.dot(eye),
        },
        r3: V4 { x: zero, y: zero, z: zero, w: Fx { bits: SCALE } },
    }
}

impl Camera {
    /// The view-projection matrix for the renderer to upload, rebuilt on
    /// every call: clip correction times perspective times look-at view,
    /// with the look target one unit ahead along the front vector.  The
    /// projection parameters must be in range (positive aspect and field
    /// of view, near plane in front of and closer than the far plane);
    /// out-of-range values are the caller's responsibility.
    pub fn get_view_projection_matrix(&self) -> (r: M4)
        requires
            0 < self.aspect@,
            0 < self.fovy@,
            0 < self.znear@ < self.zfar@,
        ensures
            r@ == vp_bits(*self),
    {
        let center: V3 = self.position.plus(self.get_front());
        let view: M4 = look_at(self.position, center, self.world_up);
        let projection: M4 = perspective(self.aspect, self.fovy, self.znear, self.zfar);
        let clip: M4 = clip_correction();
        clip.times(projection).times(view)
    }
}

} // verus!
