use vstd::prelude::*;
use crate::fx::{Fx, fadd, fsub, fmul, fclamp, fwrap, isqrt_rec};
use crate::trig::{sin_of, cos_of, asin_of, atan2_bits, fx_sin, fx_cos, fx_asin, atan2_fx};
use crate::vec3::{V3, V3g, vadd, vsub, vscale, vcross, vnorm, vlen_bits, norm2_wide};

verus! {

/// The bit pattern of two pi in Q31.32: the period the yaw is wrapped to.
pub const TWO_PI_BITS: i64 = 26986075409;

/// The bit pattern of 89 degrees in radians, Q31.32: the pitch clamp.
pub const PITCH_LIMIT_BITS: i64 = 6671557532;

/// The bit pattern of 1 degree in radians, Q31.32: the low fovy clamp.
pub const FOVY_MIN_BITS: i64 = 74961321;

/// The bit pattern of 120 degrees in radians, Q31.32: the high fovy clamp.
pub const FOVY_MAX_BITS: i64 = 8995358470;

/// The bit pattern of 0.001 in Q31.32: the length below which the
/// horizontal move direction is left unnormalized.
pub const MOVE_EPS_BITS: i64 = 4294967;

/// The eye position and orientation plus the projection frustum.  The
/// look direction is derived from `yaw` and `pitch` alone; no redundant
/// direction vector is stored.
pub struct Camera {
    pub position: V3,
    pub world_up: V3,
    pub yaw: Fx,
    pub pitch: Fx,
    pub aspect: Fx,
    pub fovy: Fx,
    pub znear: Fx,
    pub zfar: Fx,
}

/// One of the six logical movement bindings.  Which physical key maps to
/// which binding is the embedding application's concern.
#[derive(Clone, Copy, Debug)]
pub enum LogicalKey {
    Forward,
    Backward,
    Left,
    Right,
    Ascend,
    Descend,
}

/// The payload of a mouse-wheel event: either a line delta or a pixel
/// delta.  Only line deltas are consumed.
#[derive(Clone, Copy, Debug)]
pub enum ScrollDelta {
    Lines { dx: Fx, dy: Fx },
    Pixels { dx: Fx, dy: Fx },
}

/// One raw input event, after the windowing layer has mapped physical
/// keys to logical bindings.  A key event whose key could not be resolved
/// to a binding carries `None` and is not consumed.
#[derive(Clone, Copy, Debug)]
pub enum CameraEvent {
    Key { key: Option<LogicalKey>, pressed: bool },
    MouseMotion { dx: Fx, dy: Fx },
    MouseWheel { delta: ScrollDelta },
    Other,
}

/// The mathematical content of a controller: tuning constants, held-key
/// flags, and the not-yet-integrated input accumulators, as raw fixed
/// point bit values.
pub ghost struct CtrlV {
    pub move_speed: int,
    pub mouse_sensitivity: int,
    pub zoom_sensitivity: int,
    pub forward: bool,
    pub backward: bool,
    pub left: bool,
    pub right: bool,
    pub up: bool,
    pub down: bool,
    pub mouse_dx: int,
    pub mouse_dy: int,
    pub scroll: int,
}

/// Accumulated, not-yet-applied input for the current frame.
pub struct CameraController {
    move_speed: Fx,
    mouse_sensitivity: Fx,
    zoom_sensitivity: Fx,
    is_forward_pressed: bool,
    is_backward_pressed: bool,
    is_left_pressed: bool,
    is_right_pressed: bool,
    is_up_pressed: bool,
    is_down_pressed: bool,
    mouse_delta: (Fx, Fx),
    mouse_scroll_delta: Fx,
}

impl View for CameraController {
    type V = CtrlV;

    closed spec fn view(&self) -> CtrlV {
        CtrlV {
            move_speed: self.move_speed@,
            mouse_sensitivity: self.mouse_sensitivity@,
            zoom_sensitivity: self.zoom_sensitivity@,
            forward: self.is_forward_pressed,
            backward: self.is_backward_pressed,
            left: self.is_left_pressed,
            right: self.is_right_pressed,
            up: self.is_up_pressed,
            down: self.is_down_pressed,
            mouse_dx: self.mouse_delta.0@,
            mouse_dy: self.mouse_delta.1@,
            scroll: self.mouse_scroll_delta@,
        }
    }
}

/// What one input event does to a controller, and whether it is consumed:
/// a held-key flag follows the last press/release state seen, mouse and
/// wheel deltas accumulate, and everything else is ignored.
pub open spec fn step(c: CtrlV, e: CameraEvent) -> (CtrlV, bool) {
    match e {
        CameraEvent::Key { key, pressed } => match key {
            Some(LogicalKey::Forward) => (CtrlV { forward: pressed, ..c }, true),
            Some(LogicalKey::Backward) => (CtrlV { backward: pressed, ..c }, true),
            Some(LogicalKey::Left) => (CtrlV { left: pressed, ..c }, true),
            Some(LogicalKey::Right) => (CtrlV { right: pressed, ..c }, true),
            Some(LogicalKey::Ascend) => (CtrlV { up: pressed, ..c }, true),
            Some(LogicalKey::Descend) => (CtrlV { down: pressed, ..c }, true),
            None => (c, false),
        },
        CameraEvent::MouseMotion { dx, dy } => (
            CtrlV { mouse_dx: fadd(c.mouse_dx, dx@), mouse_dy: fadd(c.mouse_dy, dy@), ..c },
            true,
        ),
        CameraEvent::MouseWheel { delta } => match delta {
            ScrollDelta::Lines { dx: _, dy } => (CtrlV { scroll: fadd(c.scroll, dy@), ..c }, true),
            ScrollDelta::Pixels { dx: _, dy: _ } => (c, false),
        },
        CameraEvent::Other => (c, false),
    }
}

/// The zero vector.
pub open spec fn zero3() -> V3g {
    V3g { x: 0, y: 0, z: 0 }
}

/// The front vector derived from yaw and pitch: the fixed
/// spherical-to-Cartesian convention (yaw rotates in the X-Z plane, pitch
/// tilts toward +Y).
pub open spec fn front_bits(yaw: int, pitch: int) -> V3g {
    V3g {
        x: fmul(cos_of(yaw), cos_of(pitch)),
        y: sin_of(pitch),
        z: fmul(sin_of(yaw), cos_of(pitch)),
    }
}

/// The move direction one frame integrates: the held horizontal flags
/// accumulate front and right contributions, the horizontal sum is
/// normalized when longer than the epsilon, and only then are the
/// vertical contributions added, so vertical speed is not capped by the
/// normalization.
pub open spec fn move_dir_of(c: CtrlV, cam: Camera) -> V3g {
    let fwd = front_bits(cam.yaw@, cam.pitch@);
    let up = cam.world_up@;
    let rgt = vcross(fwd, up);
    let h1 = if c.forward {
        vadd(zero3(), fwd)
    } else {
        zero3()
    };
    let h2 = if c.backward {
        vsub(h1, fwd)
    } else {
        h1
    };
    let h3 = if c.right {
        vadd(h2, rgt)
    } else {
        h2
    };
    let h4 = if c.left {
        vsub(h3, rgt)
    } else {
        h3
    };
    let n = if vlen_bits(h4) > MOVE_EPS_BITS as int {
        vnorm(h4)
    } else {
        h4
    };
    let v1 = if c.up {
        vadd(n, up)
    } else {
        n
    };
    if c.down {
        vsub(v1, up)
    } else {
        v1
    }
}

impl Camera {
    /// A camera at `position` whose initial orientation looks at `target`,
    /// with the given vertical reference axis and projection parameters.
    pub fn new(position: V3, world_up: V3, target: V3, aspect: Fx, fovy: Fx, znear: Fx, zfar: Fx)
        -> (r: Camera)
        requires
            position@ != target@,
        ensures
            r.position == position,
            r.world_up == world_up,
            r.aspect == aspect,
            r.fovy == fovy,
            r.znear == znear,
            r.zfar == zfar,
            r.yaw@ == atan2_bits(
                vnorm(vsub(target@, position@)).z,
                vnorm(vsub(target@, position@)).x,
            ),
            r.pitch@ == asin_of(vnorm(vsub(target@, position@)).y),
    {
        let mut res = Camera {
            position,
            world_up,
            yaw: Fx::zero(),
            pitch: Fx::zero(),
            aspect,
            fovy,
            znear,
            zfar,
        };
        res.point_at(target);
        res
    }

    /// Recomputes yaw and pitch so the front vector points from the
    /// camera's position toward `target`, independent of the current
    /// orientation.
    pub fn point_at(&mut self, target: V3)
        requires
            old(self).position@ != target@,
        ensures
            final(self).yaw@ == atan2_bits(
                vnorm(vsub(target@, old(self).position@)).z,
                vnorm(vsub(target@, old(self).position@)).x,
            ),
            final(self).pitch@ == asin_of(vnorm(vsub(target@, old(self).position@)).y),
            final(self).position == old(self).position,
            final(self).world_up == old(self).world_up,
            final(self).aspect == old(self).aspect,
            final(self).fovy == old(self).fovy,
            final(self).znear == old(self).znear,
            final(self).zfar == old(self).zfar,
    {
        let diff: V3 = target.minus(self.position);
        proof {
            lemma_nonzero_diff(target@, self.position@);
        }
        let dir: V3 = diff.normalized();
        self.yaw = atan2_fx(dir.z, dir.x);
        self.pitch = fx_asin(dir.y);
    }

    /// The unit-ish front vector, a pure function of yaw and pitch.
    pub fn get_front(&self) -> (r: V3)
        ensures
            r@ == front_bits(self.yaw@, self.pitch@),
    {
        let cy: Fx = fx_cos(self.yaw);
        let sy: Fx = fx_sin(self.yaw);
        let cp: Fx = fx_cos(self.pitch);
        let sp: Fx = fx_sin(self.pitch);
        V3::new(cy.times(cp), sp, sy.times(cp))
    }
}

/// Two points that differ in some component leave a subtraction with a
/// positive squared norm: saturation never collapses a nonzero
/// difference to zero.
proof fn lemma_nonzero_diff(t: V3g, p: V3g)
    requires
        t != p,
    ensures
        norm2_wide(vsub(t, p)) > 0,
{
    let d = vsub(t, p);
    assert(d.x != 0 || d.y != 0 || d.z != 0);
    assert(d.x * d.x >= 0 && d.y * d.y >= 0 && d.z * d.z >= 0 && (d.x != 0 ==> d.x * d.x > 0) && (
    d.y != 0 ==> d.y * d.y > 0) && (d.z != 0 ==> d.z * d.z > 0)) by (nonlinear_arith);
}

impl CameraController {
    /// A controller with the given tuning constants, no key held, and
    /// empty accumulators.
    pub fn new(move_speed: Fx, mouse_sensitivity: Fx, zoom_sensitivity: Fx) -> (r:
        CameraController)
        ensures
            r@ == (CtrlV {
                move_speed: move_speed@,
                mouse_sensitivity: mouse_sensitivity@,
                zoom_sensitivity: zoom_sensitivity@,
                forward: false,
                backward: false,
                left: false,
                right: false,
                up: false,
                down: false,
                mouse_dx: 0,
                mouse_dy: 0,
                scroll: 0,
            }),
    {
        CameraController {
            move_speed,
            mouse_sensitivity,
            zoom_sensitivity,
            is_forward_pressed: false,
            is_backward_pressed: false,
            is_left_pressed: false,
            is_right_pressed: false,
            is_up_pressed: false,
            is_down_pressed: false,
            mouse_delta: (Fx::zero(), Fx::zero()),
            mouse_scroll_delta: Fx::zero(),
        }
    }

    /// Applies one raw input event to the flags and accumulators, exactly
    /// as the transition function `step` says, and reports whether the
    /// event was recognized.
    pub fn process_event(&mut self, event: &CameraEvent) -> (consumed: bool)
        ensures
            final(self)@ == step(old(self)@, *event).0,
            consumed == step(old(self)@, *event).1,
    {
        match event {
            CameraEvent::Key { key, pressed } => match key {
                Some(LogicalKey::Forward) => {
                    self.is_forward_pressed = *pressed;
                    true
                },
                Some(LogicalKey::Backward) => {
                    self.is_backward_pressed = *pressed;
                    true
                },
                Some(LogicalKey::Left) => {
                    self.is_left_pressed = *pressed;
                    true
                },
                Some(LogicalKey::Right) => {
                    self.is_right_pressed = *pressed;
                    true
                },
                Some(LogicalKey::Ascend) => {
                    self.is_up_pressed = *pressed;
                    true
                },
                Some(LogicalKey::Descend) => {
                    self.is_down_pressed = *pressed;
                    true
                },
                None => false,
            },
            CameraEvent::MouseMotion { dx, dy } => {
                self.mouse_delta = (self.mouse_delta.0.plus(*dx), self.mouse_delta.1.plus(*dy));
                true
            },
            CameraEvent::MouseWheel { delta } => match delta {
                ScrollDelta::Lines { dx: _, dy } => {
                    self.mouse_scroll_delta = self.mouse_scroll_delta.plus(*dy);
                    true
                },
                ScrollDelta::Pixels { .. } => false,
            },
            CameraEvent::Other => false,
        }
    }

    /// The per-frame integration step: moves the position along the
    /// accumulated move direction, turns yaw (wrapped into one full
    /// revolution) and pitch (clamped) by the mouse accumulator, zooms
    /// fovy (clamped) by the scroll accumulator, and drains both
    /// accumulators while leaving the held-key flags alone.
    pub fn update_camera(&mut self, camera: &mut Camera)
        ensures
            final(camera).position@ == vadd(
                old(camera).position@,
                vscale(old(self)@.move_speed, move_dir_of(old(self)@, *old(camera))),
            ),
            final(camera).yaw@ == fwrap(
                fadd(old(camera).yaw@, fmul(old(self)@.mouse_sensitivity, old(self)@.mouse_dx)),
                TWO_PI_BITS as int,
            ),
            0 <= final(camera).yaw@ < TWO_PI_BITS as int,
            final(camera).pitch@ == fclamp(
                fsub(old(camera).pitch@, fmul(old(self)@.mouse_sensitivity, old(self)@.mouse_dy)),
                -(PITCH_LIMIT_BITS as int),
                PITCH_LIMIT_BITS as int,
            ),
            -(PITCH_LIMIT_BITS as int) <= final(camera).pitch@ <= PITCH_LIMIT_BITS as int,
            final(camera).fovy@ == fclamp(
                fadd(old(camera).fovy@, fmul(old(self)@.zoom_sensitivity, old(self)@.scroll)),
                FOVY_MIN_BITS as int,
                FOVY_MAX_BITS as int,
            ),
            FOVY_MIN_BITS as int <= final(camera).fovy@ <= FOVY_MAX_BITS as int,
            final(camera).world_up == old(camera).world_up,
            final(camera).aspect == old(camera).aspect,
            final(camera).znear == old(camera).znear,
            final(camera).zfar == old(camera).zfar,
            final(self)@ == (CtrlV { mouse_dx: 0, mouse_dy: 0, scroll: 0, ..old(self)@ }),
    {
        let forward_dir: V3 = camera.get_front();
        let up_dir: V3 = camera.world_up;
        let right_dir: V3 = forward_dir.cross(up_dir);

        // Translation
        let mut move_dir: V3 = V3::zero();
        if self.is_forward_pressed {
            move_dir = move_dir.plus(forward_dir);
        }
        if self.is_backward_pressed {
            move_dir = move_dir.minus(forward_dir);
        }
        if self.is_right_pressed {
            move_dir = move_dir.plus(right_dir);
        }
        if self.is_left_pressed {
            move_dir = move_dir.minus(right_dir);
        }
        let len: u128 = move_dir.length_bits();
        if len > MOVE_EPS_BITS as u128 {
            proof {
                assert(isqrt_rec(0) == 0);
                assert(norm2_wide(move_dir@) >= 0) by (nonlinear_arith)
                    requires
                        norm2_wide(move_dir@) == move_dir@.x * move_dir@.x + move_dir@.y
                            * move_dir@.y + move_dir@.z * move_dir@.z,
                ;
                assert(norm2_wide(move_dir@) > 0) by {
                    if norm2_wide(move_dir@) == 0 {
                        assert(vlen_bits(move_dir@) == 0);
                    }
                }
            }
            move_dir = move_dir.normalized();
        }
        if self.is_up_pressed {
            move_dir = move_dir.plus(up_dir);
        }
        if self.is_down_pressed {
            move_dir = move_dir.minus(up_dir);
        }
        camera.position = camera.position.plus(move_dir.scaled_by(self.move_speed));

        // Rotation
        camera.yaw = camera.yaw.plus(self.mouse_sensitivity.times(self.mouse_delta.0)).wrapped(
            Fx { bits: TWO_PI_BITS },
        );
        camera.pitch = camera.pitch.minus(self.mouse_sensitivity.times(self.mouse_delta.1)).clamped(
            Fx { bits: -PITCH_LIMIT_BITS },
            Fx { bits: PITCH_LIMIT_BITS },
        );
        self.mouse_delta = (Fx::zero(), Fx::zero());

        // Zooming
        camera.fovy = camera.fovy.plus(self.zoom_sensitivity.times(self.mouse_scroll_delta))
            .clamped(Fx { bits: FOVY_MIN_BITS }, Fx { bits: FOVY_MAX_BITS });
        self.mouse_scroll_delta = Fx::zero();
    }
}

/// Law: a press followed by a release of the same binding, delivered
/// before one integration, leaves the controller exactly as a lone
/// release would: the last state wins, events are not counted.
pub proof fn lemma_press_release_cancels(c: CtrlV, key: LogicalKey)
    ensures
        step(
            step(c, CameraEvent::Key { key: Some(key), pressed: true }).0,
            CameraEvent::Key { key: Some(key), pressed: false },
        ).0 == step(c, CameraEvent::Key { key: Some(key), pressed: false }).0,
{
}

/// Law: with no movement flag held, one frame's integration moves the
/// position nowhere: the move direction is the zero vector, and adding
/// its scaling to the position returns the position unchanged.
pub proof fn lemma_no_flags_no_move(c: CtrlV, cam: Camera)
    requires
        !c.forward,
        !c.backward,
        !c.left,
        !c.right,
        !c.up,
        !c.down,
    ensures
        move_dir_of(c, cam) == zero3(),
        vadd(cam.position@, vscale(c.move_speed, move_dir_of(c, cam))) == cam.position@,
{
    assert(isqrt_rec(0) == 0);
    assert(move_dir_of(c, cam) == zero3());
    assert(c.move_speed * 0 == 0) by (nonlinear_arith);
    assert(vscale(c.move_speed, zero3()) == zero3());
    assert(vadd(cam.position@, zero3()) == cam.position@);
}

} // verus!

