use flycam::camera::{
    Camera, CameraController, CameraEvent, LogicalKey, ScrollDelta, FOVY_MAX_BITS, FOVY_MIN_BITS,
    PITCH_LIMIT_BITS, TWO_PI_BITS,
};
use flycam::fx::Fx;
use flycam::vec3::V3;

const S: f64 = 4294967296.0;

fn fx(v: f64) -> Fx {
    Fx::from_bits((v * S).round() as i64)
}

fn fl(x: Fx) -> f64 {
    x.bits as f64 / S
}

fn v3(x: f64, y: f64, z: f64) -> V3 {
    V3::new(fx(x), fx(y), fx(z))
}

fn simple_camera() -> Camera {
    Camera::new(
        v3(0.0, 0.0, 0.0),
        v3(0.0, 1.0, 0.0),
        v3(1.0, 0.0, 0.0),
        fx(1.0),
        fx(45.0_f64.to_radians()),
        fx(0.1),
        fx(100.0),
    )
}

#[test]
fn initial_orientation_along_x() {
    let cam = simple_camera();
    assert!(fl(cam.yaw).abs() < 1e-4, "yaw {}", fl(cam.yaw));
    assert!(fl(cam.pitch).abs() < 1e-4, "pitch {}", fl(cam.pitch));
    let front = cam.get_front();
    assert!((fl(front.x) - 1.0).abs() < 1e-4);
    assert!(fl(front.y).abs() < 1e-4);
    assert!(fl(front.z).abs() < 1e-4);
}

#[test]
fn point_at_round_trips_direction() {
    let cases = [
        (1.0, 2.0, 3.0),
        (-1.0, 0.25, 0.5),
        (0.0, -3.0, 4.0),
        (-2.0, -2.0, -2.0),
        (10.0, 0.01, -0.5),
    ];
    for &(tx, ty, tz) in cases.iter() {
        let mut cam = simple_camera();
        cam.point_at(v3(tx, ty, tz));
        let front = cam.get_front();
        let (fx_, fy, fz) = (fl(front.x), fl(front.y), fl(front.z));
        let fn_ = (fx_ * fx_ + fy * fy + fz * fz).sqrt();
        let dn = (tx * tx + ty * ty + tz * tz).sqrt();
        assert!((fx_ / fn_ - tx / dn).abs() < 1e-3, "x for {:?}", (tx, ty, tz));
        assert!((fy / fn_ - ty / dn).abs() < 1e-3, "y for {:?}", (tx, ty, tz));
        assert!((fz / fn_ - tz / dn).abs() < 1e-3, "z for {:?}", (tx, ty, tz));
    }
}

#[test]
fn point_at_recovers_known_angles() {
    let mut cam = simple_camera();
    let yaw = 0.5_f64;
    let pitch = -0.3_f64;
    let dir = (yaw.cos() * pitch.cos(), pitch.sin(), yaw.sin() * pitch.cos());
    cam.point_at(v3(dir.0, dir.1, dir.2));
    assert!((fl(cam.yaw) - yaw).abs() < 1e-4, "yaw {}", fl(cam.yaw));
    assert!((fl(cam.pitch) - pitch).abs() < 1e-4, "pitch {}", fl(cam.pitch));
}

#[test]
fn forward_key_moves_one_unit_along_front() {
    let mut cam = simple_camera();
    let mut ctrl = CameraController::new(fx(1.0), fx(1.0), fx(1.0));
    let consumed = ctrl.process_event(
        &CameraEvent::Key { key: Some(LogicalKey::Forward), pressed: true },
    );
    assert!(consumed);
    ctrl.update_camera(&mut cam);
    assert!((fl(cam.position.x) - 1.0).abs() < 1e-3);
    assert!(fl(cam.position.y).abs() < 1e-3);
    assert!(fl(cam.position.z).abs() < 1e-3);
}

#[test]
fn diagonal_move_is_normalized() {
    let mut cam = simple_camera();
    let mut ctrl = CameraController::new(fx(1.0), fx(1.0), fx(1.0));
    ctrl.process_event(&CameraEvent::Key { key: Some(LogicalKey::Forward), pressed: true });
    ctrl.process_event(&CameraEvent::Key { key: Some(LogicalKey::Right), pressed: true });
    ctrl.update_camera(&mut cam);
    let (px, py, pz) = (fl(cam.position.x), fl(cam.position.y), fl(cam.position.z));
    let mag = (px * px + py * py + pz * pz).sqrt();
    assert!((mag - 1.0).abs() < 1e-3, "diagonal magnitude {}", mag);
    assert!((px - pz).abs() < 1e-3, "expected equal x and z, got {} {}", px, pz);
}

#[test]
fn ascend_is_not_normalized_with_horizontal() {
    let mut cam = simple_camera();
    let mut ctrl = CameraController::new(fx(1.0), fx(1.0), fx(1.0));
    ctrl.process_event(&CameraEvent::Key { key: Some(LogicalKey::Forward), pressed: true });
    ctrl.process_event(&CameraEvent::Key { key: Some(LogicalKey::Ascend), pressed: true });
    ctrl.update_camera(&mut cam);
    assert!((fl(cam.position.x) - 1.0).abs() < 1e-3);
    assert!((fl(cam.position.y) - 1.0).abs() < 1e-3);
}

#[test]
fn press_and_release_before_update_moves_nothing() {
    let mut cam = simple_camera();
    let before = cam.position;
    let mut ctrl = CameraController::new(fx(1.0), fx(1.0), fx(1.0));
    ctrl.process_event(&CameraEvent::Key { key: Some(LogicalKey::Forward), pressed: true });
    ctrl.process_event(&CameraEvent::Key { key: Some(LogicalKey::Forward), pressed: false });
    ctrl.update_camera(&mut cam);
    assert_eq!(cam.position.x.bits, before.x.bits);
    assert_eq!(cam.position.y.bits, before.y.bits);
    assert_eq!(cam.position.z.bits, before.z.bits);
}

#[test]
fn pitch_clamps_under_saturating_mouse_input() {
    let mut cam = simple_camera();
    let mut ctrl = CameraController::new(fx(1.0), fx(1.0), fx(1.0));
    // Moving the mouse far down pitches the view up to the +89 degree stop.
    ctrl.process_event(&CameraEvent::MouseMotion { dx: fx(0.0), dy: fx(-50.0) });
    ctrl.update_camera(&mut cam);
    assert_eq!(cam.pitch.bits, PITCH_LIMIT_BITS);
    // More of the same input stays exactly at the stop.
    ctrl.process_event(&CameraEvent::MouseMotion { dx: fx(0.0), dy: fx(-5.0) });
    ctrl.update_camera(&mut cam);
    assert_eq!(cam.pitch.bits, PITCH_LIMIT_BITS);
    // A huge swing the other way lands on the -89 degree stop.
    ctrl.process_event(&CameraEvent::MouseMotion { dx: fx(0.0), dy: fx(50.0) });
    ctrl.update_camera(&mut cam);
    assert_eq!(cam.pitch.bits, -PITCH_LIMIT_BITS);
}

#[test]
fn fovy_clamps_in_both_directions() {
    let mut cam = simple_camera();
    let mut ctrl = CameraController::new(fx(1.0), fx(1.0), fx(1.0));
    ctrl.process_event(&CameraEvent::MouseWheel {
        delta: ScrollDelta::Lines { dx: fx(0.0), dy: fx(10.0) },
    });
    ctrl.update_camera(&mut cam);
    assert_eq!(cam.fovy.bits, FOVY_MAX_BITS);
    ctrl.process_event(&CameraEvent::MouseWheel {
        delta: ScrollDelta::Lines { dx: fx(0.0), dy: fx(-20.0) },
    });
    ctrl.update_camera(&mut cam);
    assert_eq!(cam.fovy.bits, FOVY_MIN_BITS);
}

#[test]
fn yaw_wraps_into_one_revolution() {
    let two_pi = TWO_PI_BITS as f64 / S;
    // Negative accumulated mouse X.
    let mut cam = simple_camera();
    let mut ctrl = CameraController::new(fx(1.0), fx(1.0), fx(1.0));
    ctrl.process_event(&CameraEvent::MouseMotion { dx: fx(-1.0), dy: fx(0.0) });
    ctrl.update_camera(&mut cam);
    assert!(cam.yaw.bits >= 0 && cam.yaw.bits < TWO_PI_BITS);
    assert!((fl(cam.yaw) - (two_pi - 1.0)).abs() < 1e-3);
    // Positive accumulated mouse X beyond a full turn.
    let mut cam2 = simple_camera();
    ctrl.process_event(&CameraEvent::MouseMotion { dx: fx(7.0), dy: fx(0.0) });
    ctrl.update_camera(&mut cam2);
    assert!(cam2.yaw.bits >= 0 && cam2.yaw.bits < TWO_PI_BITS);
    assert!((fl(cam2.yaw) - (7.0 - two_pi)).abs() < 1e-3);
}

#[test]
fn accumulators_drain_after_update() {
    let mut cam = simple_camera();
    let mut ctrl = CameraController::new(fx(1.0), fx(1.0), fx(1.0));
    ctrl.process_event(&CameraEvent::MouseMotion { dx: fx(0.25), dy: fx(0.125) });
    ctrl.process_event(&CameraEvent::MouseMotion { dx: fx(0.25), dy: fx(0.125) });
    ctrl.process_event(&CameraEvent::MouseWheel {
        delta: ScrollDelta::Lines { dx: fx(0.0), dy: fx(0.1) },
    });
    ctrl.update_camera(&mut cam);
    let (yaw, pitch, fovy) = (cam.yaw.bits, cam.pitch.bits, cam.fovy.bits);
    // A second frame with no new events must see empty accumulators:
    // nothing changes, down to the last bit.
    ctrl.update_camera(&mut cam);
    assert_eq!(cam.yaw.bits, yaw);
    assert_eq!(cam.pitch.bits, pitch);
    assert_eq!(cam.fovy.bits, fovy);
    assert_eq!(cam.position.x.bits, 0);
}

#[test]
fn two_motion_events_accumulate_additively() {
    let mut cam_two = simple_camera();
    let mut ctrl = CameraController::new(fx(1.0), fx(1.0), fx(1.0));
    ctrl.process_event(&CameraEvent::MouseMotion { dx: fx(0.25), dy: fx(0.0) });
    ctrl.process_event(&CameraEvent::MouseMotion { dx: fx(0.5), dy: fx(0.0) });
    ctrl.update_camera(&mut cam_two);
    let mut cam_one = simple_camera();
    let mut ctrl_one = CameraController::new(fx(1.0), fx(1.0), fx(1.0));
    ctrl_one.process_event(&CameraEvent::MouseMotion { dx: fx(0.75), dy: fx(0.0) });
    ctrl_one.update_camera(&mut cam_one);
    assert_eq!(cam_two.yaw.bits, cam_one.yaw.bits);
}

#[test]
fn unrecognized_events_are_not_consumed() {
    let mut cam = simple_camera();
    let before_yaw = cam.yaw.bits;
    let mut ctrl = CameraController::new(fx(1.0), fx(1.0), fx(1.0));
    assert!(!ctrl.process_event(&CameraEvent::Key { key: None, pressed: true }));
    assert!(!ctrl.process_event(&CameraEvent::MouseWheel {
        delta: ScrollDelta::Pixels { dx: fx(3.0), dy: fx(4.0) },
    }));
    assert!(!ctrl.process_event(&CameraEvent::Other));
    ctrl.update_camera(&mut cam);
    assert_eq!(cam.yaw.bits, before_yaw);
    assert_eq!(cam.fovy.bits, fx(45.0_f64.to_radians()).bits);
    assert_eq!(cam.position.x.bits, 0);
    assert_eq!(cam.position.y.bits, 0);
    assert_eq!(cam.position.z.bits, 0);
}

#[test]
fn all_six_bindings_drive_their_axes() {
    // Descend and Backward together: move (-1, -1, 0) before normalization
    // split: horizontal part (-1,0,0) is unit, vertical adds (0,-1,0).
    let mut cam = simple_camera();
    let mut ctrl = CameraController::new(fx(1.0), fx(1.0), fx(1.0));
    assert!(ctrl.process_event(&CameraEvent::Key { key: Some(LogicalKey::Backward), pressed: true }));
    assert!(ctrl.process_event(&CameraEvent::Key { key: Some(LogicalKey::Descend), pressed: true }));
    ctrl.update_camera(&mut cam);
    assert!((fl(cam.position.x) + 1.0).abs() < 1e-3);
    assert!((fl(cam.position.y) + 1.0).abs() < 1e-3);
    // Left alone mirrors Right.
    let mut cam2 = simple_camera();
    let mut ctrl2 = CameraController::new(fx(1.0), fx(1.0), fx(1.0));
    assert!(ctrl2.process_event(&CameraEvent::Key { key: Some(LogicalKey::Left), pressed: true }));
    ctrl2.update_camera(&mut cam2);
    assert!((fl(cam2.position.z) + 1.0).abs() < 1e-3);
}

#[test]
fn view_projection_matches_reference_matrix() {
    let cam = simple_camera();
    let m = cam.get_view_projection_matrix();
    let t = 1.0 / (22.5_f64.to_radians()).tan();
    let m22 = -(100.0 + 0.1) / (100.0 - 0.1);
    let m23 = -(2.0 * 100.0 * 0.1) / (100.0 - 0.1);
    // clip * projection * view for an eye at the origin looking along +X
    // with up +Y, row by row.
    let expect = [
        [0.0, 0.0, t, 0.0],
        [0.0, t, 0.0, 0.0],
        [0.5 - 0.5 * m22, 0.0, 0.0, 0.5 * m23],
        [1.0, 0.0, 0.0, 0.0],
    ];
    let rows = [m.r0, m.r1, m.r2, m.r3];
    for i in 0..4 {
        let got = [fl(rows[i].x), fl(rows[i].y), fl(rows[i].z), fl(rows[i].w)];
        for j in 0..4 {
            assert!(
                (got[j] - expect[i][j]).abs() < 2e-3,
                "entry ({}, {}): got {}, expected {}",
                i,
                j,
                got[j],
                expect[i][j]
            );
        }
    }
}

#[test]
fn vector_length_and_normalization_are_exact() {
    let v = v3(3.0, 4.0, 0.0);
    assert_eq!(v.length_bits(), 5 * (S as u128));
    let n = v.normalized();
    // 0.6 and 0.8 rounded toward minus infinity in Q31.32.
    assert_eq!(n.x.bits, 2576980377);
    assert_eq!(n.y.bits, 3435973836);
    assert_eq!(n.z.bits, 0);
}

#[test]
fn fixed_point_arithmetic_saturates_and_wraps() {
    let max = Fx::from_bits(i64::MAX);
    assert_eq!(max.plus(Fx::from_bits(1)).bits, i64::MAX);
    assert_eq!(Fx::from_bits(i64::MIN).minus(Fx::from_bits(1)).bits, i64::MIN);
    assert_eq!(fx(1.5).times(fx(2.0)).bits, fx(3.0).bits);
    assert_eq!(fx(-1.0).wrapped(fx(10.0)).bits, fx(9.0).bits);
    assert_eq!(fx(5.0).clamped(fx(-1.0), fx(1.0)).bits, fx(1.0).bits);
    assert_eq!(fx(-5.0).clamped(fx(-1.0), fx(1.0)).bits, fx(-1.0).bits);
}
