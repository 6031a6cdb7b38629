//! Tests of camera input latching, per-tick updates, viewport mapping,
//! rotation and the game wrapper.

use raytracing_basic::camera::{Action, Camera};
use raytracing_basic::fixed::SCALE;
use raytracing_basic::game::Game;
use raytracing_basic::vec3::{vdot, Vec3};

// An exact fixed-point unit rotor from the 3-4-5 triangle:
// 0.6^2 + 0.8^2 == 1.
const ROT_COS: i64 = 600_000;
const ROT_SIN: i64 = 800_000;

#[test]
fn center_pixel_maps_to_viewport_origin() {
    let cam = Camera::new();
    let p = cam.canvas_to_viewport(320, 240, 640, 480);
    assert_eq!(p, Vec3::new(0, 0, SCALE));
    let q = cam.canvas_to_viewport(50, 40, 100, 80);
    assert_eq!(q, Vec3::new(0, 0, SCALE));
}

#[test]
fn corner_pixels_map_to_the_viewport_edges() {
    let cam = Camera::new();
    let top_left = cam.canvas_to_viewport(0, 0, 100, 100);
    assert_eq!(top_left, Vec3::new(-SCALE / 2, SCALE / 2, SCALE));
}

#[test]
fn rotation_preserves_squared_magnitude_for_an_exact_rotor() {
    let mut cam = Camera::new();
    cam.yaw_cos = ROT_COS;
    cam.yaw_sin = ROT_SIN;
    let v = Vec3::new(5 * SCALE, 0, 0);
    let mut rotated = v;
    cam.rotate_viewport(&mut rotated);
    assert_eq!(rotated, Vec3::new(3 * SCALE, 0, 4 * SCALE));
    assert_eq!(vdot(rotated, rotated), vdot(v, v));
}

#[test]
fn identity_rotor_leaves_points_alone() {
    let cam = Camera::new();
    let mut p = Vec3::new(123_000, -456_000, SCALE);
    cam.rotate_viewport(&mut p);
    assert_eq!(p, Vec3::new(123_000, -456_000, SCALE));
}

#[test]
fn input_latches_first_press_and_ignores_the_second() {
    let mut cam = Camera::new();
    assert_eq!(cam.action, Action::Idle);
    cam.handle_inputs(Action::MoveForward, true);
    assert_eq!(cam.action, Action::MoveForward);
    cam.handle_inputs(Action::LookLeft, true);
    assert_eq!(cam.action, Action::MoveForward);
    cam.handle_inputs(Action::LookLeft, false);
    assert_eq!(cam.action, Action::Idle);
    cam.handle_inputs(Action::LookRight, true);
    assert_eq!(cam.action, Action::LookRight);
}

#[test]
fn moving_forward_translates_along_the_facing_direction() {
    let mut cam = Camera::new();
    cam.handle_inputs(Action::MoveForward, true);
    // Half a second at two units per second: one unit forward.
    cam.update(SCALE / 2, SCALE, 0);
    assert_eq!(cam.pos, Vec3::new(0, 0, SCALE));
    assert_eq!(cam.dir, Vec3::new(0, 0, SCALE));
    cam.handle_inputs(Action::MoveForward, false);
    cam.handle_inputs(Action::MoveBackward, true);
    cam.update(SCALE / 2, SCALE, 0);
    assert_eq!(cam.pos, Vec3::new(0, 0, 0));
}

#[test]
fn looking_left_rotates_facing_rotor_and_angle_together() {
    let mut cam = Camera::new();
    cam.handle_inputs(Action::LookLeft, true);
    cam.update(SCALE / 4, ROT_COS, ROT_SIN);
    // Looking left covers a negative angle: dir (0,0,1) rotated by the
    // inverse rotor gives (sin, 0, cos), and the yaw angle decreases.
    assert_eq!(cam.dir, Vec3::new(ROT_SIN, 0, ROT_COS));
    assert_eq!(cam.yaw_cos, ROT_COS);
    assert_eq!(cam.yaw_sin, -ROT_SIN);
    assert_eq!(cam.angle, -(SCALE / 4));
}

#[test]
fn looking_right_rotates_the_other_way() {
    let mut cam = Camera::new();
    cam.handle_inputs(Action::LookRight, true);
    cam.update(SCALE / 4, ROT_COS, ROT_SIN);
    assert_eq!(cam.dir, Vec3::new(-ROT_SIN, 0, ROT_COS));
    assert_eq!(cam.yaw_cos, ROT_COS);
    assert_eq!(cam.yaw_sin, ROT_SIN);
    assert_eq!(cam.angle, SCALE / 4);
}

#[test]
fn idle_update_is_a_no_op() {
    let mut cam = Camera::new();
    let before_pos = cam.pos;
    cam.update(SCALE, SCALE, 0);
    assert_eq!(cam.pos, before_pos);
    assert_eq!(cam.action, Action::Idle);
}

#[test]
fn game_resize_keeps_the_camera() {
    let mut game = Game::new(640, 480);
    assert_eq!(game.canvas.width, 640);
    assert_eq!(game.canvas.height, 480);
    game.camera.handle_inputs(Action::MoveForward, true);
    game.update(SCALE / 2, SCALE, 0);
    game.new_size(320, 200);
    assert_eq!(game.canvas.width, 320);
    assert_eq!(game.canvas.height, 200);
    assert_eq!(game.camera.pos, Vec3::new(0, 0, SCALE));
}
