//! The camera: pose, virtual viewport, yaw rotation and discrete movement.
//!
//! The camera cannot compute trigonometry itself; the host hands it the
//! cosine/sine pair of the per-tick rotation angle as fixed-point scalars,
//! and the camera keeps the accumulated yaw both as an angle and as a
//! cosine/sine rotor, updated in lock-step by the angle-addition formulas.

use vstd::prelude::*;
use crate::fixed::{SCALE, TWO_FX, VMAX};
use crate::fixed::{fx_add, fx_mul, fx_sub};
use crate::fixed::{fadd, fmul, fsub};
use crate::vec3::Vec3;

verus! {

/// The one movement or rotation the camera is currently asked to perform.
#[derive(Clone, Copy, Debug, PartialEq, Eq, Structural)]
pub enum Action {
    Idle,
    LookLeft,
    LookRight,
    MoveForward,
    MoveBackward,
}

/// A camera with a 1 x 1 viewport one unit in front of it (a field of view
/// of about 53 degrees).
pub struct Camera {
    pub pos: Vec3,
    pub dir: Vec3,
    /// Accumulated yaw in fixed-point radians.
    pub angle: i64,
    /// Fixed-point cosine of the accumulated yaw.
    pub yaw_cos: i64,
    /// Fixed-point sine of the accumulated yaw.
    pub yaw_sin: i64,
    pub viewport_w: i64,
    pub viewport_h: i64,
    pub projection_plane_d: i64,
    pub action: Action,
}

/// A point rotated about the vertical axis by the rotor `(c, s)`:
/// `x' = x*c - z*s`, `z' = x*s + z*c`, in fixed point.
pub open spec fn spec_rotate(p: Vec3, c: int, s: int) -> Vec3 {
    Vec3 {
        x: fx_sub(fx_mul(p.x as int, c), fx_mul(p.z as int, s)) as i64,
        y: p.y,
        z: fx_add(fx_mul(p.x as int, s), fx_mul(p.z as int, c)) as i64,
    }
}

/// A pixel's viewport point: `((2x - w) * vw) / (2w)` maps column `x` of a
/// `w`-column canvas onto `[-vw/2, vw/2]`, and rows map likewise with the
/// vertical axis flipped; the depth is the projection distance.
pub open spec fn spec_canvas_to_viewport(cam: Camera, x: int, y: int, w: int, h: int) -> Vec3 {
    Vec3 {
        x: crate::fixed::cap(((2 * x - w) * (cam.viewport_w as int)) / (2 * w)) as i64,
        y: crate::fixed::cap(((h - 2 * y) * (cam.viewport_h as int)) / (2 * h)) as i64,
        z: cam.projection_plane_d,
    }
}

/// The camera after one logical tick of duration `delta`, where `(c, s)` is
/// the fixed-point cosine/sine of the rotation covered in that tick.
/// Movement translates along the facing direction in the horizontal plane at
/// two units per second; rotation turns the facing direction, the yaw rotor
/// and the yaw angle together at one radian per second, looking left by
/// `-delta` and looking right by `+delta`.
pub open spec fn spec_update(cam: Camera, delta: int, c: int, s: int) -> Camera {
    let move_step = fx_mul(TWO_FX as int, delta);
    if cam.action == Action::MoveForward {
        Camera {
            pos: Vec3 {
                x: fx_add(cam.pos.x as int, fx_mul(cam.dir.x as int, move_step)) as i64,
                y: cam.pos.y,
                z: fx_add(cam.pos.z as int, fx_mul(cam.dir.z as int, move_step)) as i64,
            },
            ..cam
        }
    } else if cam.action == Action::MoveBackward {
        Camera {
            pos: Vec3 {
                x: fx_sub(cam.pos.x as int, fx_mul(cam.dir.x as int, move_step)) as i64,
                y: cam.pos.y,
                z: fx_sub(cam.pos.z as int, fx_mul(cam.dir.z as int, move_step)) as i64,
            },
            ..cam
        }
    } else if cam.action == Action::LookLeft {
        Camera {
            dir: spec_rotate(cam.dir, c, -s),
            angle: fx_sub(cam.angle as int, delta) as i64,
            yaw_cos: fx_sub(fx_mul(cam.yaw_cos as int, c), fx_mul(cam.yaw_sin as int, -s)) as i64,
            yaw_sin: fx_add(fx_mul(cam.yaw_sin as int, c), fx_mul(cam.yaw_cos as int, -s)) as i64,
            ..cam
        }
    } else if cam.action == Action::LookRight {
        Camera {
            dir: spec_rotate(cam.dir, c, s),
            angle: fx_add(cam.angle as int, delta) as i64,
            yaw_cos: fx_sub(fx_mul(cam.yaw_cos as int, c), fx_mul(cam.yaw_sin as int, s)) as i64,
            yaw_sin: fx_add(fx_mul(cam.yaw_sin as int, c), fx_mul(cam.yaw_cos as int, s)) as i64,
            ..cam
        }
    } else {
        Camera { action: Action::Idle, ..cam }
    }
}

impl Camera {
    /// Pose, viewport and rotor fields all lie in the stored domain.
    pub open spec fn wf(self) -> bool {
        &&& self.pos.wf()
        &&& self.dir.wf()
        &&& -VMAX <= self.angle <= VMAX
        &&& -SCALE <= self.yaw_cos <= SCALE
        &&& -SCALE <= self.yaw_sin <= SCALE
        &&& 0 < self.viewport_w <= VMAX
        &&& 0 < self.viewport_h <= VMAX
        &&& 0 < self.projection_plane_d <= VMAX
    }

    /// The initial camera state: at the origin, facing along positive
    /// depth, with the unit viewport one unit ahead and no action latched.
    pub open spec fn spec_new() -> Camera {
        Camera {
            pos: Vec3 { x: 0, y: 0, z: 0 },
            dir: Vec3 { x: 0, y: 0, z: SCALE },
            angle: 0,
            yaw_cos: SCALE,
            yaw_sin: 0,
            viewport_w: SCALE,
            viewport_h: SCALE,
            projection_plane_d: SCALE,
            action: Action::Idle,
        }
    }

    /// A camera at the origin, facing along positive depth, with the unit
    /// viewport one unit ahead and no action latched.
    pub fn new() -> (cam: Camera)
        ensures
            cam == Camera::spec_new(),
            cam.wf(),
    {
        Camera {
            pos: Vec3 { x: 0, y: 0, z: 0 },
            dir: Vec3 { x: 0, y: 0, z: SCALE },
            angle: 0,
            yaw_cos: SCALE,
            yaw_sin: 0,
            viewport_w: SCALE,
            viewport_h: SCALE,
            projection_plane_d: SCALE,
            action: Action::Idle,
        }
    }

    /// Map a canvas pixel (origin top left, depth-first axes) to a point on
    /// the virtual viewport plane.
    pub fn canvas_to_viewport(&self, x: i64, y: i64, canvas_w: i64, canvas_h: i64) -> (p: Vec3)
        requires
            0 < canvas_w <= 1_000_000,
            0 < canvas_h <= 1_000_000,
            -1_000_000 <= x <= 1_000_000,
            -1_000_000 <= y <= 1_000_000,
        ensures
            p == spec_canvas_to_viewport(*self, x as int, y as int, canvas_w as int, canvas_h as int),
    {
        proof {
            assert((2 * (x as int) - canvas_w) * (self.viewport_w as int)
                <= 0x4000_0000_0000_0000_0000_0000_0000_0000int
                && (2 * (x as int) - canvas_w) * (self.viewport_w as int)
                >= -0x4000_0000_0000_0000_0000_0000_0000_0000int) by (nonlinear_arith)
                requires
                    -4_000_000 <= 2 * (x as int) - canvas_w <= 4_000_000,
                    -0x8000_0000_0000_0000int <= self.viewport_w <= 0x8000_0000_0000_0000int,
            ;
            assert(((canvas_h as int) - 2 * (y as int)) * (self.viewport_h as int)
                <= 0x4000_0000_0000_0000_0000_0000_0000_0000int
                && ((canvas_h as int) - 2 * (y as int)) * (self.viewport_h as int)
                >= -0x4000_0000_0000_0000_0000_0000_0000_0000int) by (nonlinear_arith)
                requires
                    -4_000_000 <= (canvas_h as int) - 2 * (y as int) <= 4_000_000,
                    -0x8000_0000_0000_0000int <= self.viewport_h <= 0x8000_0000_0000_0000int,
            ;
        }
        let nx: i128 = ((2 * (x as i128)) - (canvas_w as i128)) * (self.viewport_w as i128);
        let ny: i128 = ((canvas_h as i128) - (2 * (y as i128))) * (self.viewport_h as i128);
        let vx: i64 = crate::fixed::cap_i128(crate::fixed::div_floor_i128(nx, 2 * (canvas_w as i128)));
        let vy: i64 = crate::fixed::cap_i128(crate::fixed::div_floor_i128(ny, 2 * (canvas_h as i128)));
        Vec3 { x: vx, y: vy, z: self.projection_plane_d }
    }

    /// Rotate a viewport point about the vertical axis by the accumulated
    /// yaw, through the stored rotor.
    pub fn rotate_viewport(&self, point: &mut Vec3)
        ensures
            *final(point) == spec_rotate(*old(point), self.yaw_cos as int, self.yaw_sin as int),
            old(point).wf() ==> final(point).wf(),
    {
        let old_x: i64 = point.x;
        let old_z: i64 = point.z;
        point.x = fsub(fmul(old_x, self.yaw_cos), fmul(old_z, self.yaw_sin));
        point.z = fadd(fmul(old_x, self.yaw_sin), fmul(old_z, self.yaw_cos));
    }

    /// Latch a control: a press takes effect only while no action is
    /// latched; any release clears the latch.
    pub fn handle_inputs(&mut self, control: Action, pressed: bool)
        requires
            control != Action::Idle,
        ensures
            final(self).action == (if pressed {
                if old(self).action == Action::Idle {
                    control
                } else {
                    old(self).action
                }
            } else {
                Action::Idle
            }),
            *final(self) == (Camera { action: final(self).action, ..*old(self) }),
    {
        if pressed {
            if self.action == Action::Idle {
                self.action = control;
            }
        } else {
            self.action = Action::Idle;
        }
    }

    /// Apply the latched action for one tick: `delta` is the tick length in
    /// fixed-point seconds and `(rot_cos, rot_sin)` the fixed-point
    /// cosine/sine of the angle covered by one tick of rotation.  The pair
    /// must lie on the unit circle up to fixed-point rounding (any rounded
    /// true cosine/sine pair does): that is what makes the applied rotation
    /// magnitude-preserving, exactly so for an exact unit rotor (see
    /// `crate::vec3::lemma_rotation_preserves_magnitude`).
    pub fn update(&mut self, delta: i64, rot_cos: i64, rot_sin: i64)
        requires
            0 <= delta <= VMAX,
            -SCALE <= rot_cos <= SCALE,
            -SCALE <= rot_sin <= SCALE,
            SCALE * SCALE - 2 * SCALE <= rot_cos * rot_cos + rot_sin * rot_sin
                <= SCALE * SCALE + 2 * SCALE,
        ensures
            *final(self) == spec_update(*old(self), delta as int, rot_cos as int, rot_sin as int),
    {
        let move_step: i64 = fmul(TWO_FX, delta);
        if self.action == Action::MoveForward {
            self.pos.x = fadd(self.pos.x, fmul(self.dir.x, move_step));
            self.pos.z = fadd(self.pos.z, fmul(self.dir.z, move_step));
        } else if self.action == Action::MoveBackward {
            self.pos.x = fsub(self.pos.x, fmul(self.dir.x, move_step));
            self.pos.z = fsub(self.pos.z, fmul(self.dir.z, move_step));
        } else if self.action == Action::LookLeft {
            let neg_sin: i64 = -rot_sin;
            let old_dir_x: i64 = self.dir.x;
            let old_dir_z: i64 = self.dir.z;
            self.dir.x = fsub(fmul(old_dir_x, rot_cos), fmul(old_dir_z, neg_sin));
            self.dir.z = fadd(fmul(old_dir_x, neg_sin), fmul(old_dir_z, rot_cos));
            let old_yaw_cos: i64 = self.yaw_cos;
            let old_yaw_sin: i64 = self.yaw_sin;
            self.yaw_cos = fsub(fmul(old_yaw_cos, rot_cos), fmul(old_yaw_sin, neg_sin));
            self.yaw_sin = fadd(fmul(old_yaw_sin, rot_cos), fmul(old_yaw_cos, neg_sin));
            self.angle = fsub(self.angle, delta);
        } else if self.action == Action::LookRight {
            let old_dir_x: i64 = self.dir.x;
            let old_dir_z: i64 = self.dir.z;
            self.dir.x = fsub(fmul(old_dir_x, rot_cos), fmul(old_dir_z, rot_sin));
            self.dir.z = fadd(fmul(old_dir_x, rot_sin), fmul(old_dir_z, rot_cos));
            let old_yaw_cos: i64 = self.yaw_cos;
            let old_yaw_sin: i64 = self.yaw_sin;
            self.yaw_cos = fsub(fmul(old_yaw_cos, rot_cos), fmul(old_yaw_sin, rot_sin));
            self.yaw_sin = fadd(fmul(old_yaw_sin, rot_cos), fmul(old_yaw_cos, rot_sin));
            self.angle = fadd(self.angle, delta);
        } else {
            self.action = Action::Idle;
        }
    }
}

/// The exact center pixel of an even-sized canvas maps to the viewport
/// origin at the projection distance.
pub proof fn lemma_center_pixel_maps_to_origin(cam: Camera, w: int, h: int)
    requires
        w > 0,
        h > 0,
        w % 2 == 0,
        h % 2 == 0,
    ensures
        spec_canvas_to_viewport(cam, w / 2, h / 2, w, h) == (Vec3 {
            x: 0,
            y: 0,
            z: cam.projection_plane_d,
        }),
{
    assert(2 * (w / 2) - w == 0);
    assert(h - 2 * (h / 2) == 0);
    assert((0int * (cam.viewport_w as int)) == 0) by (nonlinear_arith);
    assert((0int * (cam.viewport_h as int)) == 0) by (nonlinear_arith);
    assert(0int / (2 * w) == 0);
    assert(0int / (2 * h) == 0);
}

} // verus!
