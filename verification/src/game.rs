//! The top-level game state: a camera and the canvas it renders to.

use vstd::prelude::*;
use crate::camera::{spec_update, Camera};
use crate::canvas::Canvas;
use crate::fixed::{SCALE, VMAX};

verus! {

pub struct Game {
    pub camera: Camera,
    pub canvas: Canvas,
}

impl Game {
    /// A fresh game: an identity-pose camera and a canvas of the given size.
    pub fn new(width: isize, height: isize) -> (g: Game)
        ensures
            g.camera == Camera::spec_new(),
            g.camera.wf(),
            g.canvas.width == width,
            g.canvas.height == height,
    {
        Game { camera: Camera::new(), canvas: Canvas::new(width, height) }
    }

    /// Adopt a new output size, keeping the camera as it is.
    pub fn new_size(&mut self, width: isize, height: isize)
        ensures
            final(self).canvas.width == width,
            final(self).canvas.height == height,
            final(self).camera == old(self).camera,
    {
        self.canvas = Canvas::new(width, height);
    }

    /// Advance the camera by one logical tick (see `Camera::update`).
    pub fn update(&mut self, delta: i64, rot_cos: i64, rot_sin: i64)
        requires
            0 <= delta <= VMAX,
            -SCALE <= rot_cos <= SCALE,
            -SCALE <= rot_sin <= SCALE,
            SCALE * SCALE - 2 * SCALE <= rot_cos * rot_cos + rot_sin * rot_sin
                <= SCALE * SCALE + 2 * SCALE,
        ensures
            final(self).camera == spec_update(
                old(self).camera,
                delta as int,
                rot_cos as int,
                rot_sin as int,
            ),
            final(self).canvas == old(self).canvas,
    {
        self.camera.update(delta, rot_cos, rot_sin);
    }
}

} // verus!
