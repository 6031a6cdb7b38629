//! The output canvas: the size of the frame being rendered.  Presenting a
//! frame on a display surface is host work outside this crate.

use vstd::prelude::*;

verus! {

/// The current output size in pixels.
pub struct Canvas {
    pub width: isize,
    pub height: isize,
}

impl Canvas {
    pub fn new(width: isize, height: isize) -> (c: Canvas)
        ensures
            c.width == width,
            c.height == height,
    {
        Canvas { width, height }
    }
}

} // verus!
