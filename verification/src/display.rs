//! Fixed geometry of the emulated display.

use vstd::prelude::*;

verus! {

/// Width of the emulated display, in pixels.
pub const SCREEN_WIDTH: usize = 256;

/// Height of the emulated display, in pixels.
pub const SCREEN_HEIGHT: usize = 240;

/// Number of pixels in one frame: one packed 32-bit colour per pixel,
/// row-major, starting at the top-left corner.
pub const DISPLAY_PIXELS: usize = SCREEN_WIDTH * SCREEN_HEIGHT;

/// One frame has as many pixels as the two dimensions multiply to.
pub proof fn lemma_display_pixels()
    ensures
        DISPLAY_PIXELS == 61440,
        DISPLAY_PIXELS == SCREEN_WIDTH * SCREEN_HEIGHT,
{
}

} // verus!
