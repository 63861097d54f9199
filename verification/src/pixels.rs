//! Raw pixel buffers: one `u32` per pixel, RGBA channels packed
//! little-endian (red in the lowest byte), rows in row-major order.

use vstd::prelude::*;

verus! {

/// The row-major index of pixel `(x, y)` in a buffer of the given width.
pub open spec fn pixel_index(width: int, x: int, y: int) -> int {
    y * width + x
}

/// A decoded image: its dimensions and one packed RGBA value per pixel.
pub struct PixelBuffer {
    pub width: u32,
    pub height: u32,
    /// Row-major, `width * height` entries.
    pub data: Vec<u32>,
}

impl PixelBuffer {
    pub open spec fn wf(self) -> bool {
        self.data@.len() == self.width * self.height
    }

    /// The packed RGBA value of pixel `(x, y)`.
    pub open spec fn spec_pixel(self, x: int, y: int) -> u32 {
        self.data@[pixel_index(self.width as int, x, y)]
    }
}

/// An in-bounds pixel's row-major index lies inside the buffer.
pub proof fn lemma_pixel_index_in_range(width: int, height: int, x: int, y: int)
    requires
        0 <= x < width,
        0 <= y < height,
    ensures
        0 <= pixel_index(width, x, y) < width * height,
{
    assert(0 <= y * width + x < width * height) by (nonlinear_arith)
        requires
            0 <= x < width,
            0 <= y < height,
    ;
}

} // verus!
