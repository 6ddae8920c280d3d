//! The monochrome framebuffer: a 64x32 grid of boolean pixels, row-major.
//!
//! The grid itself is owned data; presenting it in a window is a frontend's
//! job.  Reads and writes outside the grid are silently ignored, never an
//! error.

use vstd::prelude::*;

verus! {

/// Width of the pixel grid.
pub const WIDTH: usize = 64;

/// Height of the pixel grid.
pub const HEIGHT: usize = 32;

/// The pixel value at (x, y) of a row-major 64x32 grid; false outside it.
pub open spec fn screen_get(s: Seq<bool>, x: int, y: int) -> bool {
    if 0 <= x < 64 && 0 <= y < 32 {
        s[y * 64 + x]
    } else {
        false
    }
}

/// The 64x32 monochrome framebuffer.
pub struct Display {
    /// Row-major pixel states; index y * 64 + x.  Always 2048 entries.
    pub pixels: Vec<bool>,
}

impl Display {
    /// The grid holds exactly one cell per coordinate.
    pub open spec fn wf(self) -> bool {
        self.pixels@.len() == 2048
    }

    /// The pixel value at (x, y); false outside the grid.
    pub open spec fn spec_get(self, x: int, y: int) -> bool {
        screen_get(self.pixels@, x, y)
    }

    /// A framebuffer with every pixel off.
    pub fn new() -> (d: Display)
        ensures
            d.wf(),
            forall|i: int| 0 <= i < 2048 ==> !d.pixels@[i],
    {
        let mut pixels: Vec<bool> = Vec::new();
        let mut i: usize = 0;
        while i < 2048
            invariant
                i <= 2048,
                pixels@.len() == i,
                forall|j: int| 0 <= j < i ==> !pixels@[j],
            decreases 2048 - i,
        {
            pixels.push(false);
            i = i + 1;
        }
        Display { pixels }
    }

    /// Write one pixel; coordinates outside the grid are ignored.
    pub fn set(&mut self, x: usize, y: usize, value: bool)
        requires
            old(self).wf(),
        ensures
            final(self).wf(),
            x < 64 && y < 32 ==> final(self).pixels@ == old(self).pixels@.update(
                y * 64 + x,
                value,
            ),
            !(x < 64 && y < 32) ==> *final(self) == *old(self),
    {
        if x < WIDTH && y < HEIGHT {
            self.pixels.set(y * 64 + x, value);
        }
    }

    /// Read one pixel; coordinates outside the grid read as false.
    pub fn get(&self, x: usize, y: usize) -> (r: bool)
        requires
            self.wf(),
        ensures
            r == self.spec_get(x as int, y as int),
    {
        if x < WIDTH && y < HEIGHT {
            self.pixels[y * 64 + x]
        } else {
            false
        }
    }

    /// Turn every pixel off.
    pub fn clear(&mut self)
        requires
            old(self).wf(),
        ensures
            final(self).wf(),
            forall|i: int| 0 <= i < 2048 ==> !final(self).pixels@[i],
    {
        let fresh = Display::new();
        self.pixels = fresh.pixels;
    }
}

} // verus!
