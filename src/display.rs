use vstd::prelude::*;

verus! {

/// Width of the framebuffer in pixels.
pub const BASE_WIDTH: u32 = 64;

/// Height of the framebuffer in pixels.
pub const BASE_HEIGHT: u32 = 32;

/// Number of cells in the framebuffer.
pub const PIXEL_COUNT: usize = 2048;

/// Position of the cell at column `x`, row `y` in the row-major pixel sequence.
pub open spec fn cell(x: int, y: int) -> int {
    y * 64 + x
}

/// The 64x32 monochrome framebuffer, one byte per pixel, row-major.
#[derive(Debug)]
pub struct Display {
    pub pixels: Vec<u8>,
}

impl Display {
    /// The grid has 2048 cells and each holds 0 or 1.
    pub open spec fn wf(&self) -> bool {
        &&& self.pixels@.len() == 2048
        &&& forall|i: int| 0 <= i < 2048 ==> #[trigger] self.pixels@[i] <= 1
    }

    /// A blank framebuffer.
    pub fn new() -> (d: Display)
        ensures
            d.wf(),
            d.pixels@ == Seq::new(2048, |i: int| 0u8),
    {
        let pixels: Vec<u8> = vec![0u8; PIXEL_COUNT];
        let d = Display { pixels };
        assert(d.pixels@ =~= Seq::new(2048, |i: int| 0u8));
        d
    }

    /// The pixel at column `x`, row `y`.
    pub fn get_pixel(&self, x: u32, y: u32) -> (p: u8)
        requires
            self.wf(),
            x < 64,
            y < 32,
        ensures
            p == self.pixels@[cell(x as int, y as int)],
            p <= 1,
    {
        self.pixels[(y * BASE_WIDTH) as usize + x as usize]
    }

    /// Sets the pixel at column `x`, row `y` to `bit`.
    pub fn set_pixel(&mut self, x: u32, y: u32, bit: u8)
        requires
            old(self).wf(),
            x < 64,
            y < 32,
            bit <= 1,
        ensures
            final(self).wf(),
            final(self).pixels@ == old(self).pixels@.update(cell(x as int, y as int), bit),
    {
        self.pixels.set((y * BASE_WIDTH) as usize + x as usize, bit);
    }

    /// Turns every pixel off.
    pub fn clear(&mut self)
        requires
            old(self).wf(),
        ensures
            final(self).wf(),
            final(self).pixels@ == Seq::new(2048, |i: int| 0u8),
    {
        let mut i: usize = 0;
        while i < PIXEL_COUNT
            invariant
                self.pixels@.len() == 2048,
                i <= 2048,
                forall|j: int| 0 <= j < i ==> #[trigger] self.pixels@[j] == 0,
                forall|j: int| 0 <= j < 2048 ==> #[trigger] self.pixels@[j] <= 1,
            decreases 2048 - i,
        {
            self.pixels.set(i, 0);
            i = i + 1;
        }
        assert(self.pixels@ =~= Seq::new(2048, |i: int| 0u8));
    }
}

} // verus!
