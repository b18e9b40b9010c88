//! The display buffer: a 64 by 32 plane of lit/unlit cells, stored row by
//! row. Only the clear operation and single-pixel XOR ever change it; the
//! renderer outside the machine only reads it.

use vstd::prelude::*;

verus! {

/// Width of the framebuffer in pixels.
pub const FB_WIDTH: usize = 64;

/// Height of the framebuffer in pixels.
pub const FB_HEIGHT: usize = 32;

/// Number of cells in the framebuffer.
pub const FB_SIZE: usize = FB_WIDTH * FB_HEIGHT;

/// An all-unlit framebuffer.
pub open spec fn blank_fb() -> Seq<bool> {
    Seq::new(FB_SIZE as nat, |p: int| false)
}

/// The framebuffer: cell `x + y * 64` is pixel `(x, y)`; `true` is lit.
pub struct Display {
    pub cells: Vec<bool>,
}

impl View for Display {
    type V = Seq<bool>;

    open spec fn view(&self) -> Seq<bool> {
        self.cells@
    }
}

impl Display {
    /// The buffer always holds exactly 64 * 32 cells.
    pub open spec fn wf(&self) -> bool {
        self@.len() == FB_SIZE
    }

    /// A fully unlit display.
    pub fn new() -> (r: Display)
        ensures
            r.wf(),
            r@ == blank_fb(),
    {
        let mut cells: Vec<bool> = Vec::new();
        let mut k: usize = 0;
        while k < FB_SIZE
            invariant
                k <= FB_SIZE,
                cells@ == Seq::new(k as nat, |p: int| false),
            decreases FB_SIZE - k,
        {
            cells.push(false);
            k += 1;
            proof {
                assert(cells@ =~= Seq::new(k as nat, |p: int| false));
            }
        }
        Display { cells }
    }

    /// Turn every cell unlit.
    pub fn clear(&mut self)
        requires
            old(self).wf(),
        ensures
            final(self).wf(),
            final(self)@ == blank_fb(),
    {
        let mut k: usize = 0;
        while k < FB_SIZE
            invariant
                self@.len() == FB_SIZE,
                k <= FB_SIZE,
                forall|p: int| 0 <= p < k ==> self@[p] == false,
                forall|p: int| k <= p < FB_SIZE ==> self@[p] == old(self)@[p],
            decreases FB_SIZE - k,
        {
            self.cells[k] = false;
            k += 1;
        }
        proof {
            assert(self@ =~= blank_fb());
        }
    }

    /// Flip the pixel at `(x, y)` and report whether it was lit before.
    /// The cell index is the draw operation's linear position `x + y * 64`,
    /// which the caller keeps inside the buffer.
    pub fn xor_pixel(&mut self, x: usize, y: usize) -> (was_lit: bool)
        requires
            old(self).wf(),
            x + y * FB_WIDTH < FB_SIZE,
        ensures
            final(self).wf(),
            was_lit == old(self)@[x + y * FB_WIDTH],
            final(self)@ == old(self)@.update(x + y * FB_WIDTH, !was_lit),
    {
        let pos = x + y * FB_WIDTH;
        let was = self.cells[pos];
        self.cells[pos] = !was;
        was
    }

    /// Whether the pixel at `(x, y)` is lit; for the renderer and for tests.
    pub fn lit(&self, x: usize, y: usize) -> (r: bool)
        requires
            self.wf(),
            x < FB_WIDTH,
            y < FB_HEIGHT,
        ensures
            r == self@[x + y * FB_WIDTH],
    {
        self.cells[x + y * FB_WIDTH]
    }
}

} // verus!
