//! Integer rectangles: a position and a size in some local coordinate space.

use vstd::prelude::*;

verus! {

/// A rectangle at `(x, y)` of `width` by `height` cells.
#[derive(Clone, Copy, Debug, PartialEq, Eq, Structural)]
pub struct Rect {
    pub x: u32,
    pub y: u32,
    pub width: u32,
    pub height: u32,
}

impl Rect {
    pub fn new(x: u32, y: u32, width: u32, height: u32) -> (r: Self)
        ensures
            r == (Rect { x, y, width, height }),
    {
        Rect { x, y, width, height }
    }

    /// The number of cells the rectangle covers.
    pub fn area(&self) -> (a: u32)
        requires
            self.width * self.height <= u32::MAX,
        ensures
            a == self.width * self.height,
    {
        proof {
            lemma_mul_bounds(self.width as int, self.height as int);
        }
        self.width * self.height
    }

    pub fn get_xy(&self) -> (p: (u32, u32))
        ensures
            p == (self.x, self.y),
    {
        (self.x, self.y)
    }

    /// The top-left offset at which `rect` sits centered inside `self`,
    /// computed per axis from the two midpoints.
    pub fn get_center_start_pos(&self, rect: Rect) -> (p: (u32, u32))
        requires
            rect.width / 2 <= self.width / 2,
            rect.height / 2 <= self.height / 2,
        ensures
            p.0 == self.width / 2 - rect.width / 2,
            p.1 == self.height / 2 - rect.height / 2,
    {
        let h = (self.width / 2) - (rect.width / 2);
        let v = (self.height / 2) - (rect.height / 2);
        (h, v)
    }
}

impl Default for Rect {
    fn default() -> (r: Self)
        ensures
            r == (Rect { x: 0, y: 0, width: 0, height: 0 }),
    {
        Rect { x: 0, y: 0, width: 0, height: 0 }
    }
}

/// The product of two values that each fit in `u32` fits in `u64`.
pub proof fn lemma_mul_bounds(a: int, b: int)
    by (nonlinear_arith)
    requires
        0 <= a <= u32::MAX,
        0 <= b <= u32::MAX,
    ensures
        0 <= a * b <= u32::MAX * u32::MAX,
{
}

/// Row-major indexing stays inside the grid: with `x` inside a row of width
/// `w` and `y` among `h` rows, `y * w + x` lies below `h * w`.
pub proof fn lemma_row_major_bound(x: int, y: int, w: int, h: int)
    by (nonlinear_arith)
    requires
        0 <= x < w,
        0 <= y < h,
    ensures
        0 <= y * w + x < h * w,
{
}

} // verus!
