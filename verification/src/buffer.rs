//! A rectangular viewport backed by a possibly larger, pannable virtual
//! grid of cells.
//!
//! The viewport (`rect`) gives the surface's position and visible size in its
//! parent's coordinate space. The virtual surface (`scroll`) gives the full
//! content size, and its `x`/`y` hold the pan offset: the virtual coordinate
//! currently aligned with the viewport's top-left. The flat `content` array
//! always holds exactly `scroll.width * scroll.height` cells, indexed row
//! major.

use vstd::prelude::*;

use vstd::arithmetic::div_mod::{lemma_fundamental_div_mod, lemma_fundamental_div_mod_converse};

use crate::cell::{Cell, Color};
use crate::rect::{lemma_mul_bounds, lemma_row_major_bound, Rect};

verus! {

/// Inside a grid of rows of width `w`, the row-major index of `(x, y)`
/// decomposes back into its coordinates.
pub proof fn lemma_flat_coords(w: int, x: int, y: int)
    requires
        0 < w,
        0 <= x < w,
        0 <= y,
    ensures
        (y * w + x) / w == y,
        (y * w + x) % w == x,
{
    lemma_fundamental_div_mod_converse(y * w + x, w, y, x);
}

pub struct Buffer {
    pub bg: Color,
    pub rect: Rect,
    pub scroll: Rect,
    pub content: Vec<Cell>,
}

/// Builds a vector of `n` copies of `fill`.
fn filled_cells(n: usize, fill: Cell) -> (v: Vec<Cell>)
    ensures
        v@ == Seq::new(n as nat, |i: int| fill),
{
    let mut v: Vec<Cell> = Vec::new();
    let mut i: usize = 0;
    while i < n
        invariant
            i <= n,
            v@.len() == i,
            forall|k: int| 0 <= k < i ==> v@[k] == fill,
        decreases n - i,
    {
        v.push(fill);
        i = i + 1;
    }
    proof {
        assert(v@ =~= Seq::new(n as nat, |i: int| fill));
    }
    v
}

impl Buffer {
    /// Well-formedness: the content matches the virtual area, and the pan
    /// offset keeps the viewport inside the virtual surface on both axes.
    pub open spec fn wf(&self) -> bool {
        &&& self.content@.len() == self.scroll.width * self.scroll.height
        &&& self.scroll.x + self.rect.width <= self.scroll.width
        &&& self.scroll.y + self.rect.height <= self.scroll.height
    }

    /// Index of virtual-absolute coordinates in the flat content array.
    pub open spec fn vir_idx(&self, x: int, y: int) -> int {
        y * (self.scroll.width as int) + x
    }

    /// Index of viewport-relative coordinates, after adding the pan offset.
    pub open spec fn idx(&self, x: int, y: int) -> int {
        self.vir_idx(x + self.scroll.x, y + self.scroll.y)
    }

    /// The cell at virtual-absolute coordinates.
    pub open spec fn cell_vir(&self, x: int, y: int) -> Cell {
        self.content@[self.vir_idx(x, y)]
    }

    /// The cell at viewport-relative coordinates (pan applied).
    pub open spec fn cell(&self, x: int, y: int) -> Cell {
        self.content@[self.idx(x, y)]
    }

    /// The geometry and background, everything but the cells.
    pub open spec fn frame(&self) -> (Color, Rect, Rect) {
        (self.bg, self.rect, self.scroll)
    }

    /// A viewport-relative index is inside the content array.
    pub proof fn lemma_idx_in_bounds(&self, x: int, y: int)
        requires
            self.wf(),
            0 <= x < self.rect.width,
            0 <= y < self.rect.height,
        ensures
            0 <= self.idx(x, y) < self.content@.len(),
            self.idx(x, y) == self.vir_idx(x + self.scroll.x, y + self.scroll.y),
    {
        lemma_row_major_bound(
            x + self.scroll.x,
            y + self.scroll.y,
            self.scroll.width as int,
            self.scroll.height as int,
        );
    }

    /// A virtual-absolute index is inside the content array.
    pub proof fn lemma_vir_idx_in_bounds(&self, x: int, y: int)
        requires
            self.wf(),
            0 <= x < self.scroll.width,
            0 <= y < self.scroll.height,
        ensures
            0 <= self.vir_idx(x, y) < self.content@.len(),
    {
        lemma_row_major_bound(x, y, self.scroll.width as int, self.scroll.height as int);
    }

    /// A fresh buffer, every cell blank over the default background.
    pub fn empty(rect: Rect, scroll: Rect) -> (b: Buffer)
        requires
            scroll.x + rect.width <= scroll.width,
            scroll.y + rect.height <= scroll.height,
            scroll.width * scroll.height <= u32::MAX,
        ensures
            b.wf(),
            b.bg == Color::Reset,
            b.rect == rect,
            b.scroll == scroll,
            b.content@ == Seq::new(
                (scroll.width * scroll.height) as nat,
                |i: int| Cell::blank(Color::Reset),
            ),
    {
        let a = scroll.area() as usize;
        Buffer { rect, scroll, content: filled_cells(a, Cell::new_blank(Color::Reset)), bg: Color::Reset }
    }

    /// A fresh buffer filled with `fill`; the buffer's background is taken
    /// from the fill cell.
    pub fn filled(rect: Rect, scroll: Rect, fill: Cell) -> (b: Buffer)
        requires
            scroll.x + rect.width <= scroll.width,
            scroll.y + rect.height <= scroll.height,
            scroll.width * scroll.height <= u32::MAX,
        ensures
            b.wf(),
            b.bg == fill.bg,
            b.rect == rect,
            b.scroll == scroll,
            b.content@ == Seq::new((scroll.width * scroll.height) as nat, |i: int| fill),
    {
        let a = scroll.area() as usize;
        Buffer { rect, scroll, content: filled_cells(a, fill), bg: fill.bg }
    }

    /// Replaces the virtual surface with a fresh one of the given size,
    /// keeping the pan offset; every cell is re-filled with the blank cell
    /// over the buffer's background. Content is destroyed, not preserved.
    pub fn set_scroll_size(&mut self, width: u32, height: u32)
        requires
            old(self).wf(),
            old(self).scroll.x + old(self).rect.width <= width,
            old(self).scroll.y + old(self).rect.height <= height,
            width * height <= u32::MAX,
        ensures
            final(self).wf(),
            final(self).bg == old(self).bg,
            final(self).rect == old(self).rect,
            final(self).scroll == (Rect {
                width,
                height,
                ..old(self).scroll
            }),
            final(self).content@ == Seq::new(
                (width * height) as nat,
                |i: int| Cell::blank(old(self).bg),
            ),
    {
        self.scroll.width = width;
        self.scroll.height = height;
        let a = self.scroll.area() as usize;
        self.content = filled_cells(a, Cell::new_blank(self.bg));
    }

    /// Grows the virtual surface by `dy` rows, appending freshly blanked
    /// cells without disturbing the existing rows.
    pub fn extend_scroll_height(&mut self, dy: u32)
        requires
            old(self).wf(),
            old(self).scroll.height + dy <= u32::MAX,
            old(self).scroll.width * (old(self).scroll.height + dy) <= u32::MAX,
        ensures
            final(self).wf(),
            final(self).bg == old(self).bg,
            final(self).rect == old(self).rect,
            final(self).scroll == (Rect {
                height: (old(self).scroll.height + dy) as u32,
                ..old(self).scroll
            }),
            final(self).content@ == old(self).content@ + Seq::new(
                (old(self).scroll.width * dy) as nat,
                |i: int| Cell::blank(old(self).bg),
            ),
    {
        proof {
            lemma_mul_bounds(self.scroll.width as int, dy as int);
            assert(self.scroll.width * dy + self.scroll.width * self.scroll.height
                == self.scroll.width * (self.scroll.height + dy)) by (nonlinear_arith);
        }
        self.scroll.height = self.scroll.height + dy;
        let extra = (self.scroll.width as u64 * dy as u64) as usize;
        let mut fresh = filled_cells(extra, Cell::new_blank(self.bg));
        self.content.append(&mut fresh);
        proof {
            assert(self.scroll.width * self.scroll.height
                == old(self).scroll.width * (old(self).scroll.height + dy));
        }
    }

    /// Sets the pan offset. Each axis is accepted only if the viewport still
    /// fits inside the virtual surface at the requested offset; a too-large
    /// request leaves that axis unchanged (no clamping).
    pub fn set_scroll_xy(&mut self, x: u32, y: u32)
        requires
            old(self).wf(),
        ensures
            final(self).wf(),
            final(self).scroll.x == if x + old(self).rect.width <= old(self).scroll.width {
                x
            } else {
                old(self).scroll.x
            },
            final(self).scroll.y == if y + old(self).rect.height <= old(self).scroll.height {
                y
            } else {
                old(self).scroll.y
            },
            final(self).scroll.width == old(self).scroll.width,
            final(self).scroll.height == old(self).scroll.height,
            final(self).bg == old(self).bg,
            final(self).rect == old(self).rect,
            final(self).content == old(self).content,
    {
        if x <= self.scroll.width - self.rect.width {
            self.scroll.x = x;
        }
        if y <= self.scroll.height - self.rect.height {
            self.scroll.y = y;
        }
    }

    /// Restores every cell to the blank cell over the buffer's background,
    /// leaving the geometry untouched.
    pub fn reset(&mut self)
        ensures
            final(self).bg == old(self).bg,
            final(self).rect == old(self).rect,
            final(self).scroll == old(self).scroll,
            final(self).content@ == Seq::new(
                old(self).content@.len(),
                |i: int| Cell::blank(old(self).bg),
            ),
    {
        let n = self.content.len();
        let mut i: usize = 0;
        while i < n
            invariant
                i <= n,
                self.bg == old(self).bg,
                self.rect == old(self).rect,
                self.scroll == old(self).scroll,
                self.content@.len() == n,
                n == old(self).content@.len(),
                forall|k: int| 0 <= k < i ==> self.content@[k] == Cell::blank(old(self).bg),
                forall|k: int| i <= k < n ==> self.content@[k] == old(self).content@[k],
            decreases n - i,
        {
            self.content[i] = Cell::new_blank(self.bg);
            i = i + 1;
        }
        proof {
            assert(self.content@ =~= Seq::new(
                old(self).content@.len(),
                |i: int| Cell::blank(old(self).bg),
            ));
        }
    }

    /// Records `bg` as the buffer's background and repaints every cell's
    /// background with it, leaving symbols and foregrounds alone.
    pub fn set_bg(&mut self, bg: Color)
        ensures
            final(self).bg == bg,
            final(self).rect == old(self).rect,
            final(self).scroll == old(self).scroll,
            final(self).content@ == Seq::new(
                old(self).content@.len(),
                |i: int| Cell { bg, ..old(self).content@[i] },
            ),
    {
        self.bg = bg;
        let n = self.content.len();
        let mut i: usize = 0;
        while i < n
            invariant
                i <= n,
                self.bg == bg,
                self.rect == old(self).rect,
                self.scroll == old(self).scroll,
                self.content@.len() == n,
                n == old(self).content@.len(),
                forall|k: int| 0 <= k < i ==> self.content@[k] == (Cell {
                    bg,
                    ..old(self).content@[k]
                }),
                forall|k: int| i <= k < n ==> self.content@[k] == old(self).content@[k],
            decreases n - i,
        {
            let c = &mut self.content[i];
            c.set_bg(bg);
            i = i + 1;
        }
        proof {
            assert(self.content@ =~= Seq::new(
                old(self).content@.len(),
                |i: int| Cell { bg, ..old(self).content@[i] },
            ));
        }
    }

    pub fn get_bg(&self) -> (c: Color)
        ensures
            c == self.bg,
    {
        self.bg
    }

    pub fn width(&self) -> (w: u32)
        ensures
            w == self.rect.width,
    {
        self.rect.width
    }

    pub fn height(&self) -> (h: u32)
        ensures
            h == self.rect.height,
    {
        self.rect.height
    }

    /// Moves the viewport within the parent's coordinate space.
    pub fn set_pos(&mut self, x: u32, y: u32)
        ensures
            final(self).rect == (Rect { x, y, ..old(self).rect }),
            final(self).bg == old(self).bg,
            final(self).scroll == old(self).scroll,
            final(self).content == old(self).content,
    {
        self.rect.x = x;
        self.rect.y = y;
    }

    pub fn size(&self) -> (n: usize)
        ensures
            n == self.content@.len(),
    {
        self.content.len()
    }

    pub fn top(&self) -> (t: u32)
        ensures
            t == self.rect.y,
    {
        self.rect.y
    }

    pub fn left(&self) -> (l: u32)
        ensures
            l == self.rect.x,
    {
        self.rect.x
    }

    pub fn bottom(&self) -> (b: u32)
        requires
            self.rect.y + self.rect.height <= u32::MAX,
        ensures
            b == self.rect.y + self.rect.height,
    {
        self.rect.y + self.rect.height
    }

    pub fn right(&self) -> (r: u32)
        requires
            self.rect.x + self.rect.width <= u32::MAX,
        ensures
            r == self.rect.x + self.rect.width,
    {
        self.rect.x + self.rect.width
    }

    pub fn rect(&self) -> (r: Rect)
        ensures
            r == self.rect,
    {
        self.rect
    }

    pub fn scroll(&self) -> (r: Rect)
        ensures
            r == self.scroll,
    {
        self.scroll
    }

    /// Flat index of virtual-absolute coordinates.
    pub fn vir_index_of(&self, x: u32, y: u32) -> (i: usize)
        requires
            self.wf(),
            x < self.scroll.width,
            y < self.scroll.height,
        ensures
            i == self.vir_idx(x as int, y as int),
    {
        let n = self.content.len();
        proof {
            self.lemma_vir_idx_in_bounds(x as int, y as int);
            assert(self.scroll.width as int * y as int == y as int * self.scroll.width as int)
                by (nonlinear_arith);
            assert(self.vir_idx(x as int, y as int) < n);
        }
        self.scroll.width as usize * y as usize + x as usize
    }

    /// Flat index of viewport-relative coordinates, pan applied.
    pub fn index_of(&self, x: u32, y: u32) -> (i: usize)
        requires
            self.wf(),
            x < self.rect.width,
            y < self.rect.height,
        ensures
            i == self.idx(x as int, y as int),
    {
        self.vir_index_of(x + self.scroll.x, y + self.scroll.y)
    }

    /// The cell at viewport-relative coordinates.
    pub fn get(&self, x: u32, y: u32) -> (c: &Cell)
        requires
            self.wf(),
            x < self.rect.width,
            y < self.rect.height,
        ensures
            *c == self.cell(x as int, y as int),
    {
        proof {
            self.lemma_idx_in_bounds(x as int, y as int);
        }
        let i = self.index_of(x, y);
        &self.content[i]
    }

    pub fn get_mut(&mut self, x: u32, y: u32) -> (c: &mut Cell)
        requires
            old(self).wf(),
            x < old(self).rect.width,
            y < old(self).rect.height,
        ensures
            *c == old(self).cell(x as int, y as int),
            final(self).content@ == old(self).content@.update(
                old(self).idx(x as int, y as int),
                *final(c),
            ),
            final(self).frame() == old(self).frame(),
            final(self).wf(),
    {
        proof {
            self.lemma_idx_in_bounds(x as int, y as int);
        }
        let i = self.index_of(x, y);
        &mut self.content[i]
    }

    /// The cell at virtual-absolute coordinates, ignoring the pan.
    pub fn get_vir(&self, x: u32, y: u32) -> (c: &Cell)
        requires
            self.wf(),
            x < self.scroll.width,
            y < self.scroll.height,
        ensures
            *c == self.cell_vir(x as int, y as int),
    {
        proof {
            self.lemma_vir_idx_in_bounds(x as int, y as int);
        }
        let i = self.vir_index_of(x, y);
        &self.content[i]
    }

    pub fn get_vir_mut(&mut self, x: u32, y: u32) -> (c: &mut Cell)
        requires
            old(self).wf(),
            x < old(self).scroll.width,
            y < old(self).scroll.height,
        ensures
            *c == old(self).cell_vir(x as int, y as int),
            final(self).content@ == old(self).content@.update(
                old(self).vir_idx(x as int, y as int),
                *final(c),
            ),
            final(self).frame() == old(self).frame(),
            final(self).wf(),
    {
        proof {
            self.lemma_vir_idx_in_bounds(x as int, y as int);
        }
        let i = self.vir_index_of(x, y);
        &mut self.content[i]
    }

    /// Repaints the background of the one cell at virtual-absolute
    /// `(x, y)`.
    pub fn paint_bg_vir(&mut self, x: u32, y: u32, bg: Color)
        requires
            old(self).wf(),
            x < old(self).scroll.width,
            y < old(self).scroll.height,
        ensures
            final(self).wf(),
            final(self).frame() == old(self).frame(),
            final(self).content@.len() == old(self).content@.len(),
            final(self).content@[old(self).vir_idx(x as int, y as int)] == (Cell {
                bg,
                ..old(self).content@[old(self).vir_idx(x as int, y as int)]
            }),
            forall|k: int|
                0 <= k < old(self).content@.len() && k != old(self).vir_idx(x as int, y as int)
                    ==> final(self).content@[k] == old(self).content@[k],
    {
        proof {
            self.lemma_vir_idx_in_bounds(x as int, y as int);
        }
        let c = self.get_vir_mut(x, y);
        c.set_bg(bg);
    }

    /// Repaints the foreground of the one cell at virtual-absolute
    /// `(x, y)`.
    pub fn paint_fg_vir(&mut self, x: u32, y: u32, fg: Color)
        requires
            old(self).wf(),
            x < old(self).scroll.width,
            y < old(self).scroll.height,
        ensures
            final(self).wf(),
            final(self).frame() == old(self).frame(),
            final(self).content@.len() == old(self).content@.len(),
            final(self).content@[old(self).vir_idx(x as int, y as int)] == (Cell {
                fg,
                ..old(self).content@[old(self).vir_idx(x as int, y as int)]
            }),
            forall|k: int|
                0 <= k < old(self).content@.len() && k != old(self).vir_idx(x as int, y as int)
                    ==> final(self).content@[k] == old(self).content@[k],
    {
        proof {
            self.lemma_vir_idx_in_bounds(x as int, y as int);
        }
        let c = self.get_vir_mut(x, y);
        c.set_fg(fg);
    }

    /// Writes symbol and attribute of the one cell at virtual-absolute
    /// `(x, y)`.
    pub fn paint_sym_vir(&mut self, x: u32, y: u32, sym: char, attr: crate::cell::Attribute)
        requires
            old(self).wf(),
            x < old(self).scroll.width,
            y < old(self).scroll.height,
        ensures
            final(self).wf(),
            final(self).frame() == old(self).frame(),
            final(self).content@.len() == old(self).content@.len(),
            final(self).content@[old(self).vir_idx(x as int, y as int)] == (Cell {
                symbol: sym,
                attr,
                ..old(self).content@[old(self).vir_idx(x as int, y as int)]
            }),
            forall|k: int|
                0 <= k < old(self).content@.len() && k != old(self).vir_idx(x as int, y as int)
                    ==> final(self).content@[k] == old(self).content@[k],
    {
        proof {
            self.lemma_vir_idx_in_bounds(x as int, y as int);
        }
        let c = self.get_vir_mut(x, y);
        c.set_symbol(sym);
        c.set_attr(attr);
    }

    /// The viewport's cells in row-major order, pan applied: the sole read
    /// path feeding the output stage.
    pub open spec fn visible_seq(&self) -> Seq<Cell> {
        Seq::new(
            (self.rect.width * self.rect.height) as nat,
            |k: int| self.cell(k % (self.rect.width as int), k / (self.rect.width as int)),
        )
    }

    /// Copies the viewport's cells out, row major.
    pub fn visible_copy(&self) -> (v: Vec<Cell>)
        requires
            self.wf(),
        ensures
            v@ == self.visible_seq(),
    {
        let w = self.rect.width;
        let h = self.rect.height;
        let mut v: Vec<Cell> = Vec::new();
        let mut y: u32 = 0;
        while y < h
            invariant
                self.wf(),
                w == self.rect.width,
                h == self.rect.height,
                y <= h,
                v@.len() == y * w,
                forall|k: int| 0 <= k < v@.len() ==> v@[k] == self.visible_seq()[k],
            decreases h - y,
        {
            let mut x: u32 = 0;
            while x < w
                invariant
                    self.wf(),
                    w == self.rect.width,
                    h == self.rect.height,
                    y < h,
                    x <= w,
                    v@.len() == y * w + x,
                    forall|k: int| 0 <= k < v@.len() ==> v@[k] == self.visible_seq()[k],
                decreases w - x,
            {
                let c = *self.get(x, y);
                proof {
                    lemma_flat_coords(w as int, x as int, y as int);
                    lemma_row_major_bound(x as int, y as int, w as int, h as int);
                    assert(h as int * w as int == w as int * h as int) by (nonlinear_arith);
                }
                v.push(c);
                x = x + 1;
            }
            proof {
                assert((y + 1) as int * w as int == y as int * w as int + w as int)
                    by (nonlinear_arith);
            }
            y = y + 1;
        }
        proof {
            assert(h as int * w as int == w as int * h as int) by (nonlinear_arith);
            assert(v@ =~= self.visible_seq());
        }
        v
    }

    /// The viewport's cells with their absolute screen coordinates, row
    /// major. `abs` is the `(top, left)` screen position of the viewport;
    /// every produced entry is `(absolute x, absolute y, cell)` and lies
    /// inside the viewport's absolute bounds.
    pub fn to_vec(&self, abs: (u32, u32)) -> (v: Vec<(u16, u16, Cell)>)
        requires
            self.wf(),
            abs.0 + self.rect.height <= 65536,
            abs.1 + self.rect.width <= 65536,
        ensures
            v@.len() == self.rect.width * self.rect.height,
            forall|k: int|
                0 <= k < v@.len() ==> v@[k] == (
                ((abs.1 + (k % (self.rect.width as int))) as u16),
                ((abs.0 + (k / (self.rect.width as int))) as u16),
                self.visible_seq()[k],
            ),
            forall|k: int|
                0 <= k < v@.len() ==> abs.1 <= (#[trigger] v@[k]).0
                    < abs.1 + self.rect.width && abs.0 <= v@[k].1 < abs.0 + self.rect.height,
    {
        let w = self.rect.width;
        let h = self.rect.height;
        let mut v: Vec<(u16, u16, Cell)> = Vec::new();
        let mut y: u32 = 0;
        while y < h
            invariant
                self.wf(),
                w == self.rect.width,
                h == self.rect.height,
                abs.0 + h <= 65536,
                abs.1 + w <= 65536,
                y <= h,
                v@.len() == y * w,
                forall|k: int|
                    0 <= k < v@.len() ==> v@[k] == (
                    ((abs.1 + (k % (w as int))) as u16),
                    ((abs.0 + (k / (w as int))) as u16),
                    self.visible_seq()[k],
                ),
                forall|k: int|
                    0 <= k < v@.len() ==> abs.1 <= (#[trigger] v@[k]).0 < abs.1 + w && abs.0
                        <= v@[k].1 < abs.0 + h,
            decreases h - y,
        {
            let mut x: u32 = 0;
            while x < w
                invariant
                    self.wf(),
                    w == self.rect.width,
                    h == self.rect.height,
                    abs.0 + h <= 65536,
                    abs.1 + w <= 65536,
                    y < h,
                    x <= w,
                    v@.len() == y * w + x,
                    forall|k: int|
                        0 <= k < v@.len() ==> v@[k] == (
                        ((abs.1 + (k % (w as int))) as u16),
                        ((abs.0 + (k / (w as int))) as u16),
                        self.visible_seq()[k],
                    ),
                    forall|k: int|
                        0 <= k < v@.len() ==> abs.1 <= (#[trigger] v@[k]).0 < abs.1 + w && abs.0
                            <= v@[k].1 < abs.0 + h,
                decreases w - x,
            {
                let c = *self.get(x, y);
                proof {
                    lemma_flat_coords(w as int, x as int, y as int);
                    lemma_row_major_bound(x as int, y as int, w as int, h as int);
                    assert(h as int * w as int == w as int * h as int) by (nonlinear_arith);
                }
                v.push(((abs.1 + x) as u16, (abs.0 + y) as u16, c));
                x = x + 1;
            }
            proof {
                assert((y + 1) as int * w as int == y as int * w as int + w as int)
                    by (nonlinear_arith);
            }
            y = y + 1;
        }
        proof {
            assert(h as int * w as int == w as int * h as int) by (nonlinear_arith);
        }
        v
    }
}

/// How many source columns (or rows) survive clipping against a viewport
/// extent when the copy starts at offset `off`.
pub open spec fn clip_len(extent: int, off: int, src: int) -> int {
    if off >= extent {
        0
    } else if src <= extent - off {
        src
    } else {
        extent - off
    }
}

/// The viewport-relative coordinates a flat content index of `b` addresses,
/// with the pan offset taken back out.
pub open spec fn target_coords(b: Buffer, k: int) -> (int, int) {
    let w = b.scroll.width as int;
    ((k % w) - b.scroll.x, (k / w) - b.scroll.y)
}

/// The cell at flat index `k` after the copy has covered `ydone` full rows
/// and `xdone` cells of the next one.
pub open spec fn comp_cell_upto(
    b: Buffer,
    cells: Seq<Cell>,
    src_w: int,
    top: int,
    left: int,
    endx: int,
    ydone: int,
    xdone: int,
    k: int,
) -> Cell {
    let px = target_coords(b, k).0;
    let py = target_coords(b, k).1;
    if left <= px < left + endx && top <= py && (py - top < ydone || (py - top == ydone && px
        - left < xdone)) {
        cells[(py - top) * src_w + (px - left)]
    } else {
        b.content@[k]
    }
}

/// The cell at flat index `k` after compositing `cells` (a `src_w` by
/// `src_h` grid) into `b` at viewport-relative offset `(left, top)`,
/// clipped to `b`'s viewport.
pub open spec fn composited_cell(
    b: Buffer,
    cells: Seq<Cell>,
    src_w: int,
    src_h: int,
    top: int,
    left: int,
    k: int,
) -> Cell {
    comp_cell_upto(
        b,
        cells,
        src_w,
        top,
        left,
        clip_len(b.rect.width as int, left, src_w),
        clip_len(b.rect.height as int, top, src_h),
        0,
        k,
    )
}

/// The cell at flat index `k` after compositing `cells` (a `src_w` by
/// `src_h` grid) at viewport-relative offset `(left, top)` into a surface
/// described only by its parts: flat contents, viewport and virtual rect.
pub open spec fn composited_cell_at(
    content: Seq<Cell>,
    rect: Rect,
    scroll: Rect,
    cells: Seq<Cell>,
    src_w: int,
    src_h: int,
    top: int,
    left: int,
    k: int,
) -> Cell {
    let w = scroll.width as int;
    let px = (k % w) - scroll.x;
    let py = (k / w) - scroll.y;
    let endx = clip_len(rect.width as int, left, src_w);
    let endy = clip_len(rect.height as int, top, src_h);
    if left <= px < left + endx && top <= py < top + endy {
        cells[(py - top) * src_w + (px - left)]
    } else {
        content[k]
    }
}

/// The whole contents after such a composite.
pub open spec fn composited_content(
    content: Seq<Cell>,
    rect: Rect,
    scroll: Rect,
    cells: Seq<Cell>,
    src_w: int,
    src_h: int,
    top: int,
    left: int,
) -> Seq<Cell> {
    Seq::new(
        content.len(),
        |k: int| composited_cell_at(content, rect, scroll, cells, src_w, src_h, top, left, k),
    )
}

/// The two composite descriptions agree: the buffer-level cell is the
/// parts-level cell of the buffer's own parts.
pub proof fn lemma_composited_cell_parts(
    b: Buffer,
    cells: Seq<Cell>,
    src_w: int,
    src_h: int,
    top: int,
    left: int,
    k: int,
)
    ensures
        composited_cell(b, cells, src_w, src_h, top, left, k) == composited_cell_at(
            b.content@,
            b.rect,
            b.scroll,
            cells,
            src_w,
            src_h,
            top,
            left,
            k,
        ),
{
}

/// Compositing never writes a cell outside the destination's viewport: a
/// changed flat index addresses virtual coordinates inside the panned
/// viewport window on both axes.
pub proof fn lemma_composite_clips(
    b: Buffer,
    cells: Seq<Cell>,
    src_w: int,
    src_h: int,
    top: int,
    left: int,
    k: int,
)
    requires
        b.wf(),
        0 <= top,
        0 <= left,
        0 <= k < b.content@.len(),
        composited_cell(b, cells, src_w, src_h, top, left, k) != b.content@[k],
    ensures
        b.scroll.x <= k % (b.scroll.width as int) < b.scroll.x + b.rect.width,
        b.scroll.y <= k / (b.scroll.width as int) < b.scroll.y + b.rect.height,
{
}

impl Buffer {
    /// Copies a `src_w` by `src_h` grid of cells into this buffer with its
    /// top-left at viewport-relative `(left, top)`; source cells that would
    /// land outside the viewport are dropped.
    pub fn composite_cells(&mut self, cells: &Vec<Cell>, src_w: u32, src_h: u32, top: u32, left: u32)
        requires
            old(self).wf(),
            cells@.len() == src_w * src_h,
        ensures
            final(self).wf(),
            final(self).frame() == old(self).frame(),
            final(self).content@.len() == old(self).content@.len(),
            forall|k: int|
                0 <= k < final(self).content@.len() ==> final(self).content@[k]
                    == composited_cell(
                    *old(self),
                    cells@,
                    src_w as int,
                    src_h as int,
                    top as int,
                    left as int,
                    k,
                ),
    {
        let endx: u32 = if left >= self.rect.width {
            0
        } else if src_w <= self.rect.width - left {
            src_w
        } else {
            self.rect.width - left
        };
        let endy: u32 = if top >= self.rect.height {
            0
        } else if src_h <= self.rect.height - top {
            src_h
        } else {
            self.rect.height - top
        };
        let ghost gendx = clip_len(self.rect.width as int, left as int, src_w as int);
        let ghost gendy = clip_len(self.rect.height as int, top as int, src_h as int);
        let mut y: u32 = 0;
        while y < endy
            invariant
                self.wf(),
                self.frame() == old(self).frame(),
                self.content@.len() == old(self).content@.len(),
                cells@.len() == src_w * src_h,
                endx == gendx,
                endy == gendy,
                gendx == clip_len(self.rect.width as int, left as int, src_w as int),
                gendy == clip_len(self.rect.height as int, top as int, src_h as int),
                y <= endy,
                forall|k: int|
                    0 <= k < self.content@.len() ==> self.content@[k] == comp_cell_upto(
                        *old(self),
                        cells@,
                        src_w as int,
                        top as int,
                        left as int,
                        endx as int,
                        y as int,
                        0,
                        k,
                    ),
            decreases endy - y,
        {
            let mut x: u32 = 0;
            while x < endx
                invariant
                    self.wf(),
                    self.frame() == old(self).frame(),
                    self.content@.len() == old(self).content@.len(),
                    cells@.len() == src_w * src_h,
                    endx == gendx,
                    endy == gendy,
                    gendx == clip_len(self.rect.width as int, left as int, src_w as int),
                    gendy == clip_len(self.rect.height as int, top as int, src_h as int),
                    y < endy,
                    x <= endx,
                    forall|k: int|
                        0 <= k < self.content@.len() ==> self.content@[k] == comp_cell_upto(
                            *old(self),
                            cells@,
                            src_w as int,
                            top as int,
                            left as int,
                            endx as int,
                            y as int,
                            x as int,
                            k,
                        ),
                decreases endx - x,
            {
                proof {
                    lemma_row_major_bound(x as int, y as int, src_w as int, src_h as int);
                    assert(src_h as int * src_w as int == src_w as int * src_h as int)
                        by (nonlinear_arith);
                }
                let n = cells.len();
                let j = (y as usize) * (src_w as usize) + (x as usize);
                let c = cells[j];
                proof {
                    self.lemma_idx_in_bounds((left + x) as int, (top + y) as int);
                }
                let i = self.index_of(left + x, top + y);
                let ghost prev = self.content@;
                self.content[i] = c;
                proof {
                    let ow = old(self).scroll.width as int;
                    let oh = old(self).scroll.height as int;
                    let ox = old(self).scroll.x as int;
                    let oy = old(self).scroll.y as int;
                    assert(ow == 0 ==> ow * oh == 0) by (nonlinear_arith);
                    let gi = old(self).idx((left + x) as int, (top + y) as int);
                    lemma_flat_coords(ow, (left + x) as int + ox, (top + y) as int + oy);
                    assert(target_coords(*old(self), gi) == ((left + x) as int, (top + y) as int));
                    assert(self.content@[gi] == cells@[(y as int) * (src_w as int) + (x as int)]);
                    assert forall|k: int|
                        0 <= k < self.content@.len() implies self.content@[k] == comp_cell_upto(
                        *old(self),
                        cells@,
                        src_w as int,
                        top as int,
                        left as int,
                        endx as int,
                        y as int,
                        x as int + 1,
                        k,
                    ) by {
                        let px = target_coords(*old(self), k).0;
                        let py = target_coords(*old(self), k).1;
                        if k != gi {
                            assert(self.content@[k] == prev[k]);
                            if left <= px < left + endx && top <= py && py - top == y && px - left
                                == x {
                                lemma_fundamental_div_mod(k, ow);
                                assert(k % ow == px + ox);
                                assert(k / ow == py + oy);
                                assert(ow * (py + oy) == (py + oy) * ow) by (nonlinear_arith);
                                assert(k == (py + oy) * ow + (px + ox));
                                assert(k == gi);
                            }
                        }
                    }
                }
                x = x + 1;
            }
            y = y + 1;
        }
    }

    /// Composites the visible cells of `src` into this buffer with their
    /// top-left at viewport-relative `(left, top)`, clipped to this
    /// buffer's viewport.
    pub fn composite_into(&mut self, src: &Buffer, top: u32, left: u32)
        requires
            old(self).wf(),
            src.wf(),
        ensures
            final(self).wf(),
            final(self).frame() == old(self).frame(),
            final(self).content@.len() == old(self).content@.len(),
            forall|k: int|
                0 <= k < final(self).content@.len() ==> final(self).content@[k]
                    == composited_cell(
                    *old(self),
                    src.visible_seq(),
                    src.rect.width as int,
                    src.rect.height as int,
                    top as int,
                    left as int,
                    k,
                ),
    {
        let cells = src.visible_copy();
        self.composite_cells(&cells, src.width(), src.height(), top, left);
    }
}

} // verus!
