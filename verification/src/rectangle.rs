//! A filled rectangle: paints one background color over its own rect in
//! the target buffer's virtual surface.

use vstd::prelude::*;

use vstd::arithmetic::div_mod::lemma_fundamental_div_mod;

use crate::buffer::{lemma_flat_coords, Buffer};
use crate::cell::{Cell, Color};
use crate::elements::Element;
use crate::rect::Rect;
use crate::window::Position;

verus! {

#[derive(Clone, Copy, Debug)]
pub struct Rectangle {
    pub rect: Rect,
    pub bg: Color,
}

/// The cell at flat index `k` after the region `rect` (virtual-absolute)
/// of a surface with virtual width `w` has its background painted `bg`,
/// everything else kept.
pub open spec fn rect_painted_cell(content: Seq<Cell>, w: int, rect: Rect, bg: Color, k: int) -> Cell {
    let vx = k % w;
    let vy = k / w;
    if rect.x <= vx < rect.x + rect.width && rect.y <= vy < rect.y + rect.height {
        Cell { bg, ..content[k] }
    } else {
        content[k]
    }
}

/// The same after only `ydone` full rows and `xdone` cells of the next row
/// have been painted.
pub open spec fn rect_painted_upto(
    content: Seq<Cell>,
    w: int,
    rect: Rect,
    bg: Color,
    ydone: int,
    xdone: int,
    k: int,
) -> Cell {
    let vx = k % w;
    let vy = k / w;
    if rect.x <= vx < rect.x + rect.width && rect.y <= vy && (vy - rect.y < ydone || (vy - rect.y
        == ydone && vx - rect.x < xdone)) {
        Cell { bg, ..content[k] }
    } else {
        content[k]
    }
}

impl Rectangle {
    pub fn new(x: u32, y: u32, width: u32, height: u32) -> (r: Self)
        ensures
            r.rect == (Rect { x, y, width, height }),
            r.bg == Color::Reset,
    {
        Rectangle { rect: Rect::new(x, y, width, height), bg: Color::Reset }
    }

    pub fn from_rect(rect: Rect) -> (r: Self)
        ensures
            r.rect == rect,
            r.bg == Color::Reset,
    {
        Rectangle { rect, bg: Color::Reset }
    }

    pub fn bg(self, bg: Color) -> (r: Self)
        ensures
            r == (Rectangle { bg, ..self }),
    {
        Rectangle { bg, ..self }
    }

    pub fn set_bg(&mut self, bg: Color)
        ensures
            *final(self) == (Rectangle { bg, ..*old(self) }),
    {
        self.bg = bg;
    }

    pub fn rect(&self) -> (r: Rect)
        ensures
            r == self.rect,
    {
        self.rect
    }

    pub fn xy(self, x: u32, y: u32) -> (r: Self)
        ensures
            r.rect == (Rect { x, y, ..self.rect }),
            r.bg == self.bg,
    {
        let mut s = self;
        s.set_xy(x, y);
        s
    }

    pub fn size(self, width: u32, height: u32) -> (r: Self)
        ensures
            r.rect == (Rect { width, height, ..self.rect }),
            r.bg == self.bg,
    {
        let mut s = self;
        s.set_size(width, height);
        s
    }

    pub fn set_xy(&mut self, x: u32, y: u32)
        ensures
            final(self).rect == (Rect { x, y, ..old(self).rect }),
            final(self).bg == old(self).bg,
    {
        self.rect.x = x;
        self.rect.y = y;
    }

    pub fn set_size(&mut self, width: u32, height: u32)
        ensures
            final(self).rect == (Rect { width, height, ..old(self).rect }),
            final(self).bg == old(self).bg,
    {
        self.rect.width = width;
        self.rect.height = height;
    }

    /// Moves by a signed step, clamping each coordinate at zero.
    pub fn set_xy_rel(&mut self, dx: i16, dy: i16)
        requires
            old(self).rect.x + dx <= u32::MAX,
            old(self).rect.y + dy <= u32::MAX,
        ensures
            final(self).bg == old(self).bg,
            final(self).rect == (Rect {
                x: (if old(self).rect.x + dx < 0 {
                    0
                } else {
                    old(self).rect.x + dx
                }) as u32,
                y: (if old(self).rect.y + dy < 0 {
                    0
                } else {
                    old(self).rect.y + dy
                }) as u32,
                ..old(self).rect
            }),
    {
        let mut x: i64 = self.rect.x as i64 + dx as i64;
        let mut y: i64 = self.rect.y as i64 + dy as i64;
        if x < 0 {
            x = 0;
        }
        if y < 0 {
            y = 0;
        }
        self.set_xy(x as u32, y as u32);
    }

    pub fn xy_rel(self, dx: i16, dy: i16) -> (r: Self)
        requires
            self.rect.x + dx <= u32::MAX,
            self.rect.y + dy <= u32::MAX,
        ensures
            r.bg == self.bg,
            r.rect == (Rect {
                x: (if self.rect.x + dx < 0 {
                    0
                } else {
                    self.rect.x + dx
                }) as u32,
                y: (if self.rect.y + dy < 0 {
                    0
                } else {
                    self.rect.y + dy
                }) as u32,
                ..self.rect
            }),
    {
        let mut s = self;
        s.set_xy_rel(dx, dy);
        s
    }

    pub fn width(&self) -> (r: u32)
        ensures
            r == self.rect.width,
    {
        self.rect.width
    }

    pub fn height(&self) -> (r: u32)
        ensures
            r == self.rect.height,
    {
        self.rect.height
    }

    pub fn x(&self) -> (r: u32)
        ensures
            r == self.rect.x,
    {
        self.rect.x
    }

    pub fn y(&self) -> (r: u32)
        ensures
            r == self.rect.y,
    {
        self.rect.y
    }

    /// Where `set_position` puts this rect inside `rect`: an absolute
    /// coordinate is offset by `rect`'s own origin; centering is computed
    /// from the two midpoints.
    pub open spec fn spec_positioned(self, rect: Rect, pos: Position) -> Rect {
        match pos {
            Position::Coord(x, y) => Rect {
                x: (rect.x + x) as u32,
                y: (rect.y + y) as u32,
                ..self.rect
            },
            Position::CenterH => Rect {
                x: (rect.width / 2 - self.rect.width / 2) as u32,
                ..self.rect
            },
            Position::CenterV => Rect {
                y: (rect.height / 2 - self.rect.height / 2) as u32,
                ..self.rect
            },
            Position::CenterB => Rect {
                x: (rect.width / 2 - self.rect.width / 2) as u32,
                y: (rect.height / 2 - self.rect.height / 2) as u32,
                ..self.rect
            },
        }
    }

    pub fn set_position(&mut self, rect: Rect, pos: Position)
        requires
            match pos {
                Position::Coord(x, y) => rect.x + x <= u32::MAX && rect.y + y <= u32::MAX,
                _ => old(self).rect.width / 2 <= rect.width / 2 && old(self).rect.height / 2
                    <= rect.height / 2,
            },
        ensures
            final(self).bg == old(self).bg,
            final(self).rect == old(self).spec_positioned(rect, pos),
    {
        match pos {
            Position::Coord(x, y) => self.set_xy(rect.x + x, rect.y + y),
            _ => {
                let (x, y) = rect.get_center_start_pos(self.rect);
                match pos {
                    Position::CenterB => self.set_xy(x, y),
                    Position::CenterH => {
                        let sy = self.rect.y;
                        self.set_xy(x, sy);
                    },
                    _ => {
                        let sx = self.rect.x;
                        self.set_xy(sx, y);
                    },
                }
            },
        }
    }

    pub fn position(self, rect: Rect, pos: Position) -> (r: Self)
        requires
            match pos {
                Position::Coord(x, y) => rect.x + x <= u32::MAX && rect.y + y <= u32::MAX,
                _ => self.rect.width / 2 <= rect.width / 2 && self.rect.height / 2 <= rect.height
                    / 2,
            },
        ensures
            r.bg == self.bg,
            r.rect == self.spec_positioned(rect, pos),
    {
        let mut s = self;
        s.set_position(rect, pos);
        s
    }
}

impl Default for Rectangle {
    fn default() -> (r: Self)
        ensures
            r.rect == (Rect { x: 0, y: 0, width: 0, height: 0 }),
            r.bg == Color::Reset,
    {
        Rectangle::new(0, 0, 0, 0)
    }
}

impl Element for Rectangle {
    open spec fn fits(&self, buf: &Buffer) -> bool {
        &&& self.rect.x + self.rect.width <= buf.scroll.width
        &&& self.rect.y + self.rect.height <= buf.scroll.height
    }

    open spec fn drawn(&self, old_buf: Buffer, new_buf: Buffer) -> bool {
        forall|k: int|
            0 <= k < old_buf.content@.len() ==> new_buf.content@[k] == rect_painted_cell(
                old_buf.content@,
                old_buf.scroll.width as int,
                self.rect,
                self.bg,
                k,
            )
    }

    /// Paints the background of every cell inside the rect, addressed
    /// virtual-absolute (ignoring the pan).
    fn draw(&self, buf: &mut Buffer) {
        let mut y: u32 = 0;
        while y < self.rect.height
            invariant
                buf.wf(),
                old(buf).wf(),
                self.fits(old(buf)),
                buf.frame() == old(buf).frame(),
                buf.content@.len() == old(buf).content@.len(),
                y <= self.rect.height,
                forall|k: int|
                    0 <= k < buf.content@.len() ==> buf.content@[k] == rect_painted_upto(
                        old(buf).content@,
                        old(buf).scroll.width as int,
                        self.rect,
                        self.bg,
                        y as int,
                        0,
                        k,
                    ),
            decreases self.rect.height - y,
        {
            let mut x: u32 = 0;
            while x < self.rect.width
                invariant
                    buf.wf(),
                    old(buf).wf(),
                    self.fits(old(buf)),
                    buf.frame() == old(buf).frame(),
                    buf.content@.len() == old(buf).content@.len(),
                    y < self.rect.height,
                    x <= self.rect.width,
                    forall|k: int|
                        0 <= k < buf.content@.len() ==> buf.content@[k] == rect_painted_upto(
                            old(buf).content@,
                            old(buf).scroll.width as int,
                            self.rect,
                            self.bg,
                            y as int,
                            x as int,
                            k,
                        ),
                decreases self.rect.width - x,
            {
                let ghost prev = buf.content@;
                buf.paint_bg_vir(self.rect.x + x, self.rect.y + y, self.bg);
                proof {
                    let w = old(buf).scroll.width as int;
                    let h = old(buf).scroll.height as int;
                    assert(w == 0 ==> w * h == 0) by (nonlinear_arith);
                    let gi = old(buf).vir_idx((self.rect.x + x) as int, (self.rect.y + y) as int);
                    lemma_flat_coords(w, (self.rect.x + x) as int, (self.rect.y + y) as int);
                    old(buf).lemma_vir_idx_in_bounds(
                        (self.rect.x + x) as int,
                        (self.rect.y + y) as int,
                    );
                    assert(prev[gi] == rect_painted_upto(
                        old(buf).content@,
                        w,
                        self.rect,
                        self.bg,
                        y as int,
                        x as int,
                        gi,
                    ));
                    assert(prev[gi] == old(buf).content@[gi]);
                    assert(buf.content@[gi] == (Cell { bg: self.bg, ..prev[gi] }));
                    assert forall|k: int|
                        0 <= k < buf.content@.len() implies buf.content@[k] == rect_painted_upto(
                        old(buf).content@,
                        w,
                        self.rect,
                        self.bg,
                        y as int,
                        x as int + 1,
                        k,
                    ) by {
                        lemma_fundamental_div_mod(k, w);
                        assert(prev[k] == rect_painted_upto(
                            old(buf).content@,
                            w,
                            self.rect,
                            self.bg,
                            y as int,
                            x as int,
                            k,
                        ));
                        if k != gi {
                            assert(buf.content@[k] == prev[k]);
                            let vx = k % w;
                            let vy = k / w;
                            if self.rect.x <= vx < self.rect.x + self.rect.width && self.rect.y
                                <= vy && vy - self.rect.y == y && vx - self.rect.x == x {
                                assert(k == w * vy + vx);
                                assert(w * vy == vy * w) by (nonlinear_arith);
                                assert(gi == vy * w + vx);
                                assert(false);
                            }
                        }
                    }
                }
                x = x + 1;
            }
            y = y + 1;
        }
    }
}

} // verus!
