//! Text drawn into a buffer: characters placed left to right from a start
//! offset, flowing into subsequent rows; a newline in the source ends the
//! current row early and drawing continues at column zero of the next one.

use vstd::prelude::*;

use vstd::arithmetic::div_mod::lemma_fundamental_div_mod;

use crate::buffer::{lemma_flat_coords, Buffer};
use crate::cell::{Attribute, Cell, Color};
use crate::elements::Element;
use crate::rect::Rect;
use crate::window::Position;

verus! {

/// Relies on `String::push`: appends the given character to the end of the
/// string.
#[verifier::external_body]
fn push_char(s: &mut String, c: char)
    ensures
        final(s)@ == old(s)@.push(c),
{
    s.push(c);
}

/// Splits one row off a text: up to `cap` characters are placed, stopping
/// early at a newline. Yields the placed characters, whether a newline
/// ended the row (consuming it), and the unconsumed remainder.
pub open spec fn take_row(text: Seq<char>, cap: int) -> (Seq<char>, bool, Seq<char>)
    decreases cap,
{
    if text.len() == 0 {
        (Seq::empty(), false, text)
    } else if text[0] == '\n' {
        (Seq::empty(), true, text.skip(1))
    } else if cap <= 0 {
        (Seq::empty(), false, text)
    } else {
        let r = take_row(text.skip(1), cap - 1);
        (seq![text[0]] + r.0, r.1, r.2)
    }
}

/// Accounting facts about `take_row`: the row fits the cap, a newline row
/// is strictly shorter than the cap, and the remainder is the text with
/// the consumed prefix skipped.
pub proof fn lemma_take_row_props(text: Seq<char>, cap: int)
    ensures
        ({
            let r = take_row(text, cap);
            &&& r.0.len() <= if cap >= 0 {
                cap
            } else {
                0
            }
            &&& r.0.len() + (if r.1 {
                1int
            } else {
                0
            }) <= text.len()
            &&& r.2 == text.skip(r.0.len() + (if r.1 {
                1int
            } else {
                0
            }))
        }),
    decreases cap,
{
    if text.len() == 0 || (text[0] != '\n' && cap <= 0) {
        assert(text.skip(0) =~= text);
    } else if text[0] == '\n' {
    } else {
        lemma_take_row_props(text.skip(1), cap - 1);
        let r = take_row(text.skip(1), cap - 1);
        let n = r.0.len() + (if r.1 {
            1int
        } else {
            0
        });
        assert(text.skip(1).skip(n) =~= text.skip(n + 1));
    }
}

/// The cell at flat index `k` after one row of text has been scanned: on
/// row `y`, columns `x0` up to the scan end get the foreground color, and
/// the first `row.len()` of them also get a glyph and the attribute. The
/// scan ends right after a consumed newline, or at `end_x` otherwise.
pub open spec fn row_painted_cell(
    content: Seq<Cell>,
    w: int,
    x0: int,
    end_x: int,
    y: int,
    row: Seq<char>,
    nl: bool,
    fg: Color,
    attr: Attribute,
    k: int,
) -> Cell {
    let vx = k % w;
    let vy = k / w;
    let scan_len: int = if nl && row.len() + 1 <= end_x - x0 {
        row.len() + 1int
    } else {
        end_x - x0
    };
    if vy == y && x0 <= vx < x0 + scan_len {
        if vx - x0 < row.len() {
            Cell { fg, attr, symbol: row[vx - x0], bg: content[k].bg }
        } else {
            Cell { fg, ..content[k] }
        }
    } else {
        content[k]
    }
}

/// The whole contents after one scanned row.
pub open spec fn row_painted(
    content: Seq<Cell>,
    w: int,
    x0: int,
    end_x: int,
    y: int,
    row: Seq<char>,
    nl: bool,
    fg: Color,
    attr: Attribute,
) -> Seq<Cell> {
    Seq::new(
        content.len(),
        |k: int| row_painted_cell(content, w, x0, end_x, y, row, nl, fg, attr, k),
    )
}

/// The contents after the rows from `rr` on have been drawn: each row
/// takes its characters off the front of the remaining text and paints
/// them at its own line, the first row starting at `start_x`, later rows
/// at column zero.
pub open spec fn rows_painted(
    content: Seq<Cell>,
    w: int,
    rect: Rect,
    text: Seq<char>,
    start_x: int,
    start_y: int,
    rr: int,
    fg: Color,
    attr: Attribute,
) -> Seq<Cell>
    decreases rect.height - start_y - rr,
{
    if start_y + rr >= rect.height || rr < 0 {
        content
    } else {
        let x0: int = rect.x + (if rr == 0 {
            start_x
        } else {
            0
        });
        let y: int = rect.y + start_y + rr;
        let r = take_row(text, rect.x + rect.width - x0);
        let painted = row_painted(
            content,
            w,
            x0,
            rect.x + rect.width,
            y,
            r.0,
            r.1,
            fg,
            attr,
        );
        rows_painted(painted, w, rect, r.2, start_x, start_y, rr + 1, fg, attr)
    }
}

/// The rect a default text of `len` characters occupies after being
/// placed at `pos` within the extent `own`: one row high, `len` wide,
/// offset absolutely or centered against `own`.
pub open spec fn spec_placed_rect(len: u32, own: Rect, pos: Position) -> Rect {
    match pos {
        Position::Coord(x, y) => Rect {
            x: (own.x + x) as u32,
            y: (own.y + y) as u32,
            width: len,
            height: 1,
        },
        Position::CenterH => Rect {
            x: (own.width / 2 - len / 2) as u32,
            y: 0,
            width: len,
            height: 1,
        },
        Position::CenterV => Rect { x: 0, y: (own.height / 2) as u32, width: len, height: 1 },
        Position::CenterB => Rect {
            x: (own.width / 2 - len / 2) as u32,
            y: (own.height / 2) as u32,
            width: len,
            height: 1,
        },
    }
}

/// A text element: a rect in the target's virtual space, a style, the
/// string to place, and the offset within the rect where placement starts.
#[derive(Debug)]
pub struct Text {
    pub rect: Rect,
    pub fg: Color,
    pub attr: Attribute,
    pub text: String,
    pub start_text: (u32, u32),
}

impl Text {
    pub fn new(x: u32, y: u32, width: u32, height: u32) -> (r: Self)
        ensures
            r.rect == (Rect { x, y, width, height }),
            r.fg == Color::Reset,
            r.attr == Attribute::Reset,
            r.text@ == Seq::<char>::empty(),
            r.start_text == (0u32, 0u32),
    {
        Text {
            rect: Rect::new(x, y, width, height),
            fg: Color::Reset,
            attr: Attribute::Reset,
            text: String::new(),
            start_text: (0, 0),
        }
    }

    pub fn rect(&self) -> (r: Rect)
        ensures
            r == self.rect,
    {
        self.rect
    }

    pub fn set_fg(&mut self, fg: Color)
        ensures
            *final(self) == (Text { fg, ..*old(self) }),
    {
        self.fg = fg;
    }

    pub fn fg(self, fg: Color) -> (r: Self)
        ensures
            r == (Text { fg, ..self }),
    {
        Text { fg, ..self }
    }

    pub fn set_attr(&mut self, attr: Attribute)
        ensures
            *final(self) == (Text { attr, ..*old(self) }),
    {
        self.attr = attr;
    }

    pub fn attr(self, attr: Attribute) -> (r: Self)
        ensures
            r == (Text { attr, ..self }),
    {
        Text { attr, ..self }
    }

    pub fn start_text(self, start_text: (u32, u32)) -> (r: Self)
        ensures
            r == (Text { start_text, ..self }),
    {
        Text { start_text, ..self }
    }

    pub fn set_start_text(&mut self, start_text: (u32, u32))
        ensures
            *final(self) == (Text { start_text, ..*old(self) }),
    {
        self.start_text = start_text;
    }

    /// Replaces the text; a zero width grows to the text's length, a zero
    /// height to one row.
    pub fn set_text(&mut self, text: &str)
        requires
            text@.len() <= u32::MAX,
        ensures
            final(self).text@ == text@,
            final(self).rect == (Rect {
                width: if old(self).rect.width == 0 {
                    text@.len() as u32
                } else {
                    old(self).rect.width
                },
                height: if old(self).rect.height == 0 {
                    1u32
                } else {
                    old(self).rect.height
                },
                ..old(self).rect
            }),
            final(self).fg == old(self).fg,
            final(self).attr == old(self).attr,
            final(self).start_text == old(self).start_text,
    {
        self.text = text.to_owned();
        if self.rect.width == 0 {
            self.rect.width = self.text.as_str().unicode_len() as u32;
        }
        if self.rect.height == 0 {
            self.rect.height = 1;
        }
    }

    /// Builder form of `set_text`.
    pub fn text(self, text: &str) -> (r: Self)
        requires
            text@.len() <= u32::MAX,
        ensures
            r.text@ == text@,
            r.rect == (Rect {
                width: if self.rect.width == 0 {
                    text@.len() as u32
                } else {
                    self.rect.width
                },
                height: if self.rect.height == 0 {
                    1u32
                } else {
                    self.rect.height
                },
                ..self.rect
            }),
            r.fg == self.fg,
            r.attr == self.attr,
            r.start_text == self.start_text,
    {
        let mut s = self;
        s.set_text(text);
        s
    }

    /// Shrinks the rect's width to the text's length; a zero height grows
    /// to one row.
    pub fn width_fit(&mut self)
        requires
            old(self).text@.len() <= u32::MAX,
        ensures
            final(self).rect == (Rect {
                width: old(self).text@.len() as u32,
                height: if old(self).rect.height == 0 {
                    1u32
                } else {
                    old(self).rect.height
                },
                ..old(self).rect
            }),
            final(self).text == old(self).text,
            final(self).fg == old(self).fg,
            final(self).attr == old(self).attr,
            final(self).start_text == old(self).start_text,
    {
        self.rect.width = self.text.as_str().unicode_len() as u32;
        if self.rect.height == 0 {
            self.rect.height = 1;
        }
    }

    /// Appends a whole string to the text.
    pub fn push_string(&mut self, s: String)
        ensures
            final(self).text@ == old(self).text@ + s@,
            final(self).rect == old(self).rect,
            final(self).fg == old(self).fg,
            final(self).attr == old(self).attr,
            final(self).start_text == old(self).start_text,
    {
        self.text.append(s.as_str());
    }

    /// Truncates the text to its first `idx` characters.
    pub fn chop_after(&mut self, idx: usize)
        requires
            idx <= old(self).text@.len(),
        ensures
            final(self).text@ == old(self).text@.take(idx as int),
            final(self).rect == old(self).rect,
            final(self).fg == old(self).fg,
            final(self).attr == old(self).attr,
            final(self).start_text == old(self).start_text,
    {
        self.text = self.text.as_str().substring_char(0, idx).to_owned();
        proof {
            assert(old(self).text@.subrange(0, idx as int) =~= old(self).text@.take(idx as int));
        }
    }

    /// Inserts a character at the given character index.
    pub fn add_char_at(&mut self, idx: usize, ch: char)
        requires
            idx <= old(self).text@.len(),
        ensures
            final(self).text@ == old(self).text@.insert(idx as int, ch),
            final(self).rect == old(self).rect,
            final(self).fg == old(self).fg,
            final(self).attr == old(self).attr,
            final(self).start_text == old(self).start_text,
    {
        let n = self.text.as_str().unicode_len();
        let mut head = self.text.as_str().substring_char(0, idx).to_owned();
        push_char(&mut head, ch);
        head.append(self.text.as_str().substring_char(idx, n));
        self.text = head;
        proof {
            assert(final(self).text@ =~= old(self).text@.insert(idx as int, ch));
        }
    }

    /// Inserts a whole string at the given character index.
    pub fn insert_str_at(&mut self, idx: usize, s: &str)
        requires
            idx <= old(self).text@.len(),
        ensures
            final(self).text@ == old(self).text@.take(idx as int) + s@ + old(self).text@.skip(
                idx as int,
            ),
            final(self).rect == old(self).rect,
            final(self).fg == old(self).fg,
            final(self).attr == old(self).attr,
            final(self).start_text == old(self).start_text,
    {
        let n = self.text.as_str().unicode_len();
        let mut head = self.text.as_str().substring_char(0, idx).to_owned();
        head.append(s);
        head.append(self.text.as_str().substring_char(idx, n));
        self.text = head;
        proof {
            assert(final(self).text@ =~= old(self).text@.take(idx as int) + s@ + old(
                self,
            ).text@.skip(idx as int));
        }
    }

    /// Removes the character at the given character index; an empty text
    /// is left alone.
    pub fn remove_char_at(&mut self, idx: usize)
        requires
            old(self).text@.len() == 0 || idx < old(self).text@.len(),
        ensures
            final(self).text@ == if old(self).text@.len() == 0 {
                old(self).text@
            } else {
                old(self).text@.remove(idx as int)
            },
            final(self).rect == old(self).rect,
            final(self).fg == old(self).fg,
            final(self).attr == old(self).attr,
            final(self).start_text == old(self).start_text,
    {
        let n = self.text.as_str().unicode_len();
        if n == 0 {
            return ;
        }
        let mut head = self.text.as_str().substring_char(0, idx).to_owned();
        head.append(self.text.as_str().substring_char(idx + 1, n));
        self.text = head;
        proof {
            assert(final(self).text@ =~= old(self).text@.remove(idx as int));
        }
    }

    pub fn get_text(&self) -> (r: &str)
        ensures
            r@ == self.text@,
    {
        self.text.as_str()
    }

    pub fn xy(self, x: u32, y: u32) -> (r: Self)
        ensures
            r == (Text { rect: Rect { x, y, ..self.rect }, ..self }),
    {
        let mut s = self;
        s.set_xy(x, y);
        s
    }

    pub fn size(self, width: u32, height: u32) -> (r: Self)
        ensures
            r == (Text { rect: Rect { width, height, ..self.rect }, ..self }),
    {
        let mut s = self;
        s.set_size(width, height);
        s
    }

    pub fn set_xy(&mut self, x: u32, y: u32)
        ensures
            *final(self) == (Text { rect: Rect { x, y, ..old(self).rect }, ..*old(self) }),
    {
        self.rect.x = x;
        self.rect.y = y;
    }

    pub fn set_size(&mut self, width: u32, height: u32)
        ensures
            *final(self) == (Text {
                rect: Rect { width, height, ..old(self).rect },
                ..*old(self)
            }),
    {
        self.rect.width = width;
        self.rect.height = height;
    }

    /// Moves by a signed step, clamping each coordinate at zero.
    pub fn set_xy_rel(&mut self, dx: i16, dy: i16)
        requires
            old(self).rect.x + dx <= u32::MAX,
            old(self).rect.y + dy <= u32::MAX,
        ensures
            *final(self) == (Text {
                rect: Rect {
                    x: (if old(self).rect.x + dx < 0 {
                        0
                    } else {
                        old(self).rect.x + dx
                    }) as u32,
                    y: (if old(self).rect.y + dy < 0 {
                        0
                    } else {
                        old(self).rect.y + dy
                    }) as u32,
                    ..old(self).rect
                },
                ..*old(self)
            }),
    {
        let mut x: i64 = self.rect.x as i64 + dx as i64;
        let mut y: i64 = self.rect.y as i64 + dy as i64;
        if x < 0 {
            x = 0;
        }
        if y < 0 {
            y = 0;
        }
        self.set_xy(x as u32, y as u32);
    }

    pub fn xy_rel(self, dx: i16, dy: i16) -> (r: Self)
        requires
            self.rect.x + dx <= u32::MAX,
            self.rect.y + dy <= u32::MAX,
        ensures
            r == (Text {
                rect: Rect {
                    x: (if self.rect.x + dx < 0 {
                        0
                    } else {
                        self.rect.x + dx
                    }) as u32,
                    y: (if self.rect.y + dy < 0 {
                        0
                    } else {
                        self.rect.y + dy
                    }) as u32,
                    ..self.rect
                },
                ..self
            }),
    {
        let mut s = self;
        s.set_xy_rel(dx, dy);
        s
    }

    pub fn width(&self) -> (r: u32)
        ensures
            r == self.rect.width,
    {
        self.rect.width
    }

    pub fn height(&self) -> (r: u32)
        ensures
            r == self.rect.height,
    {
        self.rect.height
    }

    pub fn x(&self) -> (r: u32)
        ensures
            r == self.rect.x,
    {
        self.rect.x
    }

    pub fn y(&self) -> (r: u32)
        ensures
            r == self.rect.y,
    {
        self.rect.y
    }

    /// Where `set_position` puts this rect inside `rect`: as for the
    /// rectangle element.
    pub open spec fn spec_positioned(self, rect: Rect, pos: Position) -> Rect {
        match pos {
            Position::Coord(x, y) => Rect {
                x: (rect.x + x) as u32,
                y: (rect.y + y) as u32,
                ..self.rect
            },
            Position::CenterH => Rect { x: (rect.width / 2 - self.rect.width / 2) as u32, ..self.rect },
            Position::CenterV => Rect {
                y: (rect.height / 2 - self.rect.height / 2) as u32,
                ..self.rect
            },
            Position::CenterB => Rect {
                x: (rect.width / 2 - self.rect.width / 2) as u32,
                y: (rect.height / 2 - self.rect.height / 2) as u32,
                ..self.rect
            },
        }
    }

    pub fn set_position(&mut self, rect: Rect, pos: Position)
        requires
            match pos {
                Position::Coord(x, y) => rect.x + x <= u32::MAX && rect.y + y <= u32::MAX,
                _ => old(self).rect.width / 2 <= rect.width / 2 && old(self).rect.height / 2
                    <= rect.height / 2,
            },
        ensures
            final(self).rect == old(self).spec_positioned(rect, pos),
            final(self).fg == old(self).fg,
            final(self).attr == old(self).attr,
            final(self).text == old(self).text,
            final(self).start_text == old(self).start_text,
    {
        match pos {
            Position::Coord(x, y) => self.set_xy(rect.x + x, rect.y + y),
            _ => {
                let (x, y) = rect.get_center_start_pos(self.rect);
                match pos {
                    Position::CenterB => self.set_xy(x, y),
                    Position::CenterH => {
                        let sy = self.rect.y;
                        self.set_xy(x, sy);
                    },
                    _ => {
                        let sx = self.rect.x;
                        self.set_xy(sx, y);
                    },
                }
            },
        }
    }

    pub fn position(self, rect: Rect, pos: Position) -> (r: Self)
        requires
            match pos {
                Position::Coord(x, y) => rect.x + x <= u32::MAX && rect.y + y <= u32::MAX,
                _ => self.rect.width / 2 <= rect.width / 2 && self.rect.height / 2 <= rect.height
                    / 2,
            },
        ensures
            r.rect == self.spec_positioned(rect, pos),
            r.fg == self.fg,
            r.attr == self.attr,
            r.text == self.text,
            r.start_text == self.start_text,
    {
        let mut s = self;
        s.set_position(rect, pos);
        s
    }
}

impl Default for Text {
    fn default() -> (r: Self)
        ensures
            r.rect == (Rect { x: 0, y: 0, width: 0, height: 0 }),
            r.fg == Color::Reset,
            r.attr == Attribute::Reset,
            r.text@ == Seq::<char>::empty(),
            r.start_text == (0u32, 0u32),
    {
        Text::new(0, 0, 0, 0)
    }
}

/// The characters of a string, in order.
fn chars_of(s: &str) -> (v: Vec<char>)
    ensures
        v@ == s@,
{
    let n = s.unicode_len();
    let mut v: Vec<char> = Vec::new();
    let mut i: usize = 0;
    while i < n
        invariant
            n == s@.len(),
            i <= n,
            v@ == s@.take(i as int),
        decreases n - i,
    {
        let c = s.get_char(i);
        v.push(c);
        proof {
            assert(v@ =~= s@.take(i as int + 1));
        }
        i = i + 1;
    }
    proof {
        assert(s@.take(n as int) =~= s@);
    }
    v
}

/// Scans one row from absolute column `x0` to `end_x` on line `y`,
/// placing characters from `chars` starting at index `ti`; returns the
/// index of the first unconsumed character.
fn draw_row(
    buf: &mut Buffer,
    chars: &Vec<char>,
    ti: usize,
    x0: u32,
    end_x: u32,
    y: u32,
    fg: Color,
    attr: Attribute,
) -> (ti2: usize)
    requires
        old(buf).wf(),
        x0 <= end_x,
        end_x <= old(buf).scroll.width,
        y < old(buf).scroll.height,
        ti <= chars@.len(),
    ensures
        final(buf).wf(),
        final(buf).frame() == old(buf).frame(),
        final(buf).content@.len() == old(buf).content@.len(),
        ({
            let r = take_row(chars@.skip(ti as int), end_x - x0);
            &&& ti2 == ti + r.0.len() + (if r.1 {
                1int
            } else {
                0
            })
            &&& chars@.skip(ti2 as int) == r.2
            &&& final(buf).content@ == row_painted(
                old(buf).content@,
                old(buf).scroll.width as int,
                x0 as int,
                end_x as int,
                y as int,
                r.0,
                r.1,
                fg,
                attr,
            )
        }),
    decreases end_x - x0,
{
    proof {
        lemma_take_row_props(chars@.skip(ti as int), end_x - x0);
    }
    if x0 == end_x {
        let mut consumed: usize = 0;
        if ti < chars.len() {
            let ch = chars[ti];
            if ch == '\n' {
                consumed = 1;
            }
        }
        proof {
            let r = take_row(chars@.skip(ti as int), 0);
            assert(chars@.skip(ti as int).skip(0) =~= chars@.skip(ti as int));
            if (ti as int) < chars@.len() {
                assert(chars@.skip(ti as int).skip(1) =~= chars@.skip(ti as int + 1));
            }
            assert(buf.content@ =~= row_painted(
                old(buf).content@,
                old(buf).scroll.width as int,
                x0 as int,
                end_x as int,
                y as int,
                r.0,
                r.1,
                fg,
                attr,
            ));
        }
        return ti + consumed;
    }
    let ghost w = old(buf).scroll.width as int;
    let ghost gi = old(buf).vir_idx(x0 as int, y as int);
    proof {
        old(buf).lemma_vir_idx_in_bounds(x0 as int, y as int);
        lemma_flat_coords(w, x0 as int, y as int);
    }
    buf.paint_fg_vir(x0, y, fg);
    if ti < chars.len() {
        let ch = chars[ti];
        if ch == '\n' {
            proof {
                assert(chars@.skip(ti as int)[0] == '\n');
                assert(chars@.skip(ti as int).skip(1) =~= chars@.skip(ti as int + 1));
                assert forall|k: int| 0 <= k < buf.content@.len() implies buf.content@[k]
                    == row_painted_cell(
                    old(buf).content@,
                    w,
                    x0 as int,
                    end_x as int,
                    y as int,
                    Seq::empty(),
                    true,
                    fg,
                    attr,
                    k,
                ) by {
                    lemma_fundamental_div_mod(k, w);
                    if k != gi {
                        let vx = k % w;
                        let vy = k / w;
                        if vy == y && vx == x0 {
                            assert(k == w * vy + vx);
                            assert(w * vy == vy * w) by (nonlinear_arith);
                            assert(false);
                        }
                    }
                }
                assert(buf.content@ =~= row_painted(
                    old(buf).content@,
                    w,
                    x0 as int,
                    end_x as int,
                    y as int,
                    Seq::empty(),
                    true,
                    fg,
                    attr,
                ));
            }
            return ti + 1;
        }
        let ghost mid = buf.content@;
        buf.paint_sym_vir(x0, y, ch, attr);
        let ghost mid2 = buf.content@;
        let ti2 = draw_row(buf, chars, ti + 1, x0 + 1, end_x, y, fg, attr);
        proof {
            let tail = chars@.skip(ti as int + 1);
            assert(chars@.skip(ti as int).skip(1) =~= tail);
            assert(chars@.skip(ti as int)[0] == ch);
            let r1 = take_row(tail, end_x - x0 - 1);
            let r = take_row(chars@.skip(ti as int), end_x - x0);
            assert(r.0 == seq![ch] + r1.0 && r.1 == r1.1 && r.2 == r1.2);
            lemma_take_row_props(tail, end_x - x0 - 1);
            assert(mid2[gi] == (Cell {
                fg,
                attr,
                symbol: ch,
                bg: old(buf).content@[gi].bg,
            }));
            assert forall|k: int| 0 <= k < buf.content@.len() implies buf.content@[k]
                == row_painted_cell(
                old(buf).content@,
                w,
                x0 as int,
                end_x as int,
                y as int,
                r.0,
                r.1,
                fg,
                attr,
                k,
            ) by {
                lemma_fundamental_div_mod(k, w);
                let vx = k % w;
                let vy = k / w;
                assert(buf.content@[k] == row_painted_cell(
                    mid2,
                    w,
                    x0 as int + 1,
                    end_x as int,
                    y as int,
                    r1.0,
                    r1.1,
                    fg,
                    attr,
                    k,
                ));
                if k == gi {
                    assert(vx == x0 && vy == y);
                    assert(buf.content@[k] == mid2[k]);
                } else {
                    assert(mid2[k] == old(buf).content@[k]);
                    if vy == y && vx == x0 {
                        assert(k == w * vy + vx);
                        assert(w * vy == vy * w) by (nonlinear_arith);
                        assert(false);
                    }
                }
            }
            assert(buf.content@ =~= row_painted(
                old(buf).content@,
                w,
                x0 as int,
                end_x as int,
                y as int,
                r.0,
                r.1,
                fg,
                attr,
            ));
        }
        ti2
    } else {
        let ghost mid2 = buf.content@;
        let ti2 = draw_row(buf, chars, ti, x0 + 1, end_x, y, fg, attr);
        proof {
            let s = chars@.skip(ti as int);
            assert(s.len() == 0);
            let r = take_row(s, end_x - x0);
            let r1 = take_row(s, end_x - x0 - 1);
            assert(r.0 =~= Seq::<char>::empty());
            assert(r1.0 =~= Seq::<char>::empty());
            assert forall|k: int| 0 <= k < buf.content@.len() implies buf.content@[k]
                == row_painted_cell(
                old(buf).content@,
                w,
                x0 as int,
                end_x as int,
                y as int,
                r.0,
                r.1,
                fg,
                attr,
                k,
            ) by {
                lemma_fundamental_div_mod(k, w);
                let vx = k % w;
                let vy = k / w;
                assert(buf.content@[k] == row_painted_cell(
                    mid2,
                    w,
                    x0 as int + 1,
                    end_x as int,
                    y as int,
                    r1.0,
                    r1.1,
                    fg,
                    attr,
                    k,
                ));
                if k == gi {
                    assert(vx == x0 && vy == y);
                    assert(buf.content@[k] == mid2[k]);
                } else {
                    assert(mid2[k] == old(buf).content@[k]);
                    if vy == y && vx == x0 {
                        assert(k == w * vy + vx);
                        assert(w * vy == vy * w) by (nonlinear_arith);
                        assert(false);
                    }
                }
            }
            assert(buf.content@ =~= row_painted(
                old(buf).content@,
                w,
                x0 as int,
                end_x as int,
                y as int,
                r.0,
                r.1,
                fg,
                attr,
            ));
        }
        ti2
    }
}

/// Draws the rows from `rr` on, threading the character index through the
/// successive rows.
fn draw_rows(
    t: &Text,
    buf: &mut Buffer,
    chars: &Vec<char>,
    ti: usize,
    rr: u32,
)
    requires
        old(buf).wf(),
        t.rect.x + t.rect.width <= old(buf).scroll.width,
        t.rect.y + t.rect.height <= old(buf).scroll.height,
        t.start_text.0 <= t.rect.width,
        t.start_text.1 <= t.rect.height,
        rr <= t.rect.height,
        ti <= chars@.len(),
    ensures
        final(buf).wf(),
        final(buf).frame() == old(buf).frame(),
        final(buf).content@.len() == old(buf).content@.len(),
        final(buf).content@ == rows_painted(
            old(buf).content@,
            old(buf).scroll.width as int,
            t.rect,
            chars@.skip(ti as int),
            t.start_text.0 as int,
            t.start_text.1 as int,
            rr as int,
            t.fg,
            t.attr,
        ),
    decreases t.rect.height - rr,
{
    if t.start_text.1 as u64 + rr as u64 >= t.rect.height as u64 {
        return ;
    }
    let x0: u32 = t.rect.x + (if rr == 0 {
        t.start_text.0
    } else {
        0
    });
    let y: u32 = t.rect.y + t.start_text.1 + rr;
    let end_x: u32 = t.rect.x + t.rect.width;
    proof {
        lemma_take_row_props(chars@.skip(ti as int), end_x - x0);
    }
    let ti2 = draw_row(buf, chars, ti, x0, end_x, y, t.fg, t.attr);
    draw_rows(t, buf, chars, ti2, rr + 1);
}

impl Element for Text {
    open spec fn fits(&self, buf: &Buffer) -> bool {
        &&& self.rect.x + self.rect.width <= buf.scroll.width
        &&& self.rect.y + self.rect.height <= buf.scroll.height
        &&& self.start_text.0 <= self.rect.width
        &&& self.start_text.1 <= self.rect.height
    }

    open spec fn drawn(&self, old_buf: Buffer, new_buf: Buffer) -> bool {
        new_buf.content@ == rows_painted(
            old_buf.content@,
            old_buf.scroll.width as int,
            self.rect,
            self.text@,
            self.start_text.0 as int,
            self.start_text.1 as int,
            0,
            self.fg,
            self.attr,
        )
    }

    /// Places the characters row by row from the start offset, addressed
    /// virtual-absolute (ignoring the pan).
    fn draw(&self, buf: &mut Buffer) {
        let chars = chars_of(self.get_text());
        proof {
            assert(chars@.skip(0) =~= self.text@);
        }
        draw_rows(self, buf, &chars, 0, 0);
    }
}

} // verus!
