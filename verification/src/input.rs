//! A transient line/paragraph editor bound to one window of the tree: a
//! text value, a character-index cursor and a maximum length. Keys edit
//! the text; Enter and Escape finalize, hand the text back and detach the
//! widget's window from the tree.

use vstd::prelude::*;

use crate::cell::Cell;
use crate::elements::Element;
use crate::events::{Event, KeyCode};
use crate::text::{rows_painted, Text};
use crate::window::{Window, WindowRef, WindowTree};

verus! {

/// What handling one event produced: either the interaction goes on, or
/// it finished and this is the final text.
#[derive(Debug)]
pub enum EventResult {
    Continue,
    Return(String),
}

/// Whether an event finalizes the interaction.
pub open spec fn finishes(ev: Event) -> bool {
    ev matches Event::Key(KeyCode::Enter) || ev matches Event::Key(KeyCode::Esc)
}

/// The text after one non-finalizing event: a paste inserts at the cursor
/// and truncates to the maximum length; backspace removes before the
/// cursor; a character key inserts at the cursor while room remains.
pub open spec fn next_text(text: Seq<char>, cursor: int, max: int, ev: Event) -> Seq<char> {
    match ev {
        Event::Paste(s) => {
            let merged = text.take(cursor) + s@ + text.skip(cursor);
            if merged.len() > max {
                merged.take(max)
            } else {
                merged
            }
        },
        Event::Key(k) => match k {
            KeyCode::Backspace => if cursor > 0 {
                text.remove(cursor - 1)
            } else {
                text
            },
            KeyCode::Char(c) => if text.len() < max {
                text.insert(cursor, c)
            } else {
                text
            },
            _ => text,
        },
        _ => text,
    }
}

/// The cursor after one non-finalizing event, clamped to the text at both
/// ends.
pub open spec fn next_cursor(text: Seq<char>, cursor: int, max: int, ev: Event) -> int {
    match ev {
        Event::Paste(s) => if cursor + s@.len() > max {
            max
        } else {
            cursor + s@.len()
        },
        Event::Key(k) => match k {
            KeyCode::Backspace => if cursor > 0 {
                cursor - 1
            } else {
                0
            },
            KeyCode::Char(c) => if text.len() < max {
                cursor + 1
            } else {
                cursor
            },
            KeyCode::Left => if cursor > 0 {
                cursor - 1
            } else {
                0
            },
            KeyCode::Right => if cursor < text.len() {
                cursor + 1
            } else {
                cursor
            },
            _ => cursor,
        },
        _ => cursor,
    }
}

pub struct InputWindow {
    pub start_text: (u32, u32),
    pub max_len: usize,
    pub cursor_pos: usize,
    pub input_win: WindowRef,
    pub input_box: Text,
    pub abs_x: u32,
    pub abs_y: u32,
    pub rel_x: u32,
    pub rel_y: u32,
}

impl InputWindow {
    /// The widget's consistency against the tree it lives in: its window
    /// exists and is at least one cell wide, the cursor sits inside the
    /// text, the text fits the maximum, and the text box lies inside the
    /// window's surface.
    pub open spec fn wf(&self, t: &WindowTree) -> bool {
        &&& t.valid(self.input_win)
        &&& t.nodes@[self.input_win.idx as int].buffer.rect.width > 0
        &&& self.input_box.rect.height > 0
        &&& self.cursor_pos <= self.input_box.text@.len()
        &&& self.input_box.text@.len() <= self.max_len
        &&& self.max_len <= u32::MAX
        &&& self.input_box.fits(&t.nodes@[self.input_win.idx as int].buffer)
    }

    /// Builds the widget: attaches `win` as a new child of `parent`, sizes
    /// an empty text box to it and records the window's screen position.
    pub fn from(t: &mut WindowTree, parent: WindowRef, win: Window) -> (iw: InputWindow)
        requires
            old(t).wf(),
            old(t).valid(parent),
            win.detached(),
            win.buffer.rect.width > 0,
            win.buffer.rect.height > 0,
            old(t).spec_abs_top(parent.idx as int) + win.buffer.rect.y <= u32::MAX,
            old(t).spec_abs_left(parent.idx as int) + win.buffer.rect.x <= u32::MAX,
        ensures
            final(t).wf(),
            iw.wf(final(t)),
            final(t).nodes@.len() == old(t).nodes@.len() + 1,
            iw.input_win.idx == old(t).nodes@.len(),
            final(t).nodes@[iw.input_win.idx as int].buffer == win.buffer,
            final(t).nodes@[iw.input_win.idx as int].parent == Some(parent.idx),
            final(t).nodes@[parent.idx as int].sub_windows@ == old(
                t,
            ).nodes@[parent.idx as int].sub_windows@.push(iw.input_win.idx),
            forall|i: int|
                0 <= i < old(t).nodes@.len() && i != parent.idx ==> final(t).nodes@[i] == old(
                    t,
                ).nodes@[i],
            iw.input_box.text@ == Seq::<char>::empty(),
            iw.input_box.rect.width == win.buffer.rect.width,
            iw.input_box.rect.height == win.buffer.rect.height,
            iw.cursor_pos == 0,
            iw.max_len == 0,
            iw.abs_y == old(t).spec_abs_top(parent.idx as int) + win.buffer.rect.y,
            iw.abs_x == old(t).spec_abs_left(parent.idx as int) + win.buffer.rect.x,
            iw.rel_x == 0,
            iw.rel_y == 0,
    {
        proof {
            old(t).lemma_abs_pos_facts(parent.idx as int);
        }
        let (pay, pax) = t.abs_pos(parent);
        let abs_y = pay + win.buffer.top();
        let abs_x = pax + win.buffer.left();
        let input_win = t.new_child(parent, win);
        let w = t.width(input_win);
        let h = t.height(input_win);
        let input_box = Text::default().size(w, h);
        let mut iw = InputWindow {
            start_text: (0, 0),
            max_len: 0,
            input_box,
            cursor_pos: 0,
            input_win,
            abs_x,
            abs_y,
            rel_x: 0,
            rel_y: 0,
        };
        iw.update_rel_xy(t);
        proof {
            let ww = final(t).nodes@[iw.input_win.idx as int].buffer.rect.width as int;
            assert(0int % ww == 0 && 0int / ww == 0) by (nonlinear_arith)
                requires ww > 0;
        }
        iw
    }

    /// Builder: where the text starts inside the box.
    pub fn start_text(self, start_text: (u32, u32)) -> (r: Self)
        ensures
            r == (InputWindow { start_text, ..self }),
    {
        InputWindow { start_text, ..self }
    }

    /// Builder: the maximum number of characters the widget accepts.
    pub fn max_len(self, max_len: usize) -> (r: Self)
        requires
            self.input_box.text@.len() <= max_len,
            max_len <= u32::MAX,
        ensures
            r == (InputWindow { max_len, ..self }),
    {
        InputWindow { max_len, ..self }
    }

    /// Recomputes the cursor's position inside the window from the flat
    /// character index and the window's width.
    pub fn update_rel_xy(&mut self, t: &WindowTree)
        requires
            t.valid(old(self).input_win),
            t.nodes@[old(self).input_win.idx as int].buffer.rect.width > 0,
            old(self).cursor_pos <= u32::MAX,
        ensures
            *final(self) == (InputWindow {
                rel_x: (old(self).cursor_pos as u32 % t.nodes@[old(
                    self,
                ).input_win.idx as int].buffer.rect.width) as u32,
                rel_y: (old(self).cursor_pos as u32 / t.nodes@[old(
                    self,
                ).input_win.idx as int].buffer.rect.width) as u32,
                ..*old(self)
            }),
    {
        let width = t.width(self.input_win);
        let idx = self.cursor_pos as u32;
        self.rel_x = idx % width;
        self.rel_y = idx / width;
    }

    pub fn get_text(&self) -> (r: &str)
        ensures
            r@ == self.input_box.text@,
    {
        self.input_box.get_text()
    }

    pub fn get_text_clone(&self) -> (r: String)
        ensures
            r@ == self.input_box.text@,
    {
        self.get_text().to_owned()
    }

    /// Blanks the widget's window and empties its text.
    pub fn clear(&mut self, t: &mut WindowTree)
        requires
            old(t).wf(),
            old(self).wf(old(t)),
        ensures
            final(t).wf(),
            final(self).wf(final(t)),
            old(t).others_unchanged(final(t), old(self).input_win.idx as int),
            ({
                let a = final(t).nodes@[old(self).input_win.idx as int];
                let b = old(t).nodes@[old(self).input_win.idx as int];
                &&& a.sub_windows == b.sub_windows
                &&& a.parent == b.parent
                &&& a.id == b.id
                &&& a.buffer.frame() == b.buffer.frame()
                &&& a.buffer.content@ == Seq::new(
                    b.buffer.content@.len(),
                    |i: int| Cell::blank(b.buffer.bg),
                )
            }),
            final(self).input_box.text@ == Seq::<char>::empty(),
            final(self).cursor_pos == 0,
            final(self).input_win == old(self).input_win,
            final(self).max_len == old(self).max_len,
            final(self).input_box.rect == old(self).input_box.rect,
    {
        t.clear(self.input_win);
        proof {
            reveal_strlit("");
        }
        self.input_box.set_text("");
        self.cursor_pos = 0;
        self.update_rel_xy(t);
    }

    /// The screen cell the terminal cursor should sit on: the window's
    /// absolute position shifted by the cursor's in-window offset.
    pub fn cursor_screen_pos(&self) -> (r: (u16, u16))
        requires
            self.abs_x + self.rel_x <= u16::MAX,
            self.abs_y + self.rel_y <= u16::MAX,
        ensures
            r.0 == self.abs_x + self.rel_x,
            r.1 == self.abs_y + self.rel_y,
    {
        ((self.abs_x + self.rel_x) as u16, (self.abs_y + self.rel_y) as u16)
    }

    /// Refreshes the recorded screen position of the widget's window.
    pub fn set_abs_xy(&mut self, t: &WindowTree)
        requires
            t.wf(),
            t.valid(old(self).input_win),
            t.spec_abs_top(old(self).input_win.idx as int) <= u32::MAX,
            t.spec_abs_left(old(self).input_win.idx as int) <= u32::MAX,
        ensures
            *final(self) == (InputWindow {
                abs_y: t.spec_abs_top(old(self).input_win.idx as int) as u32,
                abs_x: t.spec_abs_left(old(self).input_win.idx as int) as u32,
                ..*old(self)
            }),
    {
        let (abs_y, abs_x) = t.abs_pos(self.input_win);
        self.abs_x = abs_x;
        self.abs_y = abs_y;
    }

    /// Handles one input event. Editing keys change the text and cursor as
    /// `next_text` and `next_cursor` say and the interaction continues;
    /// Enter and Escape detach the widget's window from the tree and hand
    /// the final text back.
    pub fn handle_event(&mut self, t: &mut WindowTree, event: Event) -> (r: EventResult)
        requires
            old(t).wf(),
            old(self).wf(old(t)),
        ensures
            final(t).wf(),
            finishes(event) ==> {
                &&& old(t).deleted_rel(final(t), old(self).input_win)
                &&& (r matches EventResult::Return(s) && s@ == old(self).input_box.text@)
                &&& *final(self) == *old(self)
            },
            !finishes(event) ==> {
                let text2 = next_text(
                    old(self).input_box.text@,
                    old(self).cursor_pos as int,
                    old(self).max_len as int,
                    event,
                );
                let cur2 = next_cursor(
                    old(self).input_box.text@,
                    old(self).cursor_pos as int,
                    old(self).max_len as int,
                    event,
                );
                let width = old(t).nodes@[old(self).input_win.idx as int].buffer.rect.width as int;
                &&& *final(t) == *old(t)
                &&& r is Continue
                &&& final(self).input_box.text@ == text2
                &&& final(self).cursor_pos == cur2
                &&& final(self).input_box.rect == old(self).input_box.rect
                &&& final(self).input_box.fg == old(self).input_box.fg
                &&& final(self).input_box.attr == old(self).input_box.attr
                &&& final(self).input_box.start_text == old(self).input_box.start_text
                &&& final(self).max_len == old(self).max_len
                &&& final(self).start_text == old(self).start_text
                &&& final(self).input_win == old(self).input_win
                &&& final(self).abs_x == old(self).abs_x
                &&& final(self).abs_y == old(self).abs_y
                &&& final(self).rel_x == cur2 % width
                &&& final(self).rel_y == cur2 / width
                &&& final(self).wf(final(t))
            },
    {
        match event {
            Event::Paste(s) => {
                let slen = s.as_str().unicode_len();
                self.input_box.insert_str_at(self.cursor_pos, s.as_str());
                let n = self.input_box.get_text().unicode_len();
                if n > self.max_len {
                    self.input_box.chop_after(self.max_len);
                }
                if slen > self.max_len - self.cursor_pos {
                    self.cursor_pos = self.max_len;
                } else {
                    self.cursor_pos = self.cursor_pos + slen;
                }
            },
            Event::Key(k) => match k {
                KeyCode::Esc => {
                    t.delete(self.input_win);
                    return EventResult::Return(self.input_box.get_text().to_owned());
                },
                KeyCode::Enter => {
                    t.delete(self.input_win);
                    return EventResult::Return(self.input_box.get_text().to_owned());
                },
                KeyCode::Backspace => {
                    if self.cursor_pos > 0 {
                        self.cursor_pos = self.cursor_pos - 1;
                        self.input_box.remove_char_at(self.cursor_pos);
                    }
                },
                KeyCode::Char(ch) => {
                    let n = self.input_box.get_text().unicode_len();
                    if n < self.max_len {
                        self.input_box.add_char_at(self.cursor_pos, ch);
                        self.cursor_pos = self.cursor_pos + 1;
                    }
                },
                KeyCode::Left => {
                    if self.cursor_pos != 0 {
                        self.cursor_pos = self.cursor_pos - 1;
                    }
                },
                KeyCode::Right => {
                    let n = self.input_box.get_text().unicode_len();
                    if self.cursor_pos != n {
                        self.cursor_pos = self.cursor_pos + 1;
                    }
                },
                _ => {},
            },
            Event::Other => {},
        }
        self.update_rel_xy(t);
        EventResult::Continue
    }

    /// Redraws the widget: blanks its window and draws the text box into
    /// it.
    pub fn render(&self, t: &mut WindowTree)
        requires
            old(t).wf(),
            self.wf(old(t)),
        ensures
            final(t).wf(),
            self.wf(final(t)),
            old(t).others_unchanged(final(t), self.input_win.idx as int),
            ({
                let a = final(t).nodes@[self.input_win.idx as int];
                let b = old(t).nodes@[self.input_win.idx as int];
                &&& a.sub_windows == b.sub_windows
                &&& a.parent == b.parent
                &&& a.id == b.id
                &&& a.buffer.frame() == b.buffer.frame()
                &&& a.buffer.content@ == rows_painted(
                    Seq::new(b.buffer.content@.len(), |i: int| Cell::blank(b.buffer.bg)),
                    b.buffer.scroll.width as int,
                    self.input_box.rect,
                    self.input_box.text@,
                    self.input_box.start_text.0 as int,
                    self.input_box.start_text.1 as int,
                    0,
                    self.input_box.fg,
                    self.input_box.attr,
                )
            }),
    {
        t.clear(self.input_win);
        t.draw_element(self.input_win, &self.input_box);
    }

    /// Redraws the widget and composites its window into the immediate
    /// parent's buffer.
    pub fn render_to_parent(&self, t: &mut WindowTree)
        requires
            old(t).wf(),
            self.wf(old(t)),
            old(t).nodes@[self.input_win.idx as int].parent is Some,
        ensures
            final(t).wf(),
            self.wf(final(t)),
            final(t).nodes@.len() == old(t).nodes@.len(),
            ({
                let widx = self.input_win.idx as int;
                let p = old(t).nodes@[widx].parent->0 as int;
                let b = old(t).nodes@[widx];
                &&& forall|i: int|
                    0 <= i < old(t).nodes@.len() && i != widx && i != p ==> final(t).nodes@[i]
                        == old(t).nodes@[i]
                &&& final(t).nodes@[widx].buffer.frame() == b.buffer.frame()
                &&& final(t).nodes@[widx].buffer.content@ == rows_painted(
                    Seq::new(b.buffer.content@.len(), |i: int| Cell::blank(b.buffer.bg)),
                    b.buffer.scroll.width as int,
                    self.input_box.rect,
                    self.input_box.text@,
                    self.input_box.start_text.0 as int,
                    self.input_box.start_text.1 as int,
                    0,
                    self.input_box.fg,
                    self.input_box.attr,
                )
                &&& final(t).nodes@[p].buffer.frame() == old(t).nodes@[p].buffer.frame()
                &&& forall|k: int|
                    0 <= k < old(t).nodes@[p].buffer.content@.len() ==> final(t).nodes@[p].buffer.content@[k] == crate::buffer::composited_cell(
                        old(t).nodes@[p].buffer,
                        final(t).nodes@[widx].buffer.visible_seq(),
                        b.buffer.rect.width as int,
                        b.buffer.rect.height as int,
                        b.buffer.rect.y as int,
                        b.buffer.rect.x as int,
                        k,
                    )
            }),
    {
        proof {
            assert(old(t).node_wf(self.input_win.idx as int));
        }
        self.render(t);
        t.render_to_parent(self.input_win);
    }
}

} // verus!
