//! The output stage: turns a sequence of positioned cells into a minimal
//! stream of terminal commands. A cursor move is emitted only when the
//! next cell is not immediately to the right of the previous one, and a
//! style command only when that component actually changes; after the
//! whole frame every style is reset.

use vstd::prelude::*;

use crate::cell::{Attribute, Cell, Color};

verus! {

/// One terminal instruction.
#[derive(Clone, Copy, Debug, PartialEq, Eq, Structural)]
pub enum Command {
    MoveTo(u16, u16),
    SetAttribute(Attribute),
    SetBackgroundColor(Color),
    SetForegroundColor(Color),
    Print(char),
}

/// What the emitter remembers between cells: the styles in effect and the
/// last written position.
#[derive(Clone, Copy, Debug)]
pub struct EmitState {
    pub bg: Color,
    pub fg: Color,
    pub attr: Attribute,
    pub last: Option<(u16, u16)>,
}

/// The state before any cell: default styles, no position.
pub open spec fn init_state() -> EmitState {
    EmitState { bg: Color::Reset, fg: Color::Reset, attr: Attribute::Reset, last: None }
}

/// The commands one cell adds: a move unless it continues the previous
/// cell's row to the right; on an attribute change the attribute plus a
/// re-assertion of the colors then in effect; a color command per changed
/// color; and always the glyph.
pub open spec fn step_cmds(st: EmitState, x: u16, y: u16, c: Cell) -> Seq<Command> {
    let mv: Seq<Command> = if st.last matches Some(p) && x == p.0 + 1 && y == p.1 {
        Seq::empty()
    } else {
        seq![Command::MoveTo(x, y)]
    };
    let at: Seq<Command> = if st.attr != c.attr {
        seq![
            Command::SetAttribute(c.attr),
            Command::SetBackgroundColor(st.bg),
            Command::SetForegroundColor(st.fg),
        ]
    } else {
        Seq::empty()
    };
    let bgc: Seq<Command> = if st.bg != c.bg {
        seq![Command::SetBackgroundColor(c.bg)]
    } else {
        Seq::empty()
    };
    let fgc: Seq<Command> = if st.fg != c.fg {
        seq![Command::SetForegroundColor(c.fg)]
    } else {
        Seq::empty()
    };
    mv + at + bgc + fgc + seq![Command::Print(c.symbol)]
}

/// The state after one cell: its styles are in effect and it is the last
/// written position.
pub open spec fn step_state(st: EmitState, x: u16, y: u16, c: Cell) -> EmitState {
    EmitState { bg: c.bg, fg: c.fg, attr: c.attr, last: Some((x, y)) }
}

/// Commands and emitter state after the first `n` cells.
pub open spec fn emit_upto(cells: Seq<(u16, u16, Cell)>, n: int) -> (Seq<Command>, EmitState)
    decreases n,
{
    if n <= 0 {
        (Seq::empty(), init_state())
    } else {
        let prev = emit_upto(cells, n - 1);
        let e = cells[n - 1];
        (prev.0 + step_cmds(prev.1, e.0, e.1, e.2), step_state(prev.1, e.0, e.1, e.2))
    }
}

/// The full command stream for one frame: every cell in order, then a
/// reset of foreground, background and attribute.
pub open spec fn emit_spec(cells: Seq<(u16, u16, Cell)>) -> Seq<Command> {
    emit_upto(cells, cells.len() as int).0 + seq![
        Command::SetForegroundColor(Color::Reset),
        Command::SetBackgroundColor(Color::Reset),
        Command::SetAttribute(Attribute::Reset),
    ]
}

/// Walks the cells once and produces the coalesced command stream.
#[verifier::rlimit(60)]
pub fn draw_commands(cells: &Vec<(u16, u16, Cell)>) -> (v: Vec<Command>)
    ensures
        v@ == emit_spec(cells@),
{
    let mut v: Vec<Command> = Vec::new();
    let mut bg = Color::Reset;
    let mut fg = Color::Reset;
    let mut attr = Attribute::Reset;
    let mut last: Option<(u16, u16)> = None;
    let n = cells.len();
    let mut i: usize = 0;
    while i < n
        invariant
            n == cells@.len(),
            i <= n,
            v@ == emit_upto(cells@, i as int).0,
            emit_upto(cells@, i as int).1 == (EmitState { bg, fg, attr, last }),
        decreases n - i,
    {
        let (x, y, c) = cells[i];
        let move_needed = match last {
            Some(p) => !(x as u32 == p.0 as u32 + 1 && y == p.1),
            None => true,
        };
        if move_needed {
            v.push(Command::MoveTo(x, y));
        }
        if attr != c.attr {
            v.push(Command::SetAttribute(c.attr));
            v.push(Command::SetBackgroundColor(bg));
            v.push(Command::SetForegroundColor(fg));
        }
        if bg != c.bg {
            v.push(Command::SetBackgroundColor(c.bg));
        }
        if fg != c.fg {
            v.push(Command::SetForegroundColor(c.fg));
        }
        v.push(Command::Print(c.symbol));
        proof {
            let ghost st = EmitState { bg, fg, attr, last };
            assert(v@ =~= emit_upto(cells@, i as int).0 + step_cmds(st, x, y, c));
        }
        bg = c.bg;
        fg = c.fg;
        attr = c.attr;
        last = Some((x, y));
        i = i + 1;
    }
    v.push(Command::SetForegroundColor(Color::Reset));
    v.push(Command::SetBackgroundColor(Color::Reset));
    v.push(Command::SetAttribute(Attribute::Reset));
    proof {
        assert(v@ =~= emit_spec(cells@));
    }
    v
}

} // verus!
