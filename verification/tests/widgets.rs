use termin::buffer::Buffer;
use termin::cell::{Attribute, Cell, Color};
use termin::driver::{draw_commands, Command};
use termin::elements::Element;
use termin::events::{Event, KeyCode};
use termin::input::{EventResult, InputWindow};
use termin::rect::Rect;
use termin::socket::SocketMsg;
use termin::text::Text;
use termin::window::{Window, WindowTree};

#[test]
fn newline_breaks_the_row_at_the_right_point() {
    // "ab\ncd" into a 2-wide, 2-tall target: row 0 = "ab", row 1 = "cd"
    let mut buf = Buffer::empty(Rect::new(0, 0, 2, 2), Rect::new(0, 0, 2, 2));
    let t = Text::default().text("ab\ncd").size(2, 2).start_text((0, 0));
    t.draw(&mut buf);
    assert_eq!(buf.get_vir(0, 0).symbol, 'a');
    assert_eq!(buf.get_vir(1, 0).symbol, 'b');
    assert_eq!(buf.get_vir(0, 1).symbol, 'c');
    assert_eq!(buf.get_vir(1, 1).symbol, 'd');
}

#[test]
fn newline_leaves_rest_of_row_unset() {
    let mut buf = Buffer::empty(Rect::new(0, 0, 3, 2), Rect::new(0, 0, 3, 2));
    let t = Text::default().text("a\nbc").size(3, 2).start_text((0, 0));
    t.draw(&mut buf);
    assert_eq!(buf.get_vir(0, 0).symbol, 'a');
    assert_eq!(buf.get_vir(1, 0).symbol, ' ');
    assert_eq!(buf.get_vir(2, 0).symbol, ' ');
    assert_eq!(buf.get_vir(0, 1).symbol, 'b');
    assert_eq!(buf.get_vir(1, 1).symbol, 'c');
}

#[test]
fn text_wraps_at_the_rect_width() {
    let mut buf = Buffer::empty(Rect::new(1, 0, 2, 2), Rect::new(0, 0, 4, 4));
    let t = Text::default().text("abcd").size(2, 2).xy(1, 0);
    t.draw(&mut buf);
    assert_eq!(buf.get_vir(1, 0).symbol, 'a');
    assert_eq!(buf.get_vir(2, 0).symbol, 'b');
    assert_eq!(buf.get_vir(1, 1).symbol, 'c');
    assert_eq!(buf.get_vir(2, 1).symbol, 'd');
}

#[test]
fn text_start_offset_shifts_first_row_only() {
    let mut buf = Buffer::empty(Rect::new(0, 0, 3, 2), Rect::new(0, 0, 3, 2));
    let t = Text::default().text("abcd").size(3, 2).start_text((1, 0));
    t.draw(&mut buf);
    assert_eq!(buf.get_vir(0, 0).symbol, ' ');
    assert_eq!(buf.get_vir(1, 0).symbol, 'a');
    assert_eq!(buf.get_vir(2, 0).symbol, 'b');
    assert_eq!(buf.get_vir(0, 1).symbol, 'c');
    assert_eq!(buf.get_vir(1, 1).symbol, 'd');
}

#[test]
fn text_styles_are_applied() {
    let mut buf = Buffer::empty(Rect::new(0, 0, 2, 1), Rect::new(0, 0, 2, 1));
    let t = Text::default()
        .text("x")
        .size(2, 1)
        .fg(Color::White)
        .attr(Attribute::Bold);
    t.draw(&mut buf);
    let c = *buf.get_vir(0, 0);
    assert_eq!(c.symbol, 'x');
    assert_eq!(c.fg, Color::White);
    assert_eq!(c.attr, Attribute::Bold);
    // the scan paints the foreground past the text's end
    assert_eq!(buf.get_vir(1, 0).fg, Color::White);
    assert_eq!(buf.get_vir(1, 0).symbol, ' ');
}

#[test]
fn text_editing_operations() {
    let mut t = Text::default().text("abc");
    t.add_char_at(1, 'x');
    assert_eq!(t.get_text(), "axbc");
    t.remove_char_at(0);
    assert_eq!(t.get_text(), "xbc");
    t.chop_after(2);
    assert_eq!(t.get_text(), "xb");
    t.push_string(String::from("yz"));
    assert_eq!(t.get_text(), "xbyz");
    t.insert_str_at(2, "--");
    assert_eq!(t.get_text(), "xb--yz");
}

fn widget(max: usize) -> (WindowTree, InputWindow) {
    let mut t = WindowTree::new();
    let root = t.from_window(Window::new(10, 4, 0, 0));
    let iw = InputWindow::from(&mut t, root, Window::new(4, 2, 1, 1)).max_len(max);
    (t, iw)
}

#[test]
fn typing_inserts_at_cursor_until_full() {
    let (mut t, mut iw) = widget(3);
    for ch in ['a', 'b', 'c', 'd'] {
        let r = iw.handle_event(&mut t, Event::Key(KeyCode::Char(ch)));
        assert!(matches!(r, EventResult::Continue));
    }
    // the fourth character was rejected: the maximum is reached
    assert_eq!(iw.get_text(), "abc");
    // cursor moves and edits follow it
    iw.handle_event(&mut t, Event::Key(KeyCode::Left));
    iw.handle_event(&mut t, Event::Key(KeyCode::Backspace));
    assert_eq!(iw.get_text(), "ac");
    iw.handle_event(&mut t, Event::Key(KeyCode::Char('z')));
    assert_eq!(iw.get_text(), "azc");
}

#[test]
fn cursor_clamps_at_both_ends() {
    let (mut t, mut iw) = widget(8);
    iw.handle_event(&mut t, Event::Key(KeyCode::Left));
    assert_eq!(iw.cursor_pos, 0);
    iw.handle_event(&mut t, Event::Key(KeyCode::Char('a')));
    iw.handle_event(&mut t, Event::Key(KeyCode::Right));
    assert_eq!(iw.cursor_pos, 1);
    iw.handle_event(&mut t, Event::Key(KeyCode::Right));
    assert_eq!(iw.cursor_pos, 1);
}

#[test]
fn paste_inserts_at_cursor_and_truncates() {
    let (mut t, mut iw) = widget(5);
    for ch in ['a', 'b'] {
        iw.handle_event(&mut t, Event::Key(KeyCode::Char(ch)));
    }
    iw.handle_event(&mut t, Event::Key(KeyCode::Left));
    let r = iw.handle_event(&mut t, Event::Paste(String::from("xyzw")));
    assert!(matches!(r, EventResult::Continue));
    // "a" + "xyzw" + "b" truncated to five characters
    assert_eq!(iw.get_text(), "axyzw");
    assert_eq!(iw.cursor_pos, 5);
}

#[test]
fn enter_finishes_and_detaches_the_widget() {
    let (mut t, mut iw) = widget(8);
    for ch in ['h', 'i'] {
        iw.handle_event(&mut t, Event::Key(KeyCode::Char(ch)));
    }
    let root_children_before = t.nodes[0].sub_windows.len();
    let r = iw.handle_event(&mut t, Event::Key(KeyCode::Enter));
    match r {
        EventResult::Return(s) => assert_eq!(s, "hi"),
        EventResult::Continue => panic!("expected the interaction to finish"),
    }
    assert_eq!(t.nodes[0].sub_windows.len(), root_children_before - 1);
    assert!(t.is_root(iw.input_win));
}

#[test]
fn escape_finishes_too() {
    let (mut t, mut iw) = widget(8);
    iw.handle_event(&mut t, Event::Key(KeyCode::Char('q')));
    let r = iw.handle_event(&mut t, Event::Key(KeyCode::Esc));
    match r {
        EventResult::Return(s) => assert_eq!(s, "q"),
        EventResult::Continue => panic!("expected the interaction to finish"),
    }
}

#[test]
fn cursor_position_derives_from_width() {
    let (mut t, mut iw) = widget(8);
    for ch in ['a', 'b', 'c', 'd', 'e'] {
        iw.handle_event(&mut t, Event::Key(KeyCode::Char(ch)));
    }
    // width 4: index 5 sits at row 1, column 1
    assert_eq!(iw.rel_x, 1);
    assert_eq!(iw.rel_y, 1);
    // window at (1,1) under a root at (0,0)
    assert_eq!(iw.cursor_screen_pos(), (1 + 1, 1 + 1));
}

#[test]
fn widget_render_draws_its_text() {
    let (mut t, mut iw) = widget(8);
    iw.handle_event(&mut t, Event::Key(KeyCode::Char('w')));
    iw.render(&mut t);
    assert_eq!(t.buffer(iw.input_win).get(0, 0).symbol, 'w');
}

#[test]
fn coalesced_command_stream_for_a_contiguous_run() {
    let mut c1 = Cell::default();
    c1.set_symbol('a');
    let mut c2 = Cell::default();
    c2.set_symbol('b');
    let cells = vec![(0u16, 0u16, c1), (1u16, 0u16, c2)];
    let cmds = draw_commands(&cells);
    // one move for the run, no style changes, one print per cell, then the
    // full reset
    assert_eq!(
        cmds,
        vec![
            Command::MoveTo(0, 0),
            Command::Print('a'),
            Command::Print('b'),
            Command::SetForegroundColor(Color::Reset),
            Command::SetBackgroundColor(Color::Reset),
            Command::SetAttribute(Attribute::Reset),
        ]
    );
}

#[test]
fn style_changes_are_emitted_once() {
    let mut c1 = Cell::default();
    c1.set_symbol('a');
    c1.set_bg(Color::Blue);
    let mut c2 = Cell::default();
    c2.set_symbol('b');
    c2.set_bg(Color::Blue);
    let mut c3 = Cell::default();
    c3.set_symbol('c');
    c3.set_bg(Color::Blue);
    c3.set_attr(Attribute::Bold);
    // a non-contiguous jump before the third cell
    let cells = vec![(0u16, 0u16, c1), (1u16, 0u16, c2), (4u16, 2u16, c3)];
    let cmds = draw_commands(&cells);
    assert_eq!(
        cmds,
        vec![
            Command::MoveTo(0, 0),
            Command::SetBackgroundColor(Color::Blue),
            Command::Print('a'),
            Command::Print('b'),
            Command::MoveTo(4, 2),
            Command::SetAttribute(Attribute::Bold),
            Command::SetBackgroundColor(Color::Blue),
            Command::SetForegroundColor(Color::Reset),
            Command::Print('c'),
            Command::SetForegroundColor(Color::Reset),
            Command::SetBackgroundColor(Color::Reset),
            Command::SetAttribute(Attribute::Reset),
        ]
    );
}

#[test]
fn socket_msg_event_name() {
    let m = SocketMsg::new(String::from("move"), String::from("{\"row\":1}"));
    assert_eq!(m.event_name(), "move");
    assert_eq!(m.data, "{\"row\":1}");
}

#[test]
fn text_longer_than_rect_is_cut_off() {
    let mut buf = Buffer::empty(Rect::new(0, 0, 2, 2), Rect::new(0, 0, 2, 2));
    let t = Text::default().text("abcdef").size(2, 2);
    t.draw(&mut buf);
    assert_eq!(buf.get_vir(0, 0).symbol, 'a');
    assert_eq!(buf.get_vir(1, 0).symbol, 'b');
    assert_eq!(buf.get_vir(0, 1).symbol, 'c');
    assert_eq!(buf.get_vir(1, 1).symbol, 'd');
}

#[test]
fn double_newline_leaves_an_empty_row() {
    let mut buf = Buffer::empty(Rect::new(0, 0, 2, 3), Rect::new(0, 0, 2, 3));
    let t = Text::default().text("ab\n\ncd").size(2, 3);
    t.draw(&mut buf);
    assert_eq!(buf.get_vir(0, 0).symbol, 'a');
    assert_eq!(buf.get_vir(1, 0).symbol, 'b');
    assert_eq!(buf.get_vir(0, 1).symbol, ' ');
    assert_eq!(buf.get_vir(1, 1).symbol, ' ');
    assert_eq!(buf.get_vir(0, 2).symbol, 'c');
    assert_eq!(buf.get_vir(1, 2).symbol, 'd');
}

#[test]
fn shorter_text_leaves_other_cells_as_they_were() {
    let mut fill = Cell::default();
    fill.set_symbol('.');
    let mut buf = Buffer::filled(Rect::new(0, 0, 3, 1), Rect::new(0, 0, 3, 1), fill);
    // cells past the text's end keep their glyphs, and the scan stops at
    // the rect's right edge
    let t = Text::default().text("a").size(2, 1);
    t.draw(&mut buf);
    assert_eq!(buf.get_vir(0, 0).symbol, 'a');
    assert_eq!(buf.get_vir(1, 0).symbol, '.');
    assert_eq!(buf.get_vir(2, 0).symbol, '.');
}
