use termin::buffer::Buffer;
use termin::cell::{Attribute, Cell, Color};
use termin::rect::Rect;

#[test]
fn rect_new_and_accessors() {
    let r = Rect::new(1, 2, 3, 4);
    assert_eq!(r.x, 1);
    assert_eq!(r.y, 2);
    assert_eq!(r.width, 3);
    assert_eq!(r.height, 4);
    assert_eq!(r.get_xy(), (1, 2));
    assert_eq!(r.area(), 12);
}

#[test]
fn rect_default_is_zero() {
    let r = Rect::default();
    assert_eq!(r, Rect::new(0, 0, 0, 0));
}

#[test]
fn center_offset_of_4x2_in_10x6_is_3_2() {
    let outer = Rect::new(0, 0, 10, 6);
    let inner = Rect::new(0, 0, 4, 2);
    assert_eq!(outer.get_center_start_pos(inner), (3, 2));
}

#[test]
fn cell_default_is_blank() {
    let c = Cell::default();
    assert_eq!(c.bg, Color::Reset);
    assert_eq!(c.fg, Color::Reset);
    assert_eq!(c.attr, Attribute::Reset);
    assert_eq!(c.symbol, ' ');
}

#[test]
fn cell_reset_restores_defaults() {
    let mut c = Cell::default();
    c.set_bg(Color::Blue);
    c.set_fg(Color::White);
    c.set_attr(Attribute::Bold);
    c.set_symbol('x');
    assert_eq!(c.symbol, 'x');
    c.reset();
    assert_eq!(c, Cell::default());
}

#[test]
fn empty_buffer_is_blank() {
    let b = Buffer::empty(Rect::new(0, 0, 3, 2), Rect::new(0, 0, 3, 2));
    assert_eq!(b.size(), 6);
    for y in 0..2 {
        for x in 0..3 {
            assert_eq!(*b.get(x, y), Cell::default());
        }
    }
}

#[test]
fn filled_buffer_takes_background_from_fill() {
    let mut fill = Cell::default();
    fill.set_bg(Color::Green);
    fill.set_symbol('#');
    let b = Buffer::filled(Rect::new(0, 0, 2, 2), Rect::new(0, 0, 2, 2), fill);
    assert_eq!(b.get_bg(), Color::Green);
    assert_eq!(b.get(1, 1).symbol, '#');
}

#[test]
fn pan_accepted_only_within_bounds() {
    // viewport 2x2 over a 4x4 virtual surface
    let mut b = Buffer::empty(Rect::new(0, 0, 2, 2), Rect::new(0, 0, 4, 4));
    b.set_scroll_xy(2, 2);
    assert_eq!(b.scroll().x, 2);
    assert_eq!(b.scroll().y, 2);
    // x would leave the surface (3 + 2 > 4): that axis is rejected, the
    // other accepted
    b.set_scroll_xy(3, 0);
    assert_eq!(b.scroll().x, 2);
    assert_eq!(b.scroll().y, 0);
    // y rejected likewise
    b.set_scroll_xy(0, 3);
    assert_eq!(b.scroll().x, 0);
    assert_eq!(b.scroll().y, 0);
}

#[test]
fn get_applies_pan_get_vir_does_not() {
    let mut b = Buffer::empty(Rect::new(0, 0, 2, 2), Rect::new(0, 0, 4, 4));
    b.get_vir_mut(2, 3).set_symbol('q');
    b.set_scroll_xy(2, 2);
    assert_eq!(b.get(0, 1).symbol, 'q');
    assert_eq!(b.get_vir(2, 3).symbol, 'q');
    assert_eq!(b.get(0, 0).symbol, ' ');
}

#[test]
fn reset_blanks_over_background() {
    let mut b = Buffer::empty(Rect::new(0, 0, 2, 1), Rect::new(0, 0, 2, 1));
    b.set_bg(Color::Red);
    b.get_mut(0, 0).set_symbol('z');
    b.reset();
    assert_eq!(b.get(0, 0).symbol, ' ');
    assert_eq!(b.get(0, 0).bg, Color::Red);
}

#[test]
fn extend_scroll_height_keeps_existing_rows() {
    let mut b = Buffer::empty(Rect::new(0, 0, 2, 2), Rect::new(0, 0, 2, 2));
    b.get_vir_mut(1, 1).set_symbol('k');
    b.extend_scroll_height(3);
    assert_eq!(b.scroll().height, 5);
    assert_eq!(b.size(), 10);
    assert_eq!(b.get_vir(1, 1).symbol, 'k');
    assert_eq!(b.get_vir(1, 4).symbol, ' ');
}

#[test]
fn visible_cells_count_and_bounds() {
    let mut b = Buffer::empty(Rect::new(0, 0, 3, 2), Rect::new(0, 0, 5, 4));
    b.set_scroll_xy(1, 1);
    let v = b.to_vec((7, 9));
    assert_eq!(v.len(), 6);
    for (x, y, _) in &v {
        assert!(*x >= 9 && *x < 9 + 3);
        assert!(*y >= 7 && *y < 7 + 2);
    }
    // row major, panned by (1,1)
    b.get_vir_mut(1, 1).set_symbol('a');
    let v = b.to_vec((0, 0));
    assert_eq!(v[0], (0, 0, *b.get(0, 0)));
    assert_eq!(v[0].2.symbol, 'a');
}

#[test]
fn composite_clips_at_destination_edge() {
    // a 3x3 source pushed into a 2x2 destination at (1,1): only one cell
    // can land inside
    let mut fill = Cell::default();
    fill.set_bg(Color::Blue);
    fill.set_symbol('s');
    let src = Buffer::filled(Rect::new(0, 0, 3, 3), Rect::new(0, 0, 3, 3), fill);
    let mut dst = Buffer::empty(Rect::new(0, 0, 2, 2), Rect::new(0, 0, 2, 2));
    dst.composite_into(&src, 1, 1);
    assert_eq!(dst.get(1, 1).symbol, 's');
    assert_eq!(dst.get(0, 0).symbol, ' ');
    assert_eq!(dst.get(1, 0).symbol, ' ');
    assert_eq!(dst.get(0, 1).symbol, ' ');
}

#[test]
fn composite_entirely_outside_changes_nothing() {
    let mut fill = Cell::default();
    fill.set_symbol('s');
    let src = Buffer::filled(Rect::new(0, 0, 2, 2), Rect::new(0, 0, 2, 2), fill);
    let mut dst = Buffer::empty(Rect::new(0, 0, 2, 2), Rect::new(0, 0, 2, 2));
    dst.composite_into(&src, 5, 5);
    for y in 0..2 {
        for x in 0..2 {
            assert_eq!(*dst.get(x, y), Cell::default());
        }
    }
}

#[test]
fn zero_sized_viewport_yields_no_cells() {
    let b = Buffer::empty(Rect::new(0, 0, 0, 0), Rect::new(0, 0, 0, 0));
    assert_eq!(b.size(), 0);
    assert_eq!(b.to_vec((0, 0)).len(), 0);
    assert_eq!(b.visible_copy().len(), 0);
}

#[test]
fn centering_an_equal_sized_rect_lands_at_origin() {
    let outer = Rect::new(0, 0, 4, 2);
    let inner = Rect::new(0, 0, 4, 2);
    assert_eq!(outer.get_center_start_pos(inner), (0, 0));
}
