use termin::cell::Color;
use termin::rectangle::Rectangle;
use termin::window::{Position, Window, WindowTree};

#[test]
fn absolute_position_sums_ancestor_offsets() {
    let mut t = WindowTree::new();
    let root = t.from_window(Window::new(100, 100, 1, 2));
    let a = t.new_child(root, Window::new(50, 50, 3, 4));
    let b = t.new_child(a, Window::new(20, 20, 5, 6));
    // (top, left) = (sum of y, sum of x)
    assert_eq!(t.abs_pos(root), (2, 1));
    assert_eq!(t.abs_pos(a), (2 + 4, 1 + 3));
    assert_eq!(t.abs_pos(b), (2 + 4 + 6, 1 + 3 + 5));
}

#[test]
fn new_child_appends_in_z_order() {
    let mut t = WindowTree::new();
    let root = t.from_window(Window::new(10, 10, 0, 0));
    let c0 = t.new_child(root, Window::default());
    let c1 = t.new_child(root, Window::default());
    assert_eq!(t.id(c0), 0);
    assert_eq!(t.id(c1), 1);
    assert_eq!(t.nodes[root.idx].sub_windows, vec![c0.idx, c1.idx]);
    assert!(t.is_root(root));
    assert!(!t.is_root(c0));
}

#[test]
fn detach_removes_one_entry_and_orphans_the_node() {
    let mut t = WindowTree::new();
    let root = t.from_window(Window::new(10, 10, 0, 0));
    let c0 = t.new_child(root, Window::default());
    let c1 = t.new_child(root, Window::default());
    let c2 = t.new_child(root, Window::default());
    assert_eq!(t.nodes[root.idx].sub_windows.len(), 3);
    t.delete(c1);
    // exactly one entry gone, later sibling renumbered
    assert_eq!(t.nodes[root.idx].sub_windows, vec![c0.idx, c2.idx]);
    assert_eq!(t.id(c0), 0);
    assert_eq!(t.id(c2), 1);
    // the detached node is now parentless: a subsequent render_to_parent
    // has no parent to composite into
    assert!(t.is_root(c1));
    // deleting an already detached node changes nothing
    t.delete(c1);
    assert_eq!(t.nodes[root.idx].sub_windows.len(), 2);
    assert!(t.is_root(c1));
}

#[test]
fn centering_a_child_window() {
    let mut t = WindowTree::new();
    let root = t.from_window(Window::new(10, 6, 0, 0));
    let c = t.new_child(root, Window::new(4, 2, 0, 0));
    t.set_position(c, Position::CenterB);
    let r = t.rect(c);
    assert_eq!((r.x, r.y), (3, 2));
    t.set_position(c, Position::Coord(1, 1));
    assert_eq!((t.rect(c).x, t.rect(c).y), (1, 1));
    t.set_position(c, Position::CenterH);
    assert_eq!((t.rect(c).x, t.rect(c).y), (3, 1));
    t.set_position(c, Position::CenterV);
    assert_eq!((t.rect(c).x, t.rect(c).y), (3, 2));
}

#[test]
fn centering_without_parent_is_ignored() {
    let mut t = WindowTree::new();
    let w = t.from_window(Window::new(4, 2, 7, 8));
    t.set_position(w, Position::CenterB);
    assert_eq!((t.rect(w).x, t.rect(w).y), (7, 8));
}

#[test]
fn render_scenario_root_child_rectangle() {
    // root 20x10; child 6x3 at absolute (2,2); fill the child blue; render
    let mut t = WindowTree::new();
    let root = t.from_window(Window::new(20, 10, 0, 0));
    let child = t.new_child(root, Window::new(6, 3, 2, 2));
    let rect = Rectangle::default().size(6, 3).bg(Color::Blue);
    t.draw_element(child, &rect);
    t.render(child);
    for y in 0..10u32 {
        for x in 0..20u32 {
            let cell = *t.buffer(root).get(x, y);
            if (2..8).contains(&x) && (2..5).contains(&y) {
                assert_eq!(cell.bg, Color::Blue, "cell ({x},{y}) should be painted");
            } else {
                assert_eq!(cell.bg, Color::Reset, "cell ({x},{y}) should be untouched");
            }
        }
    }
}

#[test]
fn render_walks_through_intermediate_ancestors() {
    let mut t = WindowTree::new();
    let root = t.from_window(Window::new(10, 10, 0, 0));
    let mid = t.new_child(root, Window::new(8, 8, 1, 1));
    let leaf = t.new_child(mid, Window::new(2, 2, 3, 3));
    let rect = Rectangle::default().size(2, 2).bg(Color::Green);
    t.draw_element(leaf, &rect);
    t.render(leaf);
    // leaf lands at (1+3, 1+3) in the root's buffer; the intermediate
    // ancestor's buffer is not composited into
    assert_eq!(t.buffer(root).get(4, 4).bg, Color::Green);
    assert_eq!(t.buffer(root).get(5, 5).bg, Color::Green);
    assert_eq!(t.buffer(root).get(3, 3).bg, Color::Reset);
    assert_eq!(t.buffer(mid).get(3, 3).bg, Color::Reset);
}

#[test]
fn render_to_parent_composites_into_immediate_parent() {
    let mut t = WindowTree::new();
    let root = t.from_window(Window::new(10, 10, 0, 0));
    let mid = t.new_child(root, Window::new(8, 8, 1, 1));
    let leaf = t.new_child(mid, Window::new(2, 2, 3, 3));
    let rect = Rectangle::default().size(2, 2).bg(Color::Green);
    t.draw_element(leaf, &rect);
    t.render_to_parent(leaf);
    assert_eq!(t.buffer(mid).get(3, 3).bg, Color::Green);
    assert_eq!(t.buffer(root).get(4, 4).bg, Color::Reset);
}

#[test]
fn render_children_and_render_deep() {
    let mut t = WindowTree::new();
    let root = t.from_window(Window::new(10, 10, 0, 0));
    let a = t.new_child(root, Window::new(2, 2, 0, 0));
    let b = t.new_child(a, Window::new(1, 1, 5, 5));
    let ra = Rectangle::default().size(2, 2).bg(Color::Red);
    let rb = Rectangle::default().size(1, 1).bg(Color::Blue);
    t.draw_element(a, &ra);
    t.draw_element(b, &rb);
    t.render_children(root);
    assert_eq!(t.buffer(root).get(0, 0).bg, Color::Red);
    // b is not an immediate child of root
    assert_eq!(t.buffer(root).get(5, 5).bg, Color::Reset);
    t.render_deep(root);
    assert_eq!(t.buffer(root).get(5, 5).bg, Color::Blue);
}

#[test]
fn clear_blanks_only_the_node() {
    let mut t = WindowTree::new();
    let root = t.from_window(Window::new(4, 4, 0, 0));
    let c = t.new_child(root, Window::new(2, 2, 0, 0));
    let rect = Rectangle::default().size(2, 2).bg(Color::Red);
    t.draw_element(c, &rect);
    t.render(c);
    t.clear(c);
    assert_eq!(t.buffer(c).get(0, 0).bg, Color::Reset);
    assert_eq!(t.buffer(root).get(0, 0).bg, Color::Red);
}

#[test]
fn set_size_keeps_background_and_position() {
    let mut t = WindowTree::new();
    let w = t.from_window(Window::new(2, 2, 3, 4).bg(Color::Blue));
    t.set_size(w, 5, 6);
    let r = t.rect(w);
    assert_eq!((r.x, r.y, r.width, r.height), (3, 4, 5, 6));
    assert_eq!(t.buffer(w).get_bg(), Color::Blue);
    assert_eq!(t.buffer(w).get(4, 5).bg, Color::Blue);
}

#[test]
fn set_xy_rel_clamps_at_zero() {
    let mut t = WindowTree::new();
    let w = t.from_window(Window::new(2, 2, 3, 4));
    t.set_xy_rel(w, -10, 2);
    assert_eq!((t.rect(w).x, t.rect(w).y), (0, 6));
}

#[test]
fn scrollable_window_pans_its_content() {
    let mut t = WindowTree::new();
    let w = t.from_window(Window::new(50, 10, 0, 0).scoll_size(80, 50));
    let text = termin::text::Text::default().text("hello").size(20, 1).xy(0, 12);
    t.draw_element(w, &text);
    // not visible before panning
    assert_eq!(t.buffer(w).get(0, 9).symbol, ' ');
    t.set_scroll_xy_rel(w, 0, 12);
    assert_eq!(t.buffer(w).get(0, 0).symbol, 'h');
    t.set_scroll_xy_rel(w, 1, 0);
    assert_eq!(t.buffer(w).get(0, 0).symbol, 'e');
    t.set_scroll_xy_rel(w, -1, 0);
    assert_eq!(t.buffer(w).get(0, 0).symbol, 'h');
    // panning up to the content edge is accepted, past it rejected
    t.set_scroll_xy_rel(w, 30, 0);
    assert_eq!(t.scroll(w).x, 30);
    t.set_scroll_xy_rel(w, 1, 0);
    assert_eq!(t.scroll(w).x, 30);
}

#[test]
fn draw_text_centers_on_the_window() {
    let mut t = WindowTree::new();
    let w = t.from_window(Window::new(11, 3, 0, 0));
    t.draw_text(w, "abc", Position::CenterH);
    // width 11, text 3: centered at column 5 - 1 = 4
    assert_eq!(t.buffer(w).get(4, 0).symbol, 'a');
    assert_eq!(t.buffer(w).get(5, 0).symbol, 'b');
    assert_eq!(t.buffer(w).get(6, 0).symbol, 'c');
}
