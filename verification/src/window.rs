//! The compositing tree: windows own one buffer each and a z-ordered list of
//! children, and hold a back-reference to their parent for coordinate
//! resolution and detachment.
//!
//! Nodes live in an arena (`WindowTree`) and are addressed by stable indices
//! (`WindowRef`). A child is always created after its parent, so every
//! parent index is smaller than the child's own; walks up the parent chain
//! therefore terminate. Detached subtrees merely become unreachable.

use vstd::prelude::*;

use crate::buffer::{composited_cell, Buffer};
use crate::cell::{Cell, Color};
use crate::rect::Rect;

verus! {

/// Where to place a window (or an element) inside its parent: an absolute
/// coordinate, or centered on one or both axes.
#[derive(Clone, Copy, Debug, PartialEq, Eq, Structural)]
pub enum Position {
    CenterH,
    CenterV,
    CenterB,
    Coord(u32, u32),
}

/// A handle to a node of a `WindowTree`: a stable index into the arena.
#[derive(Clone, Copy, Debug, PartialEq, Eq, Structural)]
pub struct WindowRef {
    pub idx: usize,
}

/// One node of the compositing tree.
pub struct Window {
    pub buffer: Buffer,
    pub sub_windows: Vec<usize>,
    pub parent: Option<usize>,
    pub id: usize,
}

impl Window {
    /// A node's well-formedness on its own: its buffer is well-formed.
    pub open spec fn local_wf(&self) -> bool {
        self.buffer.wf()
    }

    /// A detached window: well-formed buffer, no parent, no children.
    pub open spec fn detached(&self) -> bool {
        &&& self.local_wf()
        &&& self.parent is None
        &&& self.sub_windows@.len() == 0
        &&& self.id == 0
    }

    /// Overwrites this node's slot index within its parent's children.
    pub fn set_id(&mut self, id: usize)
        ensures
            *final(self) == (Window { id, ..*old(self) }),
    {
        self.id = id;
    }

    /// A fresh detached window of the given size at `(x, y)`, blank over
    /// the default background, with the virtual surface equal to the
    /// viewport.
    pub fn new(width: u32, height: u32, x: u32, y: u32) -> (w: Window)
        requires
            width * height <= u32::MAX,
        ensures
            w.detached(),
            w.buffer.rect == (Rect { x, y, width, height }),
            w.buffer.scroll == (Rect { x: 0, y: 0, width, height }),
            w.buffer.bg == Color::Reset,
            w.buffer.content@ == Seq::new(
                (width * height) as nat,
                |i: int| Cell::blank(Color::Reset),
            ),
    {
        Window {
            buffer: Buffer::empty(
                Rect::new(x, y, width, height),
                Rect::new(0, 0, width, height),
            ),
            sub_windows: Vec::new(),
            parent: None,
            id: 0,
        }
    }

    /// Replaces the buffer with a fresh blank one of the given size at the
    /// same position, keeping the background color and discarding content.
    pub fn set_size(&mut self, width: u32, height: u32)
        requires
            width * height <= u32::MAX,
        ensures
            final(self).buffer.rect == (Rect { width, height, ..old(self).buffer.rect }),
            final(self).buffer.scroll == (Rect { x: 0, y: 0, width, height }),
            final(self).buffer.bg == old(self).buffer.bg,
            final(self).buffer.content@ == Seq::new(
                (width * height) as nat,
                |i: int| Cell::blank(old(self).buffer.bg),
            ),
            final(self).buffer.wf(),
            final(self).sub_windows == old(self).sub_windows,
            final(self).parent == old(self).parent,
            final(self).id == old(self).id,
    {
        let c = Cell::new_blank(self.buffer.get_bg());
        let r = Rect::new(self.buffer.left(), self.buffer.top(), width, height);
        let sr = Rect::new(0, 0, width, height);
        self.buffer = Buffer::filled(r, sr, c);
    }

    /// Builder form of `set_size`.
    pub fn size(self, width: u32, height: u32) -> (w: Window)
        requires
            width * height <= u32::MAX,
        ensures
            w.buffer.rect == (Rect { width, height, ..self.buffer.rect }),
            w.buffer.scroll == (Rect { x: 0, y: 0, width, height }),
            w.buffer.bg == self.buffer.bg,
            w.buffer.content@ == Seq::new(
                (width * height) as nat,
                |i: int| Cell::blank(self.buffer.bg),
            ),
            w.buffer.wf(),
            w.sub_windows == self.sub_windows,
            w.parent == self.parent,
            w.id == self.id,
    {
        let mut s = self;
        s.set_size(width, height);
        s
    }

    /// Builder: moves the viewport to `(x, y)` in the parent's space.
    pub fn xy(self, x: u32, y: u32) -> (w: Window)
        ensures
            w.buffer.rect == (Rect { x, y, ..self.buffer.rect }),
            w.buffer.scroll == self.buffer.scroll,
            w.buffer.bg == self.buffer.bg,
            w.buffer.content == self.buffer.content,
            w.sub_windows == self.sub_windows,
            w.parent == self.parent,
            w.id == self.id,
    {
        let mut s = self;
        s.buffer.set_pos(x, y);
        s
    }

    /// Builder: paints the background.
    pub fn bg(self, color: Color) -> (w: Window)
        ensures
            w.buffer.bg == color,
            w.buffer.rect == self.buffer.rect,
            w.buffer.scroll == self.buffer.scroll,
            w.buffer.content@ == Seq::new(
                self.buffer.content@.len(),
                |i: int| Cell { bg: color, ..self.buffer.content@[i] },
            ),
            w.sub_windows == self.sub_windows,
            w.parent == self.parent,
            w.id == self.id,
    {
        let mut s = self;
        s.buffer.set_bg(color);
        s
    }

    /// Builder: resizes the virtual surface, keeping the pan offset.
    pub fn scoll_size(self, width: u32, height: u32) -> (w: Window)
        requires
            self.buffer.wf(),
            self.buffer.scroll.x + self.buffer.rect.width <= width,
            self.buffer.scroll.y + self.buffer.rect.height <= height,
            width * height <= u32::MAX,
        ensures
            w.buffer.wf(),
            w.buffer.bg == self.buffer.bg,
            w.buffer.rect == self.buffer.rect,
            w.buffer.scroll == (Rect { width, height, ..self.buffer.scroll }),
            w.buffer.content@ == Seq::new(
                (width * height) as nat,
                |i: int| Cell::blank(self.buffer.bg),
            ),
            w.sub_windows == self.sub_windows,
            w.parent == self.parent,
            w.id == self.id,
    {
        let mut s = self;
        s.buffer.set_scroll_size(width, height);
        s
    }
}

impl Default for Window {
    /// A zero-sized detached window at the origin.
    fn default() -> (w: Window)
        ensures
            w.detached(),
            w.buffer.rect == (Rect { x: 0, y: 0, width: 0, height: 0 }),
            w.buffer.scroll == (Rect { x: 0, y: 0, width: 0, height: 0 }),
            w.buffer.bg == Color::Reset,
            w.buffer.content@.len() == 0,
    {
        Window::new(0, 0, 0, 0)
    }
}

/// The arena holding every node of one compositing tree (and any subtrees
/// that have been detached from it).
pub struct WindowTree {
    pub nodes: Vec<Window>,
}

impl WindowTree {
    pub open spec fn valid(&self, w: WindowRef) -> bool {
        w.idx < self.nodes@.len()
    }

    /// Consistency of one node: its buffer is well-formed; its parent was
    /// created earlier and lists it as child number `id`; its children were
    /// created later and each points back at it with the right slot.
    pub open spec fn node_wf(&self, i: int) -> bool {
        let n = self.nodes@[i];
        &&& n.buffer.wf()
        &&& match n.parent {
            Some(p) => {
                &&& (p as int) < i
                &&& (n.id as int) < self.nodes@[p as int].sub_windows@.len()
                &&& self.nodes@[p as int].sub_windows@[n.id as int] == i
            },
            None => true,
        }
        &&& forall|j: int|
            0 <= j < n.sub_windows@.len() ==> {
                let c = #[trigger] n.sub_windows@[j];
                &&& i < c < self.nodes@.len()
                &&& self.nodes@[c as int].parent == Some(i as usize)
                &&& self.nodes@[c as int].id == j
            }
    }

    pub open spec fn wf(&self) -> bool {
        forall|i: int| 0 <= i < self.nodes@.len() ==> #[trigger] self.node_wf(i)
    }

    /// Trees with the same shape — only buffers may differ.
    pub open spec fn same_structure(&self, other: &WindowTree) -> bool {
        &&& self.nodes@.len() == other.nodes@.len()
        &&& forall|i: int|
            0 <= i < self.nodes@.len() ==> {
                let a = self.nodes@[i];
                let b = #[trigger] other.nodes@[i];
                a.parent == b.parent && a.id == b.id && a.sub_windows@ == b.sub_windows@
            }
    }

    /// Well-formedness only looks at the shape and at each buffer's own
    /// well-formedness, so it carries over to a tree of the same shape
    /// whose buffers are all well-formed.
    pub proof fn lemma_same_structure_wf(&self, other: &WindowTree)
        requires
            self.wf(),
            self.same_structure(other),
            forall|i: int|
                0 <= i < other.nodes@.len() ==> (#[trigger] other.nodes@[i]).buffer.wf(),
        ensures
            other.wf(),
    {
        assert forall|i: int| 0 <= i < other.nodes@.len() implies #[trigger] other.node_wf(i) by {
            assert(self.node_wf(i));
            let n = other.nodes@[i];
            assert forall|j: int|
                0 <= j < n.sub_windows@.len() implies {
                    let c = #[trigger] n.sub_windows@[j];
                    &&& i < c < other.nodes@.len()
                    &&& other.nodes@[c as int].parent == Some(i as usize)
                    &&& other.nodes@[c as int].id == j
                } by {
                let c = self.nodes@[i].sub_windows@[j];
                assert(n.sub_windows@[j] == c);
            }
        }
    }

    /// Overwrites the slot index stored in node `c`.
    fn renumber_one(&mut self, c: usize, j: usize)
        requires
            c < old(self).nodes@.len(),
        ensures
            final(self).nodes@.len() == old(self).nodes@.len(),
            final(self).nodes@[c as int].id == j,
            final(self).nodes@[c as int].buffer == old(self).nodes@[c as int].buffer,
            final(self).nodes@[c as int].sub_windows == old(self).nodes@[c as int].sub_windows,
            final(self).nodes@[c as int].parent == old(self).nodes@[c as int].parent,
            forall|i: int|
                0 <= i < old(self).nodes@.len() && i != c ==> final(self).nodes@[i] == old(
                    self,
                ).nodes@[i],
    {
        let cnode = &mut self.nodes[c];
        cnode.set_id(j);
    }

    pub fn new() -> (t: WindowTree)
        ensures
            t.wf(),
            t.nodes@.len() == 0,
    {
        WindowTree { nodes: Vec::new() }
    }

    /// Puts a detached window into the arena as a new parentless node and
    /// hands back its handle.
    pub fn from_window(&mut self, win: Window) -> (r: WindowRef)
        requires
            old(self).wf(),
            win.detached(),
        ensures
            final(self).wf(),
            final(self).nodes@.len() == old(self).nodes@.len() + 1,
            r.idx == old(self).nodes@.len(),
            final(self).nodes@ == old(self).nodes@.push(win),
    {
        let idx = self.nodes.len();
        self.nodes.push(win);
        proof {
            assert forall|i: int| 0 <= i < self.nodes@.len() implies #[trigger] self.node_wf(i) by {
                if i < idx {
                    assert(old(self).node_wf(i));
                }
            }
        }
        WindowRef { idx }
    }

    /// Attaches a detached window as the last child of `parent`: the new
    /// node's slot index is the parent's old child count, and it is
    /// appended to the parent's children, on top in z-order.
    pub fn new_child(&mut self, parent: WindowRef, win: Window) -> (r: WindowRef)
        requires
            old(self).wf(),
            old(self).valid(parent),
            win.detached(),
        ensures
            final(self).wf(),
            final(self).valid(r),
            r.idx == old(self).nodes@.len(),
            final(self).nodes@.len() == old(self).nodes@.len() + 1,
            final(self).nodes@[r.idx as int].buffer == win.buffer,
            final(self).nodes@[r.idx as int].parent == Some(parent.idx),
            final(self).nodes@[r.idx as int].id == old(
                self,
            ).nodes@[parent.idx as int].sub_windows@.len(),
            final(self).nodes@[r.idx as int].sub_windows@.len() == 0,
            final(self).nodes@[parent.idx as int].sub_windows@ == old(
                self,
            ).nodes@[parent.idx as int].sub_windows@.push(r.idx),
            final(self).nodes@[parent.idx as int].buffer == old(
                self,
            ).nodes@[parent.idx as int].buffer,
            final(self).nodes@[parent.idx as int].parent == old(
                self,
            ).nodes@[parent.idx as int].parent,
            final(self).nodes@[parent.idx as int].id == old(self).nodes@[parent.idx as int].id,
            forall|i: int|
                0 <= i < old(self).nodes@.len() && i != parent.idx ==> final(self).nodes@[i] == old(
                    self,
                ).nodes@[i],
    {
        let idx = self.nodes.len();
        let mut win = win;
        let pnode = &mut self.nodes[parent.idx];
        win.id = pnode.sub_windows.len();
        win.parent = Some(parent.idx);
        pnode.sub_windows.push(idx);
        self.nodes.push(win);
        proof {
            assert forall|i: int| 0 <= i < self.nodes@.len() implies #[trigger] self.node_wf(i) by {
                if i < idx && i != parent.idx {
                    assert(old(self).node_wf(i));
                    let n = self.nodes@[i];
                    assert(n == old(self).nodes@[i]);
                    assert forall|j: int|
                        0 <= j < n.sub_windows@.len() implies {
                            let c = #[trigger] n.sub_windows@[j];
                            &&& i < c < self.nodes@.len()
                            &&& self.nodes@[c as int].parent == Some(i as usize)
                            &&& self.nodes@[c as int].id == j
                        } by {
                        let c = n.sub_windows@[j];
                        assert(old(self).nodes@[c as int].parent == Some(i as usize));
                        assert(c as int != idx);
                        assert(c as int != parent.idx || self.nodes@[c as int].parent == Some(
                            i as usize,
                        ));
                    }
                } else if i == parent.idx {
                    assert(old(self).node_wf(i));
                    let n = self.nodes@[i];
                    assert forall|j: int|
                        0 <= j < n.sub_windows@.len() implies {
                            let c = #[trigger] n.sub_windows@[j];
                            &&& i < c < self.nodes@.len()
                            &&& self.nodes@[c as int].parent == Some(i as usize)
                            &&& self.nodes@[c as int].id == j
                        } by {
                        if j < n.sub_windows@.len() - 1 {
                            assert(n.sub_windows@[j] == old(
                                self,
                            ).nodes@[parent.idx as int].sub_windows@[j]);
                            let c = n.sub_windows@[j];
                            assert(old(self).nodes@[c as int].parent == Some(i as usize));
                            assert(c as int != parent.idx);
                        } else {
                            assert(n.sub_windows@[j] == idx);
                        }
                    }
                } else {
                    assert(i == idx);
                }
            }
        }
        WindowRef { idx }
    }

    /// Renumbers the children of `p` after slot `id` was vacated: every
    /// child whose stored slot index exceeds `id` has it pulled down by
    /// one, so the indices again match the children's positions.
    fn close_gap(&mut self, p: usize, id: usize)
        requires
            p < old(self).nodes@.len(),
            id <= old(self).nodes@[p as int].sub_windows@.len(),
            forall|jj: int|
                0 <= jj < old(self).nodes@[p as int].sub_windows@.len() ==> {
                    let c = #[trigger] old(self).nodes@[p as int].sub_windows@[jj];
                    &&& (p as int) < c < old(self).nodes@.len()
                    &&& old(self).nodes@[c as int].parent == Some(p)
                    &&& old(self).nodes@[c as int].id == (if jj < id {
                        jj
                    } else {
                        jj + 1
                    })
                },
            forall|i: int|
                0 <= i < old(self).nodes@.len() && (#[trigger] old(self).nodes@[i]).parent
                    == Some(p) ==> {
                    let b = old(self).nodes@[i];
                    &&& b.id != id
                    &&& (b.id < id ==> (b.id as int)
                        < old(self).nodes@[p as int].sub_windows@.len() && old(
                        self,
                    ).nodes@[p as int].sub_windows@[b.id as int] == i)
                    &&& (b.id > id ==> b.id as int - 1 < old(
                        self,
                    ).nodes@[p as int].sub_windows@.len() && old(
                        self,
                    ).nodes@[p as int].sub_windows@[b.id as int - 1] == i)
                },
        ensures
            final(self).nodes@.len() == old(self).nodes@.len(),
            forall|i: int|
                0 <= i < old(self).nodes@.len() ==> #[trigger] final(self).nodes@[i] == {
                    let b = old(self).nodes@[i];
                    if b.parent == Some(p) && id < b.id {
                        Window { id: (b.id - 1) as usize, ..b }
                    } else {
                        b
                    }
                },
    {
        let len = self.nodes[p].sub_windows.len();
        let mut j = id;
        while j < len
            invariant
                p < self.nodes@.len(),
                self.nodes@.len() == old(self).nodes@.len(),
                len == old(self).nodes@[p as int].sub_windows@.len(),
                id <= j <= len,
                self.nodes@[p as int].sub_windows@ == old(self).nodes@[p as int].sub_windows@,
                forall|jj: int|
                    0 <= jj < len ==> {
                        let c = #[trigger] old(self).nodes@[p as int].sub_windows@[jj];
                        &&& (p as int) < c < old(self).nodes@.len()
                        &&& old(self).nodes@[c as int].parent == Some(p)
                        &&& old(self).nodes@[c as int].id == (if jj < id {
                            jj
                        } else {
                            jj + 1
                        })
                    },
                forall|i: int|
                    0 <= i < old(self).nodes@.len() && (#[trigger] old(self).nodes@[i]).parent
                        == Some(p) ==> {
                        let b = old(self).nodes@[i];
                        &&& b.id != id
                        &&& (b.id < id ==> (b.id as int) < len && old(
                            self,
                        ).nodes@[p as int].sub_windows@[b.id as int] == i)
                        &&& (b.id > id ==> b.id as int - 1 < len && old(
                            self,
                        ).nodes@[p as int].sub_windows@[b.id as int - 1] == i)
                    },
                forall|i: int|
                    0 <= i < old(self).nodes@.len() ==> #[trigger] self.nodes@[i] == {
                        let b = old(self).nodes@[i];
                        if b.parent == Some(p) && id < b.id && b.id <= j {
                            Window { id: (b.id - 1) as usize, ..b }
                        } else {
                            b
                        }
                    },
            decreases len - j,
        {
            let c = self.nodes[p].sub_windows[j];
            proof {
                assert(old(self).nodes@[p as int].sub_windows@[j as int] == c);
                assert(old(self).nodes@[c as int].id == j + 1);
                assert(self.nodes@[c as int] == old(self).nodes@[c as int]);
            }
            self.renumber_one(c, j);
            proof {
                assert forall|i: int|
                    0 <= i < old(self).nodes@.len() implies #[trigger] self.nodes@[i] == {
                    let b = old(self).nodes@[i];
                    if b.parent == Some(p) && id < b.id && b.id <= j + 1 {
                        Window { id: (b.id - 1) as usize, ..b }
                    } else {
                        b
                    }
                } by {
                    let b = old(self).nodes@[i];
                    if i != c {
                        if b.parent == Some(p) && b.id == j + 1 {
                            assert(old(self).nodes@[p as int].sub_windows@[j as int] == i);
                            assert(false);
                        }
                    } else {
                        assert(self.nodes@[i].id == j);
                        assert(self.nodes@[i].buffer == b.buffer);
                        assert(self.nodes@[i].sub_windows == b.sub_windows);
                        assert(self.nodes@[i].parent == b.parent);
                    }
                }
            }
            j = j + 1;
        }
    }

    /// How a tree after `delete(win)` relates to the tree before it:
    /// nothing at all changes for a parentless node; otherwise the one
    /// entry holding `win` disappears from its parent's children, the later
    /// siblings' slot indices close the gap, `win`'s back-reference is
    /// cleared, and everything else is untouched.
    pub open spec fn deleted_rel(&self, new: &WindowTree, win: WindowRef) -> bool {
        &&& new.nodes@.len() == self.nodes@.len()
        &&& (self.nodes@[win.idx as int].parent is None ==> new.nodes@ == self.nodes@)
        &&& (self.nodes@[win.idx as int].parent is Some ==> {
            let p = self.nodes@[win.idx as int].parent->0 as int;
            let oid = self.nodes@[win.idx as int].id as int;
            let oldc = self.nodes@[p].sub_windows@;
            &&& new.nodes@[win.idx as int].parent is None
            &&& new.nodes@[win.idx as int].id == 0
            &&& new.nodes@[win.idx as int].buffer == self.nodes@[win.idx as int].buffer
            &&& new.nodes@[win.idx as int].sub_windows == self.nodes@[win.idx as int].sub_windows
            &&& new.nodes@[p].sub_windows@ == oldc.remove(oid)
            &&& new.nodes@[p].buffer == self.nodes@[p].buffer
            &&& new.nodes@[p].parent == self.nodes@[p].parent
            &&& new.nodes@[p].id == self.nodes@[p].id
            &&& forall|i: int|
                0 <= i < self.nodes@.len() && i != win.idx && i != p ==> {
                    let a = #[trigger] new.nodes@[i];
                    let b = self.nodes@[i];
                    &&& a.buffer == b.buffer
                    &&& a.sub_windows@ == b.sub_windows@
                    &&& a.parent == b.parent
                    &&& a.id == if b.parent == self.nodes@[win.idx as int].parent && oid < b.id {
                        (b.id - 1) as usize
                    } else {
                        b.id
                    }
                }
        })
    }

    /// Detaches `win` from its parent: the one entry holding it disappears
    /// from the parent's children, the later siblings' slot indices are
    /// renumbered to close the gap, and `win`'s back-reference is cleared,
    /// so it now behaves as a parentless node. Its own subtree is kept but
    /// becomes unreachable from the old tree. Detaching a parentless node
    /// changes nothing.
    pub fn delete(&mut self, win: WindowRef)
        requires
            old(self).wf(),
            old(self).valid(win),
        ensures
            final(self).wf(),
            old(self).deleted_rel(final(self), win),
    {
        let p: usize;
        match self.nodes[win.idx].parent {
            None => {
                return ;
            },
            Some(pp) => {
                p = pp;
            },
        }
        proof {
            assert(old(self).node_wf(win.idx as int));
            assert(old(self).node_wf(p as int));
        }
        let id = self.nodes[win.idx].id;
        let ghost oldc = self.nodes@[p as int].sub_windows@;
        let ghost s = oldc.remove(id as int);
        proof {
            // the parent's children are pairwise distinct: each holds its
            // position as its slot index
            assert forall|a: int, b: int|
                0 <= a < oldc.len() && 0 <= b < oldc.len() && a != b implies oldc[a] != oldc[b] by {
                assert(old(self).nodes@[oldc[a] as int].id == a);
                assert(old(self).nodes@[oldc[b] as int].id == b);
            }
        }
        {
            let node = &mut self.nodes[win.idx];
            node.parent = None;
            node.id = 0;
        }
        {
            let pnode = &mut self.nodes[p];
            let _removed = pnode.sub_windows.remove(id);
        }
        let ghost mid = *self;
        proof {
            // the intermediate tree satisfies what close_gap asks of it
            assert(mid.nodes@[p as int].sub_windows@ == s);
            assert forall|jj: int| 0 <= jj < s.len() implies {
                let c = #[trigger] mid.nodes@[p as int].sub_windows@[jj];
                &&& (p as int) < c < mid.nodes@.len()
                &&& mid.nodes@[c as int].parent == Some(p)
                &&& mid.nodes@[c as int].id == (if jj < id {
                    jj
                } else {
                    jj + 1
                })
            } by {
                let u1: int = if jj < id {
                    jj
                } else {
                    jj + 1
                };
                assert(s[jj] == oldc[u1]);
                let c = s[jj];
                assert(old(self).nodes@[c as int].parent == Some(p));
                assert(old(self).nodes@[c as int].id == u1);
                assert(c != win.idx);
                assert(c as int != p as int);
            }
            assert forall|i: int|
                0 <= i < mid.nodes@.len() && (#[trigger] mid.nodes@[i]).parent == Some(p) implies {
                let b = mid.nodes@[i];
                &&& b.id != id
                &&& (b.id < id ==> (b.id as int) < s.len() && mid.nodes@[p as int].sub_windows@[b.id as int] == i)
                &&& (b.id > id ==> b.id as int - 1 < s.len() && mid.nodes@[p as int].sub_windows@[b.id as int - 1] == i)
            } by {
                assert(i != win.idx);
                assert(old(self).nodes@[i].parent == Some(p));
                assert(old(self).node_wf(i));
                let bid = old(self).nodes@[i].id as int;
                assert(oldc[bid] == i);
                assert(bid != id as int);
                if bid < id as int {
                    assert(s[bid] == oldc[bid]);
                } else {
                    assert(s[bid - 1] == oldc[bid]);
                }
            }
        }
        self.close_gap(p, id);
        proof {
            // pin down the final tree node by node
            assert forall|i: int|
                0 <= i < old(self).nodes@.len() && i != win.idx && i != p implies {
                let a = #[trigger] self.nodes@[i];
                let b = old(self).nodes@[i];
                &&& a.buffer == b.buffer
                &&& a.sub_windows@ == b.sub_windows@
                &&& a.parent == b.parent
                &&& a.id == if b.parent == Some(p) && (id as int) < b.id {
                    (b.id - 1) as usize
                } else {
                    b.id
                }
            } by {
                assert(mid.nodes@[i] == old(self).nodes@[i]);
                if old(self).nodes@[i].parent == Some(p) {
                    assert(old(self).node_wf(i));
                    assert(oldc[old(self).nodes@[i].id as int] == i);
                    assert(old(self).nodes@[i].id != id);
                }
            }
            assert(self.nodes@[win.idx as int].parent is None);
            assert(self.nodes@[win.idx as int].id == 0);
            assert(self.nodes@[p as int].sub_windows@ == s);
            assert(self.nodes@[p as int].buffer == old(self).nodes@[p as int].buffer);
            assert(self.nodes@[p as int].parent == old(self).nodes@[p as int].parent);
            assert(self.nodes@[p as int].id == old(self).nodes@[p as int].id);
            // and re-establish well-formedness
            assert forall|i: int| 0 <= i < self.nodes@.len() implies #[trigger] self.node_wf(
                i,
            ) by {
                assert(old(self).node_wf(i));
                let n = self.nodes@[i];
                let b = old(self).nodes@[i];
                if i == win.idx {
                    assert forall|jj: int|
                        0 <= jj < n.sub_windows@.len() implies {
                            let c = #[trigger] n.sub_windows@[jj];
                            &&& i < c < self.nodes@.len()
                            &&& self.nodes@[c as int].parent == Some(i as usize)
                            &&& self.nodes@[c as int].id == jj
                        } by {
                        let c = n.sub_windows@[jj] as int;
                        assert(old(self).nodes@[c].parent == Some(i as usize));
                        assert(c != win.idx && c != p);
                        assert(self.nodes@[c].parent == old(self).nodes@[c].parent);
                        assert(self.nodes@[c].id == old(self).nodes@[c].id);
                    }
                } else {
                    match n.parent {
                        Some(q) => {
                            assert(n.parent == b.parent);
                            if (q as int) == p as int {
                                let bid = b.id as int;
                                assert(oldc[bid] == i);
                                if bid < id as int {
                                    assert(n.id == bid);
                                    assert(s[bid] == oldc[bid]);
                                } else {
                                    assert(n.id == bid - 1);
                                    assert(s[bid - 1] == oldc[bid]);
                                }
                            } else {
                                assert(self.nodes@[q as int].sub_windows@ == old(
                                    self,
                                ).nodes@[q as int].sub_windows@);
                                assert(n.id == b.id);
                                assert(self.nodes@[q as int].sub_windows@[n.id as int] == i);
                            }
                        },
                        None => {},
                    }
                    assert forall|jj: int|
                        0 <= jj < n.sub_windows@.len() implies {
                            let c = #[trigger] n.sub_windows@[jj];
                            &&& i < c < self.nodes@.len()
                            &&& self.nodes@[c as int].parent == Some(i as usize)
                            &&& self.nodes@[c as int].id == jj
                        } by {
                        if i == p as int {
                            assert(n.sub_windows@ == s);
                            let u1: int = if jj < id {
                                jj
                            } else {
                                jj + 1
                            };
                            assert(s[jj] == oldc[u1]);
                            let c = s[jj] as int;
                            assert(old(self).nodes@[c].parent == Some(p));
                            assert(old(self).nodes@[c].id == u1);
                            assert(c != win.idx);
                            if c == p as int {
                                assert(false);
                            }
                            assert(self.nodes@[c].parent == Some(p));
                            assert(self.nodes@[c].id == jj);
                        } else {
                            assert(n.sub_windows@ == b.sub_windows@);
                            let c = n.sub_windows@[jj] as int;
                            assert(old(self).nodes@[c].parent == Some(i as usize));
                            assert(c != win.idx);
                            if c == p as int {
                                assert(self.nodes@[c].parent == old(self).nodes@[c].parent);
                                assert(self.nodes@[c].id == old(self).nodes@[c].id);
                            } else {
                                assert(self.nodes@[c].parent == Some(i as usize));
                                assert(self.nodes@[c].id == old(self).nodes@[c].id);
                            }
                        }
                    }
                }
            }
        }
    }

    /// Whether this node has no parent.
    pub fn is_root(&self, win: WindowRef) -> (r: bool)
        requires
            self.valid(win),
        ensures
            r == (self.nodes@[win.idx as int].parent is None),
    {
        match self.nodes[win.idx].parent {
            Some(_) => false,
            None => true,
        }
    }

    /// The absolute top (screen y) of node `i`: its own viewport top plus
    /// the tops of all its ancestors. The guards only cut off states a
    /// well-formed tree cannot be in.
    pub open spec fn spec_abs_top(&self, i: int) -> int
        decreases i,
    {
        if 0 <= i < self.nodes@.len() {
            match self.nodes@[i].parent {
                None => self.nodes@[i].buffer.rect.y as int,
                Some(p) => if (p as int) < i {
                    self.nodes@[i].buffer.rect.y + self.spec_abs_top(p as int)
                } else {
                    self.nodes@[i].buffer.rect.y as int
                },
            }
        } else {
            0
        }
    }

    /// The absolute left (screen x) of node `i`, summed the same way.
    pub open spec fn spec_abs_left(&self, i: int) -> int
        decreases i,
    {
        if 0 <= i < self.nodes@.len() {
            match self.nodes@[i].parent {
                None => self.nodes@[i].buffer.rect.x as int,
                Some(p) => if (p as int) < i {
                    self.nodes@[i].buffer.rect.x + self.spec_abs_left(p as int)
                } else {
                    self.nodes@[i].buffer.rect.x as int
                },
            }
        } else {
            0
        }
    }

    /// The root above node `i`: `i` itself if parentless, else the root
    /// above its parent.
    pub open spec fn spec_root_of(&self, i: int) -> int
        decreases i,
    {
        if 0 <= i < self.nodes@.len() {
            match self.nodes@[i].parent {
                None => i,
                Some(p) => if (p as int) < i {
                    self.spec_root_of(p as int)
                } else {
                    i
                },
            }
        } else {
            i
        }
    }

    /// In a well-formed tree the absolute position dominates the node's own
    /// offset, and the root above any node is a valid parentless node.
    pub proof fn lemma_abs_pos_facts(&self, i: int)
        requires
            self.wf(),
            0 <= i < self.nodes@.len(),
        ensures
            self.spec_abs_top(i) >= self.nodes@[i].buffer.rect.y,
            self.spec_abs_left(i) >= self.nodes@[i].buffer.rect.x,
            0 <= self.spec_root_of(i) <= i,
            self.spec_root_of(i) < self.nodes@.len(),
            self.nodes@[self.spec_root_of(i)].parent is None,
        decreases i,
    {
        assert(self.node_wf(i));
        match self.nodes@[i].parent {
            None => {},
            Some(p) => {
                self.lemma_abs_pos_facts(p as int);
            },
        }
    }

    /// The absolute position is the sum of the per-level offsets: a root
    /// sits at its own viewport offset, and every other node sits at its
    /// own offset plus its parent's absolute position.
    pub proof fn lemma_abs_pos_is_offset_sum(&self, i: int)
        requires
            self.wf(),
            0 <= i < self.nodes@.len(),
        ensures
            match self.nodes@[i].parent {
                None => self.spec_abs_top(i) == self.nodes@[i].buffer.rect.y
                    && self.spec_abs_left(i) == self.nodes@[i].buffer.rect.x,
                Some(p) => self.spec_abs_top(i) == self.nodes@[i].buffer.rect.y
                    + self.spec_abs_top(p as int) && self.spec_abs_left(i)
                    == self.nodes@[i].buffer.rect.x + self.spec_abs_left(p as int),
            },
    {
        assert(self.node_wf(i));
    }

    /// The `(top, left)` screen position of this node: the sum of its own
    /// viewport offset and every ancestor's, up to the root.
    pub fn abs_pos(&self, win: WindowRef) -> (r: (u32, u32))
        requires
            self.wf(),
            self.valid(win),
            self.spec_abs_top(win.idx as int) <= u32::MAX,
            self.spec_abs_left(win.idx as int) <= u32::MAX,
        ensures
            r.0 == self.spec_abs_top(win.idx as int),
            r.1 == self.spec_abs_left(win.idx as int),
    {
        let mut cur: usize = win.idx;
        let mut top: u32 = 0;
        let mut left: u32 = 0;
        loop
            invariant
                self.wf(),
                self.valid(win),
                cur < self.nodes@.len(),
                self.spec_abs_top(win.idx as int) <= u32::MAX,
                self.spec_abs_left(win.idx as int) <= u32::MAX,
                top + self.spec_abs_top(cur as int) == self.spec_abs_top(win.idx as int),
                left + self.spec_abs_left(cur as int) == self.spec_abs_left(win.idx as int),
            decreases cur,
        {
            proof {
                self.lemma_abs_pos_facts(cur as int);
                assert(self.node_wf(cur as int));
            }
            let node = &self.nodes[cur];
            match node.parent {
                None => {
                    return (top + node.buffer.top(), left + node.buffer.left());
                },
                Some(p) => {
                    top = top + node.buffer.top();
                    left = left + node.buffer.left();
                    cur = p;
                },
            }
        }
    }

    /// Composites a grid of cells into the buffer of node `dst`, clipped to
    /// that buffer's viewport; nothing else in the tree changes.
    fn composite_at(&mut self, dst: WindowRef, cells: &Vec<Cell>, src_w: u32, src_h: u32, top: u32, left: u32)
        requires
            old(self).wf(),
            old(self).valid(dst),
            cells@.len() == src_w * src_h,
        ensures
            final(self).wf(),
            final(self).nodes@.len() == old(self).nodes@.len(),
            forall|i: int|
                0 <= i < old(self).nodes@.len() && i != dst.idx ==> final(self).nodes@[i] == old(
                    self,
                ).nodes@[i],
            final(self).nodes@[dst.idx as int].sub_windows == old(
                self,
            ).nodes@[dst.idx as int].sub_windows,
            final(self).nodes@[dst.idx as int].parent == old(self).nodes@[dst.idx as int].parent,
            final(self).nodes@[dst.idx as int].id == old(self).nodes@[dst.idx as int].id,
            final(self).nodes@[dst.idx as int].buffer.frame() == old(
                self,
            ).nodes@[dst.idx as int].buffer.frame(),
            final(self).nodes@[dst.idx as int].buffer.content@.len() == old(
                self,
            ).nodes@[dst.idx as int].buffer.content@.len(),
            forall|k: int|
                0 <= k < old(self).nodes@[dst.idx as int].buffer.content@.len() ==> final(self).nodes@[dst.idx as int].buffer.content@[k] == composited_cell(
                    old(self).nodes@[dst.idx as int].buffer,
                    cells@,
                    src_w as int,
                    src_h as int,
                    top as int,
                    left as int,
                    k,
                ),
    {
        proof {
            assert(old(self).node_wf(dst.idx as int));
        }
        let node = &mut self.nodes[dst.idx];
        node.buffer.composite_cells(cells, src_w, src_h, top, left);
        proof {
            assert(old(self).same_structure(self));
            assert forall|i: int|
                0 <= i < self.nodes@.len() implies (#[trigger] self.nodes@[i]).buffer.wf() by {
                assert(old(self).node_wf(i));
            }
            old(self).lemma_same_structure_wf(self);
        }
    }

    /// Composites the visible cells of node `src` into the buffer of node
    /// `dst` at `src`'s own viewport offset, clipped to `dst`'s viewport.
    pub fn render_window(&mut self, dst: WindowRef, src: WindowRef)
        requires
            old(self).wf(),
            old(self).valid(dst),
            old(self).valid(src),
        ensures
            final(self).wf(),
            final(self).nodes@.len() == old(self).nodes@.len(),
            forall|i: int|
                0 <= i < old(self).nodes@.len() && i != dst.idx ==> final(self).nodes@[i] == old(
                    self,
                ).nodes@[i],
            final(self).nodes@[dst.idx as int].sub_windows == old(
                self,
            ).nodes@[dst.idx as int].sub_windows,
            final(self).nodes@[dst.idx as int].parent == old(self).nodes@[dst.idx as int].parent,
            final(self).nodes@[dst.idx as int].id == old(self).nodes@[dst.idx as int].id,
            final(self).nodes@[dst.idx as int].buffer.frame() == old(
                self,
            ).nodes@[dst.idx as int].buffer.frame(),
            final(self).nodes@[dst.idx as int].buffer.content@.len() == old(
                self,
            ).nodes@[dst.idx as int].buffer.content@.len(),
            forall|k: int|
                0 <= k < old(self).nodes@[dst.idx as int].buffer.content@.len() ==> final(self).nodes@[dst.idx as int].buffer.content@[k] == composited_cell(
                    old(self).nodes@[dst.idx as int].buffer,
                    old(self).nodes@[src.idx as int].buffer.visible_seq(),
                    old(self).nodes@[src.idx as int].buffer.rect.width as int,
                    old(self).nodes@[src.idx as int].buffer.rect.height as int,
                    old(self).nodes@[src.idx as int].buffer.rect.y as int,
                    old(self).nodes@[src.idx as int].buffer.rect.x as int,
                    k,
                ),
    {
        proof {
            assert(old(self).node_wf(src.idx as int));
        }
        let (top, left) = {
            let b = &self.nodes[src.idx].buffer;
            (b.top(), b.left())
        };
        let (src_w, src_h) = {
            let b = &self.nodes[src.idx].buffer;
            (b.width(), b.height())
        };
        let cells = self.nodes[src.idx].buffer.visible_copy();
        proof {
            crate::rect::lemma_mul_bounds(src_w as int, src_h as int);
        }
        self.composite_at(dst, &cells, src_w, src_h, top, left);
    }

    /// Composites this node's visible cells into its immediate parent's
    /// buffer at its own offset. Calling it on a parentless node is a
    /// programmer error and is excluded by contract.
    pub fn render_to_parent(&mut self, win: WindowRef)
        requires
            old(self).wf(),
            old(self).valid(win),
            old(self).nodes@[win.idx as int].parent is Some,
        ensures
            final(self).wf(),
            final(self).nodes@.len() == old(self).nodes@.len(),
            ({
                let p = old(self).nodes@[win.idx as int].parent->0 as int;
                &&& forall|i: int|
                    0 <= i < old(self).nodes@.len() && i != p ==> final(self).nodes@[i] == old(
                        self,
                    ).nodes@[i]
                &&& final(self).nodes@[p].sub_windows == old(self).nodes@[p].sub_windows
                &&& final(self).nodes@[p].parent == old(self).nodes@[p].parent
                &&& final(self).nodes@[p].id == old(self).nodes@[p].id
                &&& final(self).nodes@[p].buffer.frame() == old(self).nodes@[p].buffer.frame()
                &&& final(self).nodes@[p].buffer.content@.len() == old(
                    self,
                ).nodes@[p].buffer.content@.len()
                &&& forall|k: int|
                    0 <= k < old(self).nodes@[p].buffer.content@.len() ==> final(self).nodes@[p].buffer.content@[k] == composited_cell(
                        old(self).nodes@[p].buffer,
                        old(self).nodes@[win.idx as int].buffer.visible_seq(),
                        old(self).nodes@[win.idx as int].buffer.rect.width as int,
                        old(self).nodes@[win.idx as int].buffer.rect.height as int,
                        old(self).nodes@[win.idx as int].buffer.rect.y as int,
                        old(self).nodes@[win.idx as int].buffer.rect.x as int,
                        k,
                    )
            }),
    {
        proof {
            assert(old(self).node_wf(win.idx as int));
        }
        let p = match self.nodes[win.idx].parent {
            Some(p) => p,
            None => unreached(),
        };
        self.render_window(WindowRef { idx: p }, win);
    }

    /// Pushes this node's visible cells all the way to the buffer of the
    /// root above it: offsets of the intermediate ancestors are summed and
    /// one composite is performed directly against the root's buffer, at
    /// the node's screen position relative to the root's own origin.
    /// Calling it on a parentless node is a programmer error and is
    /// excluded by contract.
    pub fn render(&mut self, win: WindowRef)
        requires
            old(self).wf(),
            old(self).valid(win),
            old(self).nodes@[win.idx as int].parent is Some,
            old(self).spec_abs_top(win.idx as int) <= u32::MAX,
            old(self).spec_abs_left(win.idx as int) <= u32::MAX,
        ensures
            final(self).wf(),
            final(self).nodes@.len() == old(self).nodes@.len(),
            ({
                let r = old(self).spec_root_of(win.idx as int);
                let dstb = old(self).nodes@[r].buffer;
                let srcb = old(self).nodes@[win.idx as int].buffer;
                let top = old(self).spec_abs_top(win.idx as int) - old(self).spec_abs_top(r);
                let left = old(self).spec_abs_left(win.idx as int) - old(self).spec_abs_left(r);
                &&& forall|i: int|
                    0 <= i < old(self).nodes@.len() && i != r ==> final(self).nodes@[i] == old(
                        self,
                    ).nodes@[i]
                &&& final(self).nodes@[r].sub_windows == old(self).nodes@[r].sub_windows
                &&& final(self).nodes@[r].parent == old(self).nodes@[r].parent
                &&& final(self).nodes@[r].id == old(self).nodes@[r].id
                &&& final(self).nodes@[r].buffer.frame() == dstb.frame()
                &&& final(self).nodes@[r].buffer.content@.len() == dstb.content@.len()
                &&& forall|k: int|
                    0 <= k < dstb.content@.len() ==> final(self).nodes@[r].buffer.content@[k]
                        == composited_cell(
                        dstb,
                        srcb.visible_seq(),
                        srcb.rect.width as int,
                        srcb.rect.height as int,
                        top,
                        left,
                        k,
                    )
            }),
    {
        proof {
            assert(old(self).node_wf(win.idx as int));
            old(self).lemma_abs_pos_facts(win.idx as int);
        }
        let (src_w, src_h) = {
            let b = &self.nodes[win.idx].buffer;
            (b.width(), b.height())
        };
        let cells = self.nodes[win.idx].buffer.visible_copy();
        proof {
            crate::rect::lemma_mul_bounds(src_w as int, src_h as int);
        }
        let mut top: u32 = self.nodes[win.idx].buffer.top();
        let mut left: u32 = self.nodes[win.idx].buffer.left();
        let mut cur: usize = match self.nodes[win.idx].parent {
            Some(p) => p,
            None => unreached(),
        };
        loop
            invariant
                self.wf(),
                *self == *old(self),
                self.valid(win),
                cells@ == old(self).nodes@[win.idx as int].buffer.visible_seq(),
                cells@.len() == src_w * src_h,
                src_w == old(self).nodes@[win.idx as int].buffer.rect.width,
                src_h == old(self).nodes@[win.idx as int].buffer.rect.height,
                cur < self.nodes@.len(),
                self.spec_abs_top(win.idx as int) <= u32::MAX,
                self.spec_abs_left(win.idx as int) <= u32::MAX,
                top + self.spec_abs_top(cur as int) == self.spec_abs_top(win.idx as int),
                left + self.spec_abs_left(cur as int) == self.spec_abs_left(win.idx as int),
                self.spec_root_of(cur as int) == self.spec_root_of(win.idx as int),
            decreases cur,
        {
            proof {
                self.lemma_abs_pos_facts(cur as int);
                assert(self.node_wf(cur as int));
            }
            let is_root_here = match self.nodes[cur].parent {
                Some(_) => false,
                None => true,
            };
            if is_root_here {
                self.composite_at(WindowRef { idx: cur }, &cells, src_w, src_h, top, left);
                return ;
            }
            let node = &self.nodes[cur];
            match node.parent {
                Some(p) => {
                    top = top + node.buffer.top();
                    left = left + node.buffer.left();
                    cur = p;
                },
                None => {
                    proof {
                        assert(false);
                    }
                },
            }
        }
    }

    /// Absolute positions and the root walk depend only on the tree's shape
    /// and the viewport rectangles, not on any cell contents.
    pub proof fn lemma_abs_same(t1: &WindowTree, t2: &WindowTree, i: int)
        requires
            t1.same_structure(t2),
            forall|j: int|
                0 <= j < t1.nodes@.len() ==> (#[trigger] t2.nodes@[j]).buffer.rect
                    == t1.nodes@[j].buffer.rect,
        ensures
            t1.spec_abs_top(i) == t2.spec_abs_top(i),
            t1.spec_abs_left(i) == t2.spec_abs_left(i),
            t1.spec_root_of(i) == t2.spec_root_of(i),
        decreases i,
    {
        if 0 <= i < t1.nodes@.len() {
            match t1.nodes@[i].parent {
                Some(p) => {
                    if (p as int) < i {
                        Self::lemma_abs_same(t1, t2, p as int);
                    }
                },
                None => {},
            }
        }
    }

    /// The root's contents after compositing children `cs[0 .. n]` of the
    /// tree `t` into its root `r`, youngest last, each at its screen offset
    /// relative to the root.
    pub open spec fn spec_render_children(
        t: WindowTree,
        r: int,
        cs: Seq<usize>,
        n: int,
        base: Seq<Cell>,
    ) -> Seq<Cell>
        decreases n,
    {
        if n <= 0 {
            base
        } else {
            let prev = Self::spec_render_children(t, r, cs, n - 1, base);
            let c = cs[n - 1] as int;
            crate::buffer::composited_content(
                prev,
                t.nodes@[r].buffer.rect,
                t.nodes@[r].buffer.scroll,
                t.nodes@[c].buffer.visible_seq(),
                t.nodes@[c].buffer.rect.width as int,
                t.nodes@[c].buffer.rect.height as int,
                t.spec_abs_top(c) - t.spec_abs_top(r),
                t.spec_abs_left(c) - t.spec_abs_left(r),
            )
        }
    }

    /// Renders each immediate child of `win` in z-order: every child's
    /// visible cells are pushed to the root's buffer in turn.
    pub fn render_children(&mut self, win: WindowRef)
        requires
            old(self).wf(),
            old(self).valid(win),
            forall|j: int|
                0 <= j < old(self).nodes@[win.idx as int].sub_windows@.len() ==> old(
                    self,
                ).spec_abs_top(
                    #[trigger] old(self).nodes@[win.idx as int].sub_windows@[j] as int,
                ) <= u32::MAX && old(self).spec_abs_left(
                    old(self).nodes@[win.idx as int].sub_windows@[j] as int,
                ) <= u32::MAX,
        ensures
            final(self).wf(),
            final(self).nodes@.len() == old(self).nodes@.len(),
            ({
                let r = old(self).spec_root_of(win.idx as int);
                let cs = old(self).nodes@[win.idx as int].sub_windows@;
                &&& forall|i: int|
                    0 <= i < old(self).nodes@.len() && i != r ==> final(self).nodes@[i] == old(
                        self,
                    ).nodes@[i]
                &&& final(self).nodes@[r].sub_windows == old(self).nodes@[r].sub_windows
                &&& final(self).nodes@[r].parent == old(self).nodes@[r].parent
                &&& final(self).nodes@[r].id == old(self).nodes@[r].id
                &&& final(self).nodes@[r].buffer.frame() == old(self).nodes@[r].buffer.frame()
                &&& final(self).nodes@[r].buffer.content@ == Self::spec_render_children(
                    *old(self),
                    r,
                    cs,
                    cs.len() as int,
                    old(self).nodes@[r].buffer.content@,
                )
            }),
    {
        proof {
            old(self).lemma_abs_pos_facts(win.idx as int);
        }
        let ghost r = old(self).spec_root_of(win.idx as int);
        let ghost cs = old(self).nodes@[win.idx as int].sub_windows@;
        let n = self.nodes[win.idx].sub_windows.len();
        let mut j: usize = 0;
        while j < n
            invariant
                old(self).wf(),
                old(self).valid(win),
                r == old(self).spec_root_of(win.idx as int),
                0 <= r < old(self).nodes@.len(),
                cs == old(self).nodes@[win.idx as int].sub_windows@,
                n == cs.len(),
                j <= n,
                forall|jj: int|
                    0 <= jj < cs.len() ==> old(self).spec_abs_top(#[trigger] cs[jj] as int)
                        <= u32::MAX && old(self).spec_abs_left(cs[jj] as int) <= u32::MAX,
                self.wf(),
                self.nodes@.len() == old(self).nodes@.len(),
                forall|i: int|
                    0 <= i < old(self).nodes@.len() && i != r ==> self.nodes@[i] == old(
                        self,
                    ).nodes@[i],
                self.nodes@[r].sub_windows == old(self).nodes@[r].sub_windows,
                self.nodes@[r].parent == old(self).nodes@[r].parent,
                self.nodes@[r].id == old(self).nodes@[r].id,
                self.nodes@[r].buffer.frame() == old(self).nodes@[r].buffer.frame(),
                self.nodes@[r].buffer.content@ == Self::spec_render_children(
                    *old(self),
                    r,
                    cs,
                    j as int,
                    old(self).nodes@[r].buffer.content@,
                ),
            decreases n - j,
        {
            proof {
                assert(old(self).node_wf(win.idx as int));
                assert(old(self).same_structure(self));
                Self::lemma_abs_same(old(self), self, cs[j as int] as int);
                Self::lemma_abs_same(old(self), self, win.idx as int);
                Self::lemma_abs_same(old(self), self, r);
                assert(self.node_wf(win.idx as int));
            }
            let c = self.nodes[win.idx].sub_windows[j];
            let ghost mid = *self;
            proof {
                // the child hangs off `win`, so its root is the same root
                assert(mid.nodes@[c as int].parent == Some(win.idx));
                assert(mid.spec_root_of(c as int) == mid.spec_root_of(win.idx as int));
                Self::lemma_abs_same(old(self), &mid, c as int);
                assert(mid.spec_abs_top(c as int) <= u32::MAX);
            }
            self.render(WindowRef { idx: c });
            proof {
                let ghost rr = mid.spec_root_of(c as int);
                assert(rr == r) by {
                    Self::lemma_abs_same(old(self), &mid, win.idx as int);
                }
                let dstb = mid.nodes@[r].buffer;
                let srcb = mid.nodes@[c as int].buffer;
                let top = mid.spec_abs_top(c as int) - mid.spec_abs_top(r);
                let left = mid.spec_abs_left(c as int) - mid.spec_abs_left(r);
                old(self).lemma_abs_pos_facts(win.idx as int);
                assert(old(self).nodes@[r].parent is None);
                assert(old(self).nodes@[c as int].parent == Some(win.idx));
                assert((c as int) != r);
                assert(srcb == old(self).nodes@[c as int].buffer);
                assert forall|k: int| 0 <= k < dstb.content@.len() implies self.nodes@[r].buffer.content@[k]
                    == crate::buffer::composited_cell_at(
                    dstb.content@,
                    dstb.rect,
                    dstb.scroll,
                    srcb.visible_seq(),
                    srcb.rect.width as int,
                    srcb.rect.height as int,
                    top,
                    left,
                    k,
                ) by {
                    crate::buffer::lemma_composited_cell_parts(
                        dstb,
                        srcb.visible_seq(),
                        srcb.rect.width as int,
                        srcb.rect.height as int,
                        top,
                        left,
                        k,
                    );
                }
                assert(self.nodes@[r].buffer.content@ =~= Self::spec_render_children(
                    *old(self),
                    r,
                    cs,
                    j as int + 1,
                    old(self).nodes@[r].buffer.content@,
                )) by {
                    Self::lemma_abs_same(old(self), &mid, c as int);
                    Self::lemma_abs_same(old(self), &mid, r);
                }
            }
            j = j + 1;
        }
    }

    /// Every node's absolute position fits in `u32` on both axes.
    pub open spec fn abs_bounded(&self) -> bool {
        forall|i: int|
            0 <= i < self.nodes@.len() ==> #[trigger] self.spec_abs_top(i) <= u32::MAX
                && self.spec_abs_left(i) <= u32::MAX
    }

    /// The root's contents after recursively rendering the first `n`
    /// children of node `i` of tree `t`, each child first composited into
    /// the root `r` and then processed the same way in turn.
    pub open spec fn spec_render_deep_list(
        t: WindowTree,
        r: int,
        i: int,
        n: int,
        base: Seq<Cell>,
    ) -> Seq<Cell>
        decreases t.nodes@.len() - i, 0int, n,
    {
        if n <= 0 || !(0 <= i < t.nodes@.len()) {
            base
        } else if n - 1 < t.nodes@[i].sub_windows@.len() {
            let prev = Self::spec_render_deep_list(t, r, i, n - 1, base);
            let c = t.nodes@[i].sub_windows@[n - 1] as int;
            let after = crate::buffer::composited_content(
                prev,
                t.nodes@[r].buffer.rect,
                t.nodes@[r].buffer.scroll,
                t.nodes@[c].buffer.visible_seq(),
                t.nodes@[c].buffer.rect.width as int,
                t.nodes@[c].buffer.rect.height as int,
                t.spec_abs_top(c) - t.spec_abs_top(r),
                t.spec_abs_left(c) - t.spec_abs_left(r),
            );
            if i < c < t.nodes@.len() {
                Self::spec_render_deep(t, r, c, after)
            } else {
                after
            }
        } else {
            base
        }
    }

    /// The root's contents after recursively rendering the whole subtree
    /// below node `i`.
    pub open spec fn spec_render_deep(t: WindowTree, r: int, i: int, base: Seq<Cell>) -> Seq<Cell>
        decreases t.nodes@.len() - i, 1int, 0int,
    {
        if 0 <= i < t.nodes@.len() {
            Self::spec_render_deep_list(t, r, i, t.nodes@[i].sub_windows@.len() as int, base)
        } else {
            base
        }
    }

    /// The deep-render fold only reads the tree's shape, the viewports, the
    /// non-root buffers and the root's frame, so it is unchanged between
    /// two trees that agree on those (as they do while only the root's
    /// contents accumulate composites).
    pub proof fn lemma_render_deep_congruence(
        t1: &WindowTree,
        t2: &WindowTree,
        r: int,
        i: int,
        n: int,
        base: Seq<Cell>,
    )
        requires
            t1.wf(),
            0 <= r < t1.nodes@.len(),
            t1.nodes@[r].parent is None,
            t1.same_structure(t2),
            forall|j: int|
                0 <= j < t1.nodes@.len() && j != r ==> #[trigger] t2.nodes@[j].buffer
                    == t1.nodes@[j].buffer,
            t2.nodes@[r].buffer.frame() == t1.nodes@[r].buffer.frame(),
        ensures
            Self::spec_render_deep_list(*t1, r, i, n, base) == Self::spec_render_deep_list(
                *t2,
                r,
                i,
                n,
                base,
            ),
            Self::spec_render_deep(*t1, r, i, base) == Self::spec_render_deep(*t2, r, i, base),
        decreases t1.nodes@.len() - i, 2int, n,
    {
        assert forall|j: int|
            0 <= j < t1.nodes@.len() implies #[trigger] t2.nodes@[j].buffer.rect
            == t1.nodes@[j].buffer.rect by {}
        if 0 <= i < t1.nodes@.len() {
            Self::lemma_render_deep_congruence_list(
                t1,
                t2,
                r,
                i,
                t1.nodes@[i].sub_windows@.len() as int,
                base,
            );
            if n >= 0 {
                Self::lemma_render_deep_congruence_list(t1, t2, r, i, n, base);
            }
        }
    }

    /// The list half of the previous congruence, by induction over the
    /// fold.
    pub proof fn lemma_render_deep_congruence_list(
        t1: &WindowTree,
        t2: &WindowTree,
        r: int,
        i: int,
        n: int,
        base: Seq<Cell>,
    )
        requires
            t1.wf(),
            0 <= r < t1.nodes@.len(),
            t1.nodes@[r].parent is None,
            t1.same_structure(t2),
            forall|j: int|
                0 <= j < t1.nodes@.len() && j != r ==> #[trigger] t2.nodes@[j].buffer
                    == t1.nodes@[j].buffer,
            t2.nodes@[r].buffer.frame() == t1.nodes@[r].buffer.frame(),
        ensures
            Self::spec_render_deep_list(*t1, r, i, n, base) == Self::spec_render_deep_list(
                *t2,
                r,
                i,
                n,
                base,
            ),
        decreases t1.nodes@.len() - i, 1int, n,
    {
        if n <= 0 || !(0 <= i < t1.nodes@.len()) {
        } else if n - 1 < t1.nodes@[i].sub_windows@.len() {
            Self::lemma_render_deep_congruence_list(t1, t2, r, i, n - 1, base);
            Self::lemma_abs_same(t1, t2, r);
            let c = t1.nodes@[i].sub_windows@[n - 1] as int;
            assert(t1.node_wf(i));
            assert(t1.nodes@[c].parent == Some(i as usize));
            assert(c != r);
            Self::lemma_abs_same(t1, t2, c);
            if i < c < t1.nodes@.len() {
                let prev = Self::spec_render_deep_list(*t1, r, i, n - 1, base);
                let after = crate::buffer::composited_content(
                    prev,
                    t1.nodes@[r].buffer.rect,
                    t1.nodes@[r].buffer.scroll,
                    t1.nodes@[c].buffer.visible_seq(),
                    t1.nodes@[c].buffer.rect.width as int,
                    t1.nodes@[c].buffer.rect.height as int,
                    t1.spec_abs_top(c) - t1.spec_abs_top(r),
                    t1.spec_abs_left(c) - t1.spec_abs_left(r),
                );
                Self::lemma_render_deep_congruence(t1, t2, r, c, 0, after);
            }
        }
    }

    /// Renders the whole subtree below `win`, depth first and in z-order:
    /// each child is pushed to the root's buffer and then its own subtree
    /// is rendered the same way.
    pub fn render_deep(&mut self, win: WindowRef)
        requires
            old(self).wf(),
            old(self).valid(win),
            old(self).abs_bounded(),
        ensures
            final(self).wf(),
            final(self).abs_bounded(),
            final(self).nodes@.len() == old(self).nodes@.len(),
            ({
                let r = old(self).spec_root_of(win.idx as int);
                &&& forall|i: int|
                    0 <= i < old(self).nodes@.len() && i != r ==> final(self).nodes@[i] == old(
                        self,
                    ).nodes@[i]
                &&& final(self).nodes@[r].sub_windows == old(self).nodes@[r].sub_windows
                &&& final(self).nodes@[r].parent == old(self).nodes@[r].parent
                &&& final(self).nodes@[r].id == old(self).nodes@[r].id
                &&& final(self).nodes@[r].buffer.frame() == old(self).nodes@[r].buffer.frame()
                &&& final(self).nodes@[r].buffer.content@ == Self::spec_render_deep(
                    *old(self),
                    r,
                    win.idx as int,
                    old(self).nodes@[r].buffer.content@,
                )
            }),
        decreases old(self).nodes@.len() - win.idx,
    {
        proof {
            old(self).lemma_abs_pos_facts(win.idx as int);
        }
        let ghost r = old(self).spec_root_of(win.idx as int);
        let n = self.nodes[win.idx].sub_windows.len();
        let mut j: usize = 0;
        while j < n
            invariant
                old(self).wf(),
                old(self).valid(win),
                r == old(self).spec_root_of(win.idx as int),
                0 <= r < old(self).nodes@.len(),
                old(self).nodes@[r].parent is None,
                old(self).abs_bounded(),
                n == old(self).nodes@[win.idx as int].sub_windows@.len(),
                j <= n,
                self.wf(),
                self.nodes@.len() == old(self).nodes@.len(),
                forall|i: int|
                    0 <= i < old(self).nodes@.len() && i != r ==> self.nodes@[i] == old(
                        self,
                    ).nodes@[i],
                self.nodes@[r].sub_windows == old(self).nodes@[r].sub_windows,
                self.nodes@[r].parent == old(self).nodes@[r].parent,
                self.nodes@[r].id == old(self).nodes@[r].id,
                self.nodes@[r].buffer.frame() == old(self).nodes@[r].buffer.frame(),
                self.nodes@[r].buffer.content@ == Self::spec_render_deep_list(
                    *old(self),
                    r,
                    win.idx as int,
                    j as int,
                    old(self).nodes@[r].buffer.content@,
                ),
            decreases n - j,
        {
            proof {
                assert(old(self).node_wf(win.idx as int));
                assert(old(self).same_structure(self));
                Self::lemma_abs_same(old(self), self, win.idx as int);
                Self::lemma_abs_same(old(self), self, r);
                assert(self.node_wf(win.idx as int));
            }
            let c = self.nodes[win.idx].sub_windows[j];
            let ghost mid = *self;
            proof {
                assert(mid.nodes@[c as int].parent == Some(win.idx));
                assert((c as int) != r);
                assert(old(self).nodes@[c as int].parent == Some(win.idx));
                Self::lemma_abs_same(old(self), &mid, c as int);
                assert(mid.spec_root_of(c as int) == r);
                assert(mid.spec_abs_top(c as int) <= u32::MAX);
                assert(mid.spec_abs_left(c as int) <= u32::MAX);
            }
            self.render(WindowRef { idx: c });
            let ghost mid2 = *self;
            proof {
                // fold in the composite that `render` performed
                let dstb = mid.nodes@[r].buffer;
                let srcb = mid.nodes@[c as int].buffer;
                let top = mid.spec_abs_top(c as int) - mid.spec_abs_top(r);
                let left = mid.spec_abs_left(c as int) - mid.spec_abs_left(r);
                assert forall|k: int| 0 <= k < dstb.content@.len() implies mid2.nodes@[r].buffer.content@[k]
                    == crate::buffer::composited_cell_at(
                    dstb.content@,
                    dstb.rect,
                    dstb.scroll,
                    srcb.visible_seq(),
                    srcb.rect.width as int,
                    srcb.rect.height as int,
                    top,
                    left,
                    k,
                ) by {
                    crate::buffer::lemma_composited_cell_parts(
                        dstb,
                        srcb.visible_seq(),
                        srcb.rect.width as int,
                        srcb.rect.height as int,
                        top,
                        left,
                        k,
                    );
                }
                Self::lemma_abs_same(old(self), &mid, r);
                assert(mid2.nodes@[r].buffer.content@ =~= crate::buffer::composited_content(
                    Self::spec_render_deep_list(
                        *old(self),
                        r,
                        win.idx as int,
                        j as int,
                        old(self).nodes@[r].buffer.content@,
                    ),
                    old(self).nodes@[r].buffer.rect,
                    old(self).nodes@[r].buffer.scroll,
                    old(self).nodes@[c as int].buffer.visible_seq(),
                    old(self).nodes@[c as int].buffer.rect.width as int,
                    old(self).nodes@[c as int].buffer.rect.height as int,
                    old(self).spec_abs_top(c as int) - old(self).spec_abs_top(r),
                    old(self).spec_abs_left(c as int) - old(self).spec_abs_left(r),
                ));
                // the recursive call needs the current tree well-bounded
                assert forall|i: int|
                    0 <= i < mid2.nodes@.len() implies #[trigger] mid2.spec_abs_top(i) <= u32::MAX
                    && mid2.spec_abs_left(i) <= u32::MAX by {
                    Self::lemma_abs_same(old(self), &mid2, i);
                }
                Self::lemma_abs_same(old(self), &mid2, c as int);
                assert(mid2.spec_root_of(c as int) == r);
            }
            self.render_deep(WindowRef { idx: c });
            proof {
                // the recursion's fold over the mid-state tree equals the
                // fold over the tree this call started from
                Self::lemma_render_deep_congruence(
                    old(self),
                    &mid2,
                    r,
                    c as int,
                    0,
                    mid2.nodes@[r].buffer.content@,
                );
                assert(self.nodes@[r].buffer.content@ == Self::spec_render_deep_list(
                    *old(self),
                    r,
                    win.idx as int,
                    j as int + 1,
                    old(self).nodes@[r].buffer.content@,
                ));
            }
            j = j + 1;
        }
        proof {
            assert forall|i: int|
                0 <= i < self.nodes@.len() implies #[trigger] self.spec_abs_top(i) <= u32::MAX
                && self.spec_abs_left(i) <= u32::MAX by {
                Self::lemma_abs_same(old(self), self, i);
            }
        }
    }
}

impl WindowTree {
    /// The viewport rectangle of the node, after a change that must keep
    /// everything else: shorthand used by the positioning contracts.
    pub open spec fn with_rect(&self, i: int, rect: Rect) -> Window {
        let n = self.nodes@[i];
        Window { buffer: Buffer { rect, ..n.buffer }, ..n }
    }

    /// All nodes except `i` unchanged.
    pub open spec fn others_unchanged(&self, other: &WindowTree, i: int) -> bool {
        &&& other.nodes@.len() == self.nodes@.len()
        &&& forall|j: int|
            0 <= j < self.nodes@.len() && j != i ==> #[trigger] other.nodes@[j]
                == self.nodes@[j]
    }

    /// Re-checks well-formedness after one node's buffer was replaced by
    /// another well-formed buffer.
    proof fn lemma_wf_after_buffer_op(&self, other: &WindowTree, i: int)
        requires
            self.wf(),
            self.same_structure(other),
            0 <= i < other.nodes@.len(),
            other.nodes@[i].buffer.wf(),
            forall|j: int|
                0 <= j < self.nodes@.len() && j != i ==> #[trigger] other.nodes@[j]
                    == self.nodes@[j],
        ensures
            other.wf(),
    {
        assert forall|j: int|
            0 <= j < other.nodes@.len() implies (#[trigger] other.nodes@[j]).buffer.wf() by {
            assert(self.node_wf(j));
        }
        self.lemma_same_structure_wf(other);
    }

    /// Blanks every cell of the node's own buffer over its background,
    /// touching no child.
    pub fn clear(&mut self, win: WindowRef)
        requires
            old(self).wf(),
            old(self).valid(win),
        ensures
            final(self).wf(),
            old(self).others_unchanged(final(self), win.idx as int),
            ({
                let a = final(self).nodes@[win.idx as int];
                let b = old(self).nodes@[win.idx as int];
                &&& a.sub_windows == b.sub_windows
                &&& a.parent == b.parent
                &&& a.id == b.id
                &&& a.buffer.frame() == b.buffer.frame()
                &&& a.buffer.content@ == Seq::new(
                    b.buffer.content@.len(),
                    |i: int| Cell::blank(b.buffer.bg),
                )
            }),
    {
        proof {
            assert(old(self).node_wf(win.idx as int));
        }
        let node = &mut self.nodes[win.idx];
        node.buffer.reset();
        proof {
            old(self).lemma_wf_after_buffer_op(self, win.idx as int);
        }
    }

    /// Records a new background for the node's buffer and repaints every
    /// cell's background with it.
    pub fn set_bg(&mut self, win: WindowRef, color: Color)
        requires
            old(self).wf(),
            old(self).valid(win),
        ensures
            final(self).wf(),
            old(self).others_unchanged(final(self), win.idx as int),
            ({
                let a = final(self).nodes@[win.idx as int];
                let b = old(self).nodes@[win.idx as int];
                &&& a.sub_windows == b.sub_windows
                &&& a.parent == b.parent
                &&& a.id == b.id
                &&& a.buffer.bg == color
                &&& a.buffer.rect == b.buffer.rect
                &&& a.buffer.scroll == b.buffer.scroll
                &&& a.buffer.content@ == Seq::new(
                    b.buffer.content@.len(),
                    |i: int| Cell { bg: color, ..b.buffer.content@[i] },
                )
            }),
    {
        proof {
            assert(old(self).node_wf(win.idx as int));
        }
        let node = &mut self.nodes[win.idx];
        node.buffer.set_bg(color);
        proof {
            old(self).lemma_wf_after_buffer_op(self, win.idx as int);
        }
    }

    /// Replaces the node's buffer with a fresh blank one of the given size
    /// at the same position, keeping the background and discarding content.
    pub fn set_size(&mut self, win: WindowRef, width: u32, height: u32)
        requires
            old(self).wf(),
            old(self).valid(win),
            width * height <= u32::MAX,
        ensures
            final(self).wf(),
            old(self).others_unchanged(final(self), win.idx as int),
            ({
                let a = final(self).nodes@[win.idx as int];
                let b = old(self).nodes@[win.idx as int];
                &&& a.sub_windows == b.sub_windows
                &&& a.parent == b.parent
                &&& a.id == b.id
                &&& a.buffer.bg == b.buffer.bg
                &&& a.buffer.rect == (Rect { width, height, ..b.buffer.rect })
                &&& a.buffer.scroll == (Rect { x: 0, y: 0, width, height })
                &&& a.buffer.content@ == Seq::new(
                    (width * height) as nat,
                    |i: int| Cell::blank(b.buffer.bg),
                )
            }),
    {
        proof {
            assert(old(self).node_wf(win.idx as int));
        }
        let node = &mut self.nodes[win.idx];
        node.set_size(width, height);
        proof {
            old(self).lemma_wf_after_buffer_op(self, win.idx as int);
        }
    }

    /// Resizes the node's virtual surface, keeping the pan offset; every
    /// cell is re-filled blank over the background.
    pub fn set_scroll_size(&mut self, win: WindowRef, width: u32, height: u32)
        requires
            old(self).wf(),
            old(self).valid(win),
            old(self).nodes@[win.idx as int].buffer.scroll.x + old(
                self,
            ).nodes@[win.idx as int].buffer.rect.width <= width,
            old(self).nodes@[win.idx as int].buffer.scroll.y + old(
                self,
            ).nodes@[win.idx as int].buffer.rect.height <= height,
            width * height <= u32::MAX,
        ensures
            final(self).wf(),
            old(self).others_unchanged(final(self), win.idx as int),
            ({
                let a = final(self).nodes@[win.idx as int];
                let b = old(self).nodes@[win.idx as int];
                &&& a.sub_windows == b.sub_windows
                &&& a.parent == b.parent
                &&& a.id == b.id
                &&& a.buffer.bg == b.buffer.bg
                &&& a.buffer.rect == b.buffer.rect
                &&& a.buffer.scroll == (Rect { width, height, ..b.buffer.scroll })
                &&& a.buffer.content@ == Seq::new(
                    (width * height) as nat,
                    |i: int| Cell::blank(b.buffer.bg),
                )
            }),
    {
        proof {
            assert(old(self).node_wf(win.idx as int));
        }
        let node = &mut self.nodes[win.idx];
        node.buffer.set_scroll_size(width, height);
        proof {
            old(self).lemma_wf_after_buffer_op(self, win.idx as int);
        }
    }

    /// Grows the node's virtual surface by `dy` rows of blank cells,
    /// keeping the existing rows.
    pub fn extend_scroll_height(&mut self, win: WindowRef, dy: u32)
        requires
            old(self).wf(),
            old(self).valid(win),
            old(self).nodes@[win.idx as int].buffer.scroll.height + dy <= u32::MAX,
            old(self).nodes@[win.idx as int].buffer.scroll.width * (old(
                self,
            ).nodes@[win.idx as int].buffer.scroll.height + dy) <= u32::MAX,
        ensures
            final(self).wf(),
            old(self).others_unchanged(final(self), win.idx as int),
            ({
                let a = final(self).nodes@[win.idx as int];
                let b = old(self).nodes@[win.idx as int];
                &&& a.sub_windows == b.sub_windows
                &&& a.parent == b.parent
                &&& a.id == b.id
                &&& a.buffer.bg == b.buffer.bg
                &&& a.buffer.rect == b.buffer.rect
                &&& a.buffer.scroll == (Rect {
                    height: (b.buffer.scroll.height + dy) as u32,
                    ..b.buffer.scroll
                })
                &&& a.buffer.content@ == b.buffer.content@ + Seq::new(
                    (b.buffer.scroll.width * dy) as nat,
                    |i: int| Cell::blank(b.buffer.bg),
                )
            }),
    {
        proof {
            assert(old(self).node_wf(win.idx as int));
        }
        let node = &mut self.nodes[win.idx];
        node.buffer.extend_scroll_height(dy);
        proof {
            old(self).lemma_wf_after_buffer_op(self, win.idx as int);
        }
    }

    /// Sets the node's pan offset; each axis is accepted only if the
    /// viewport still fits inside the virtual surface there, and is left
    /// unchanged otherwise.
    pub fn set_scroll_xy(&mut self, win: WindowRef, x: u32, y: u32)
        requires
            old(self).wf(),
            old(self).valid(win),
        ensures
            final(self).wf(),
            old(self).others_unchanged(final(self), win.idx as int),
            ({
                let a = final(self).nodes@[win.idx as int];
                let b = old(self).nodes@[win.idx as int];
                &&& a.sub_windows == b.sub_windows
                &&& a.parent == b.parent
                &&& a.id == b.id
                &&& a.buffer.bg == b.buffer.bg
                &&& a.buffer.rect == b.buffer.rect
                &&& a.buffer.content == b.buffer.content
                &&& a.buffer.scroll.width == b.buffer.scroll.width
                &&& a.buffer.scroll.height == b.buffer.scroll.height
                &&& a.buffer.scroll.x == if x + b.buffer.rect.width <= b.buffer.scroll.width {
                    x
                } else {
                    b.buffer.scroll.x
                }
                &&& a.buffer.scroll.y == if y + b.buffer.rect.height <= b.buffer.scroll.height {
                    y
                } else {
                    b.buffer.scroll.y
                }
            }),
    {
        proof {
            assert(old(self).node_wf(win.idx as int));
        }
        let node = &mut self.nodes[win.idx];
        node.buffer.set_scroll_xy(x, y);
        proof {
            old(self).lemma_wf_after_buffer_op(self, win.idx as int);
        }
    }

    /// Pans by a signed step, clamping each requested offset at zero; the
    /// result is then accepted or rejected per axis as `set_scroll_xy`
    /// does.
    pub fn set_scroll_xy_rel(&mut self, win: WindowRef, dx: i16, dy: i16)
        requires
            old(self).wf(),
            old(self).valid(win),
            old(self).nodes@[win.idx as int].buffer.scroll.x + dx <= u32::MAX,
            old(self).nodes@[win.idx as int].buffer.scroll.y + dy <= u32::MAX,
        ensures
            final(self).wf(),
            old(self).others_unchanged(final(self), win.idx as int),
            ({
                let a = final(self).nodes@[win.idx as int];
                let b = old(self).nodes@[win.idx as int];
                let rx: int = if b.buffer.scroll.x + dx < 0 {
                    0
                } else {
                    b.buffer.scroll.x + dx
                };
                let ry: int = if b.buffer.scroll.y + dy < 0 {
                    0
                } else {
                    b.buffer.scroll.y + dy
                };
                &&& a.sub_windows == b.sub_windows
                &&& a.parent == b.parent
                &&& a.id == b.id
                &&& a.buffer.bg == b.buffer.bg
                &&& a.buffer.rect == b.buffer.rect
                &&& a.buffer.content == b.buffer.content
                &&& a.buffer.scroll.width == b.buffer.scroll.width
                &&& a.buffer.scroll.height == b.buffer.scroll.height
                &&& a.buffer.scroll.x == if rx + b.buffer.rect.width <= b.buffer.scroll.width {
                    rx
                } else {
                    b.buffer.scroll.x as int
                }
                &&& a.buffer.scroll.y == if ry + b.buffer.rect.height <= b.buffer.scroll.height {
                    ry
                } else {
                    b.buffer.scroll.y as int
                }
            }),
    {
        proof {
            assert(old(self).node_wf(win.idx as int));
        }
        let (sx, sy) = {
            let b = &self.nodes[win.idx].buffer;
            (b.scroll().x, b.scroll().y)
        };
        let mut x: i64 = sx as i64 + dx as i64;
        let mut y: i64 = sy as i64 + dy as i64;
        if x < 0 {
            x = 0;
        }
        if y < 0 {
            y = 0;
        }
        self.set_scroll_xy(win, x as u32, y as u32);
    }

    /// Moves the node's viewport by a signed step in its parent's space,
    /// clamping each coordinate at zero.
    pub fn set_xy_rel(&mut self, win: WindowRef, dx: i16, dy: i16)
        requires
            old(self).wf(),
            old(self).valid(win),
            old(self).nodes@[win.idx as int].buffer.rect.x + dx <= u32::MAX,
            old(self).nodes@[win.idx as int].buffer.rect.y + dy <= u32::MAX,
        ensures
            final(self).wf(),
            old(self).others_unchanged(final(self), win.idx as int),
            ({
                let a = final(self).nodes@[win.idx as int];
                let b = old(self).nodes@[win.idx as int];
                let rx: int = if b.buffer.rect.x + dx < 0 {
                    0
                } else {
                    b.buffer.rect.x + dx
                };
                let ry: int = if b.buffer.rect.y + dy < 0 {
                    0
                } else {
                    b.buffer.rect.y + dy
                };
                &&& a.sub_windows == b.sub_windows
                &&& a.parent == b.parent
                &&& a.id == b.id
                &&& a.buffer.bg == b.buffer.bg
                &&& a.buffer.scroll == b.buffer.scroll
                &&& a.buffer.content == b.buffer.content
                &&& a.buffer.rect == (Rect { x: rx as u32, y: ry as u32, ..b.buffer.rect })
            }),
    {
        proof {
            assert(old(self).node_wf(win.idx as int));
        }
        let (bx, by) = {
            let b = &self.nodes[win.idx].buffer;
            (b.rect().x, b.rect().y)
        };
        let mut x: i64 = bx as i64 + dx as i64;
        let mut y: i64 = by as i64 + dy as i64;
        if x < 0 {
            x = 0;
        }
        if y < 0 {
            y = 0;
        }
        let node = &mut self.nodes[win.idx];
        node.buffer.set_pos(x as u32, y as u32);
        proof {
            old(self).lemma_wf_after_buffer_op(self, win.idx as int);
        }
    }

    /// Where `set_position` puts the node's viewport: an absolute
    /// coordinate as given; a centering mode against the parent's viewport
    /// midpoints; no move at all when centering is asked of a parentless
    /// node.
    pub open spec fn spec_pos_rect(&self, i: int, pos: Position) -> Rect {
        let rect = self.nodes@[i].buffer.rect;
        match pos {
            Position::Coord(x, y) => Rect { x, y, ..rect },
            _ => match self.nodes@[i].parent {
                None => rect,
                Some(p) => {
                    let pr = self.nodes@[p as int].buffer.rect;
                    let cx = (pr.width / 2 - rect.width / 2) as u32;
                    let cy = (pr.height / 2 - rect.height / 2) as u32;
                    match pos {
                        Position::CenterH => Rect { x: cx, ..rect },
                        Position::CenterV => Rect { y: cy, ..rect },
                        _ => Rect { x: cx, y: cy, ..rect },
                    }
                },
            },
        }
    }

    /// Moves the node's viewport to the given position: an absolute
    /// coordinate, or centered against its parent's viewport. Centering a
    /// parentless node is silently ignored.
    pub fn set_position(&mut self, win: WindowRef, pos: Position)
        requires
            old(self).wf(),
            old(self).valid(win),
            !(pos is Coord) && old(self).nodes@[win.idx as int].parent is Some ==> {
                let p = old(self).nodes@[win.idx as int].parent->0 as int;
                let pr = old(self).nodes@[p].buffer.rect;
                let rect = old(self).nodes@[win.idx as int].buffer.rect;
                rect.width / 2 <= pr.width / 2 && rect.height / 2 <= pr.height / 2
            },
        ensures
            final(self).wf(),
            old(self).others_unchanged(final(self), win.idx as int),
            final(self).nodes@[win.idx as int] == old(self).with_rect(
                win.idx as int,
                old(self).spec_pos_rect(win.idx as int, pos),
            ),
    {
        proof {
            assert(old(self).node_wf(win.idx as int));
        }
        match pos {
            Position::Coord(x, y) => {
                let node = &mut self.nodes[win.idx];
                node.buffer.set_pos(x, y);
            },
            _ => {
                let parent = self.nodes[win.idx].parent;
                match parent {
                    None => {},
                    Some(p) => {
                        let self_rect = self.nodes[win.idx].buffer.rect();
                        let (x, y) = self.nodes[p].buffer.rect().get_center_start_pos(self_rect);
                        let node = &mut self.nodes[win.idx];
                        match pos {
                            Position::CenterH => node.buffer.set_pos(x, self_rect.y),
                            Position::CenterV => node.buffer.set_pos(self_rect.x, y),
                            _ => node.buffer.set_pos(x, y),
                        }
                    },
                }
            },
        }
        proof {
            old(self).lemma_wf_after_buffer_op(self, win.idx as int);
        }
    }

    pub fn width(&self, win: WindowRef) -> (w: u32)
        requires
            self.valid(win),
        ensures
            w == self.nodes@[win.idx as int].buffer.rect.width,
    {
        self.nodes[win.idx].buffer.width()
    }

    pub fn height(&self, win: WindowRef) -> (h: u32)
        requires
            self.valid(win),
        ensures
            h == self.nodes@[win.idx as int].buffer.rect.height,
    {
        self.nodes[win.idx].buffer.height()
    }

    pub fn top(&self, win: WindowRef) -> (t: u32)
        requires
            self.valid(win),
        ensures
            t == self.nodes@[win.idx as int].buffer.rect.y,
    {
        self.nodes[win.idx].buffer.top()
    }

    pub fn left(&self, win: WindowRef) -> (l: u32)
        requires
            self.valid(win),
        ensures
            l == self.nodes@[win.idx as int].buffer.rect.x,
    {
        self.nodes[win.idx].buffer.left()
    }

    pub fn bottom(&self, win: WindowRef) -> (b: u32)
        requires
            self.valid(win),
            self.nodes@[win.idx as int].buffer.rect.y + self.nodes@[win.idx as int].buffer.rect.height <= u32::MAX,
        ensures
            b == self.nodes@[win.idx as int].buffer.rect.y
                + self.nodes@[win.idx as int].buffer.rect.height,
    {
        self.nodes[win.idx].buffer.bottom()
    }

    pub fn right(&self, win: WindowRef) -> (r: u32)
        requires
            self.valid(win),
            self.nodes@[win.idx as int].buffer.rect.x + self.nodes@[win.idx as int].buffer.rect.width <= u32::MAX,
        ensures
            r == self.nodes@[win.idx as int].buffer.rect.x
                + self.nodes@[win.idx as int].buffer.rect.width,
    {
        self.nodes[win.idx].buffer.right()
    }

    pub fn rect(&self, win: WindowRef) -> (r: Rect)
        requires
            self.valid(win),
        ensures
            r == self.nodes@[win.idx as int].buffer.rect,
    {
        self.nodes[win.idx].buffer.rect()
    }

    pub fn scroll(&self, win: WindowRef) -> (r: Rect)
        requires
            self.valid(win),
        ensures
            r == self.nodes@[win.idx as int].buffer.scroll,
    {
        self.nodes[win.idx].buffer.scroll()
    }

    /// The node's `(top, left)` offset within its parent.
    pub fn rel_pos(&self, win: WindowRef) -> (r: (u32, u32))
        requires
            self.valid(win),
        ensures
            r.0 == self.nodes@[win.idx as int].buffer.rect.y,
            r.1 == self.nodes@[win.idx as int].buffer.rect.x,
    {
        (self.nodes[win.idx].buffer.top(), self.nodes[win.idx].buffer.left())
    }

    /// The node's slot index within its parent's children.
    pub fn id(&self, win: WindowRef) -> (r: usize)
        requires
            self.valid(win),
        ensures
            r == self.nodes@[win.idx as int].id,
    {
        self.nodes[win.idx].id
    }

    /// A read-only view of the node's buffer.
    pub fn buffer(&self, win: WindowRef) -> (b: &Buffer)
        requires
            self.valid(win),
        ensures
            *b == self.nodes@[win.idx as int].buffer,
    {
        &self.nodes[win.idx].buffer
    }
}


impl WindowTree {
    /// Draws a visual primitive into the node's own buffer, in local
    /// virtual coordinates; no other node is touched and no compositing
    /// happens.
    pub fn draw_element<E: crate::elements::Element>(&mut self, win: WindowRef, el: &E)
        requires
            old(self).wf(),
            old(self).valid(win),
            el.fits(&old(self).nodes@[win.idx as int].buffer),
        ensures
            final(self).wf(),
            old(self).others_unchanged(final(self), win.idx as int),
            ({
                let a = final(self).nodes@[win.idx as int];
                let b = old(self).nodes@[win.idx as int];
                &&& a.sub_windows == b.sub_windows
                &&& a.parent == b.parent
                &&& a.id == b.id
                &&& a.buffer.frame() == b.buffer.frame()
                &&& a.buffer.content@.len() == b.buffer.content@.len()
                &&& el.drawn(b.buffer, a.buffer)
            }),
    {
        proof {
            assert(old(self).node_wf(win.idx as int));
        }
        let node = &mut self.nodes[win.idx];
        el.draw(&mut node.buffer);
        proof {
            old(self).lemma_wf_after_buffer_op(self, win.idx as int);
        }
    }

    /// Draws `text` into the node's buffer at the given position within
    /// the node's own extent: the default style, one row high, as wide as
    /// the text.
    pub fn draw_text(&mut self, win: WindowRef, text: &str, pos: Position)
        requires
            old(self).wf(),
            old(self).valid(win),
            text@.len() <= u32::MAX,
            ({
                let b = old(self).nodes@[win.idx as int].buffer;
                let own = Rect { x: 0, y: 0, width: b.rect.width, height: b.rect.height };
                let placed = crate::text::spec_placed_rect(text@.len() as u32, own, pos);
                &&& (!(pos is Coord) ==> text@.len() as u32 / 2 <= own.width / 2)
                &&& placed.x + placed.width <= b.scroll.width
                &&& placed.y + placed.height <= b.scroll.height
            }),
        ensures
            final(self).wf(),
            old(self).others_unchanged(final(self), win.idx as int),
            ({
                let a = final(self).nodes@[win.idx as int];
                let b = old(self).nodes@[win.idx as int];
                let own = Rect { x: 0, y: 0, width: b.buffer.rect.width, height: b.buffer.rect.height };
                let placed = crate::text::spec_placed_rect(text@.len() as u32, own, pos);
                &&& a.sub_windows == b.sub_windows
                &&& a.parent == b.parent
                &&& a.id == b.id
                &&& a.buffer.frame() == b.buffer.frame()
                &&& a.buffer.content@ == crate::text::rows_painted(
                    b.buffer.content@,
                    b.buffer.scroll.width as int,
                    placed,
                    text@,
                    0,
                    0,
                    0,
                    Color::Reset,
                    crate::cell::Attribute::Reset,
                )
            }),
    {
        let t = crate::text::Text::default().text(text);
        let r = Rect::new(0, 0, self.width(win), self.height(win));
        let t = t.position(r, pos);
        self.draw_element(win, &t);
    }

    /// Draws a primitive into the node's buffer and pushes the node's
    /// visible cells all the way to the root, as `render` does.
    pub fn render_element<E: crate::elements::Element>(&mut self, win: WindowRef, el: &E)
        requires
            old(self).wf(),
            old(self).valid(win),
            el.fits(&old(self).nodes@[win.idx as int].buffer),
            old(self).nodes@[win.idx as int].parent is Some,
            old(self).spec_abs_top(win.idx as int) <= u32::MAX,
            old(self).spec_abs_left(win.idx as int) <= u32::MAX,
        ensures
            final(self).wf(),
            final(self).nodes@.len() == old(self).nodes@.len(),
            ({
                let r = old(self).spec_root_of(win.idx as int);
                let a = final(self).nodes@[win.idx as int];
                let b = old(self).nodes@[win.idx as int];
                let dstb = old(self).nodes@[r].buffer;
                let top = old(self).spec_abs_top(win.idx as int) - old(self).spec_abs_top(r);
                let left = old(self).spec_abs_left(win.idx as int) - old(self).spec_abs_left(r);
                &&& a.sub_windows == b.sub_windows
                &&& a.parent == b.parent
                &&& a.id == b.id
                &&& a.buffer.frame() == b.buffer.frame()
                &&& el.drawn(b.buffer, a.buffer)
                &&& forall|i: int|
                    0 <= i < old(self).nodes@.len() && i != r && i != win.idx ==> final(self).nodes@[i] == old(self).nodes@[i]
                &&& final(self).nodes@[r].buffer.frame() == dstb.frame()
                &&& final(self).nodes@[r].buffer.content@.len() == dstb.content@.len()
                &&& forall|k: int|
                    0 <= k < dstb.content@.len() ==> final(self).nodes@[r].buffer.content@[k]
                        == composited_cell(
                        dstb,
                        a.buffer.visible_seq(),
                        a.buffer.rect.width as int,
                        a.buffer.rect.height as int,
                        top,
                        left,
                        k,
                    )
            }),
    {
        proof {
            assert(old(self).node_wf(win.idx as int));
            old(self).lemma_abs_pos_facts(win.idx as int);
        }
        self.draw_element(win, el);
        let ghost mid = *self;
        proof {
            assert(old(self).same_structure(self));
            Self::lemma_abs_same(old(self), &mid, win.idx as int);
            assert(old(self).spec_root_of(win.idx as int) == mid.spec_root_of(win.idx as int));
            let r = old(self).spec_root_of(win.idx as int);
            Self::lemma_abs_same(old(self), &mid, r);
            assert((win.idx as int) != r);
        }
        self.render(win);
    }
}

} // verus!
