//! The drawable capability: a visual primitive paints itself into a
//! buffer's virtual surface. This is the sole extension point for widgets.

use vstd::prelude::*;

use crate::buffer::Buffer;

verus! {

/// A value that can draw itself into a buffer.
///
/// `fits` says when the primitive lies inside the buffer's virtual surface;
/// `drawn` relates the buffer before and after one draw and is pinned down
/// exactly by each implementor.
pub trait Element {
    spec fn fits(&self, buf: &Buffer) -> bool;

    spec fn drawn(&self, old_buf: Buffer, new_buf: Buffer) -> bool;

    fn draw(&self, buf: &mut Buffer)
        requires
            old(buf).wf(),
            self.fits(old(buf)),
        ensures
            final(buf).wf(),
            final(buf).frame() == old(buf).frame(),
            final(buf).content@.len() == old(buf).content@.len(),
            self.drawn(*old(buf), *final(buf)),
    ;
}

} // verus!
