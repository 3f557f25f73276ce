//! The interface of everything that can be drawn onto a frame.

use vstd::prelude::*;
use crate::buffer::{Buffer, BufferView};

verus! {

/// A component that draws itself onto a frame buffer by merging its own buffer.
pub trait Widget {
    /// The widget's own buffer, as it will be merged.
    spec fn canvas(&self) -> BufferView;

    /// The widget is in a state that can be drawn.
    spec fn drawable(&self) -> bool;

    fn draw(&self, buffer: &mut Buffer)
        requires
            old(buffer).wf(),
            self.drawable(),
        ensures
            final(buffer).wf(),
            final(buffer)@ == old(buffer)@.merged(self.canvas());
}

} // verus!
