//! The history of events of one chat buffer, kept apart from its layout.

use vstd::prelude::*;
use crate::event::Event;

verus! {

/// The events of a buffer, oldest first.
pub struct ChatBuf {
    pub events: Vec<Event>,
}

} // verus!
