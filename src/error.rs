//! The errors of the presentation core.

use vstd::prelude::*;

verus! {

#[derive(Debug)]
pub enum Error {
    /// An input-reading activity ended abnormally; the text is its panic message.
    ThreadJoinErr { err: String },
    /// A guarded resource was poisoned by a panic while it was held.
    LockPoisoned { lock: String },
    /// An event was routed to a buffer name that does not exist.
    ChannelNotFound { chan: String },
    /// A tab operation named a tab that does not exist.
    TabNotFound { tab: String },
    /// The user asked to quit.
    UserQuit,
}

} // verus!
