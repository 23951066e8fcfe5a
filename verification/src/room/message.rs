//! Messages of a room.

use vstd::prelude::*;

verus! {

/// What happens in a room.
#[derive(Debug, Clone, PartialEq, Eq)]
pub enum RoomMessage {
    /// Somebody said something.
    Chat { username: String, content: String },
    /// Somebody came in.
    Join { username: String },
    /// Somebody left.
    Leave { username: String },
}

} // verus!
