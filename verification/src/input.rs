//! What the user does at the keyboard, as the client reads it.

use vstd::prelude::*;

pub mod keyboard;

verus! {

/// The key of a key press, as far as the client tells keys apart.
#[derive(Clone, Copy, Debug, PartialEq, Eq, Structural)]
pub enum Key {
    /// A character key.
    Char(char),
    Backspace,
    Enter,
    Esc,
    /// Any other key.
    Other,
}

/// What a key press means to the screen.
#[derive(Clone, Copy, Debug, PartialEq, Eq, Structural)]
pub enum InputType {
    /// A character was typed.
    Normal { character: char },
    /// The last character is to be taken back.
    Backspace,
    /// The typed line is to be sent.
    Send,
    /// Time has passed: the picture is to be refreshed.
    TickUpdate,
    /// The user wants to leave.
    Exit,
    /// The user asked for a new room.
    CreateRoom,
    /// The user asked to join a room.
    JoinRoom,
    /// A key without a meaning.
    Unknown,
}

} // verus!
