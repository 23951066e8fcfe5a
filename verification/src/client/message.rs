//! Messages that reach the client through the room's socket.

use vstd::prelude::*;

use crate::client::error::Error;

verus! {

/// What happens in a room.
#[derive(Debug, Clone, PartialEq, Eq)]
pub enum RoomMessage {
    /// Somebody said something.
    Chat { username: String, content: String },
    /// Somebody came in.
    Join { username: String },
    /// Somebody left.
    Leave { username: String },
}

/// What stands between the name and the text of a chat message.
pub const SAYS: &'static str = ": ";

/// What follows the name of somebody who came in.
pub const JOINED: &'static str = " joined";

/// What follows the name of somebody who left.
pub const LEFT: &'static str = " left";

/// The line that the chat box shows for a message of the room: who said
/// what, who came in, or who left.
pub open spec fn chat_line_spec(message: RoomMessage) -> Seq<char> {
    match message {
        RoomMessage::Chat { username, content } => username@ + SAYS@ + content@,
        RoomMessage::Join { username } => username@ + JOINED@,
        RoomMessage::Leave { username } => username@ + LEFT@,
    }
}

/// The line that the chat box shows for a message of the room.
pub fn chat_line(message: &RoomMessage) -> (line: String)
    ensures
        line@ == chat_line_spec(*message),
{
    match message {
        RoomMessage::Chat { username, content } => username.clone().concat(SAYS).concat(
            content.as_str(),
        ),
        RoomMessage::Join { username } => username.clone().concat(JOINED),
        RoomMessage::Leave { username } => username.clone().concat(LEFT),
    }
}

/// A frame of the room's socket, as far as the client reads it.
pub enum Frame {
    /// A text frame.
    Text(String),
    /// Any other frame.
    Other,
}

/// The text to read a message from: only text frames carry messages, any
/// other frame fails with `Deserialization`.
pub fn frame_text(frame: Frame) -> (text: Result<String, Error>)
    ensures
        match frame {
            Frame::Text(data) => text == Ok::<String, Error>(data),
            Frame::Other => text matches Err(Error::Deserialization),
        },
{
    match frame {
        Frame::Text(data) => Ok(data),
        Frame::Other => Err(Error::Deserialization),
    }
}

} // verus!
