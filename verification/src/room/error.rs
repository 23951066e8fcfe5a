//! Errors of the room client.

use vstd::prelude::*;

verus! {

/// What can go wrong between the client and the room server.
#[derive(Debug, Clone)]
pub enum Error {
    CreateRoom,
    JoinRoom { room_id: String },
    WebSocket,
    NotInRoom,
    Deserialization,
    Serialization,
    SendMessage,
    Timeout,
}

impl Error {
    /// What `message` returns, as a sequence of characters.
    pub open spec fn message_spec(self) -> Seq<char> {
        match self {
            Error::CreateRoom => "unable to create room"@,
            Error::JoinRoom { room_id } => "unable to join room "@ + room_id@,
            Error::WebSocket => "unable to connect to web socket"@,
            Error::NotInRoom => "currently not connected to a room"@,
            Error::Deserialization => "unable to deserialize message"@,
            Error::Serialization => "unable to serialize message"@,
            Error::SendMessage => "unable to send message"@,
            Error::Timeout => "request timed out"@,
        }
    }

    /// The text shown to the user for this error.
    pub fn message(&self) -> (text: String)
        ensures
            text@ == self.message_spec(),
    {
        match self {
            Error::CreateRoom => String::from_str("unable to create room"),
            Error::JoinRoom { room_id } => String::from_str("unable to join room ").concat(
                room_id.as_str(),
            ),
            Error::WebSocket => String::from_str("unable to connect to web socket"),
            Error::NotInRoom => String::from_str("currently not connected to a room"),
            Error::Deserialization => String::from_str("unable to deserialize message"),
            Error::Serialization => String::from_str("unable to serialize message"),
            Error::SendMessage => String::from_str("unable to send message"),
            Error::Timeout => String::from_str("request timed out"),
        }
    }
}

} // verus!
