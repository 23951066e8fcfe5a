//! Errors of the client.

use vstd::prelude::*;

verus! {

/// What can go wrong in the client.
#[derive(Debug)]
pub enum Error {
    CreateRoom,
    JoinRoom { room_id: String },
    WebSocket,
    NotConnected,
    Deserialization,
    Serialization,
    SendMessage,
    ReceiveMessage,
    Timeout,
    AlreadyInitialized,
    PeerConnectionNotReady,
    WebcamNotReady,
    /// The peer connection failed; `message` is its own text.
    WebRTC { message: String },
}

impl Error {
    /// What `message` returns, as a sequence of characters.
    pub open spec fn message_spec(self) -> Seq<char> {
        match self {
            Error::CreateRoom => "unable to create room"@,
            Error::JoinRoom { room_id } => "unable to join room "@ + room_id@,
            Error::WebSocket => "unable to connect to web socket"@,
            Error::NotConnected => "not connected to a room"@,
            Error::Deserialization => "unable to deserialize message"@,
            Error::Serialization => "unable to serialize message"@,
            Error::SendMessage => "unable to send message"@,
            Error::ReceiveMessage => "unable to receive message"@,
            Error::Timeout => "request timed out"@,
            Error::AlreadyInitialized => "init() has already been called"@,
            Error::PeerConnectionNotReady => "peer connection is not ready"@,
            Error::WebcamNotReady => "webcam is not ready"@,
            Error::WebRTC { message } => message@,
        }
    }

    /// The text shown to the user for this error.
    pub fn message(&self) -> (text: String)
        ensures
            text@ == self.message_spec(),
    {
        match self {
            Error::CreateRoom => String::from_str("unable to create room"),
            Error::JoinRoom { room_id } => String::from_str("unable to join room ").concat(
                room_id.as_str(),
            ),
            Error::WebSocket => String::from_str("unable to connect to web socket"),
            Error::NotConnected => String::from_str("not connected to a room"),
            Error::Deserialization => String::from_str("unable to deserialize message"),
            Error::Serialization => String::from_str("unable to serialize message"),
            Error::SendMessage => String::from_str("unable to send message"),
            Error::ReceiveMessage => String::from_str("unable to receive message"),
            Error::Timeout => String::from_str("request timed out"),
            Error::AlreadyInitialized => String::from_str("init() has already been called"),
            Error::PeerConnectionNotReady => String::from_str("peer connection is not ready"),
            Error::WebcamNotReady => String::from_str("webcam is not ready"),
            Error::WebRTC { message } => message.clone(),
        }
    }
}

} // verus!
