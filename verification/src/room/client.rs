//! The decisions of the room client: what each step of talking to the room
//! server leads to. The requests themselves are made by the caller, who
//! hands their outcomes in.

use vstd::prelude::*;

use crate::room::error::Error;
use crate::room::message::RoomMessage;
use crate::room::{CreateRoomResponse, JoinRoomResponse};

verus! {

/// The name under which chat messages are sent.
pub const CHAT_USER: &'static str = "TODO";

/// How a request to the room server ended.
pub enum Attempt<T> {
    /// The time for the request ran out.
    TimedOut,
    /// The request failed.
    Failed,
    /// The request was answered.
    Answered(T),
}

/// The room client, as far as its decisions go: whether it is in a room.
#[derive(Clone, Copy, Debug, PartialEq, Eq, Structural)]
pub struct RoomClient {
    in_room: bool,
}

impl RoomClient {
    /// Whether the client is connected to a room.
    pub closed spec fn connected(&self) -> bool {
        self.in_room
    }

    /// A client that is in no room.
    pub fn new() -> (client: Self)
        ensures
            !client.connected(),
    {
        RoomClient { in_room: false }
    }

    /// Whether the client is connected to a room.
    pub fn is_connected(&self) -> (connected: bool)
        ensures
            connected == self.connected(),
    {
        self.in_room
    }

    /// What the attempt to create a room leads to: the room's name and
    /// the token to connect with, `Timeout` if the time ran out, and
    /// `CreateRoom` if the request failed.
    pub fn room_created(attempt: Attempt<CreateRoomResponse>) -> (created: Result<
        (String, String),
        Error,
    >)
        ensures
            match attempt {
                Attempt::TimedOut => created matches Err(Error::Timeout),
                Attempt::Failed => created matches Err(Error::CreateRoom),
                Attempt::Answered(response) => created matches Ok((room, token)) && room
                    == response.room && token == response.token,
            },
    {
        match attempt {
            Attempt::TimedOut => Err(Error::Timeout),
            Attempt::Failed => Err(Error::CreateRoom),
            Attempt::Answered(response) => Ok((response.room, response.token)),
        }
    }

    /// What the attempt to join a room leads to: the token to connect
    /// with, `Timeout` if the time ran out, and `JoinRoom` with the room's
    /// id if the request failed.
    pub fn room_joined(room_id: &str, attempt: Attempt<JoinRoomResponse>) -> (joined: Result<
        String,
        Error,
    >)
        ensures
            match attempt {
                Attempt::TimedOut => joined matches Err(Error::Timeout),
                Attempt::Failed => joined matches Err(Error::JoinRoom { room_id: failed })
                    && failed@ == room_id@,
                Attempt::Answered(response) => joined matches Ok(token) && token == response.token,
            },
    {
        match attempt {
            Attempt::TimedOut => Err(Error::Timeout),
            Attempt::Failed => Err(Error::JoinRoom { room_id: String::from_str(room_id) }),
            Attempt::Answered(response) => Ok(response.token),
        }
    }

    /// Takes the outcome of connecting to the room's socket: the client is
    /// in the room once the socket is open; `Timeout` and `WebSocket`
    /// leave it where it was.
    pub fn connect_to_room(&mut self, attempt: Attempt<()>) -> (connected: Result<(), Error>)
        ensures
            match attempt {
                Attempt::TimedOut => connected matches Err(Error::Timeout) && final(
                    self
                ).connected() == old(self).connected(),
                Attempt::Failed => connected matches Err(Error::WebSocket) && final(
                    self
                ).connected() == old(self).connected(),
                Attempt::Answered(_) => connected is Ok && final(self).connected(),
            },
    {
        match attempt {
            Attempt::TimedOut => Err(Error::Timeout),
            Attempt::Failed => Err(Error::WebSocket),
            Attempt::Answered(_) => {
                self.in_room = true;
                Ok(())
            },
        }
    }

    /// The message to send for a line of chat, or `NotInRoom` while the
    /// client is in no room.
    pub fn send_chat_message(&self, content: &str) -> (message: Result<RoomMessage, Error>)
        ensures
            self.connected() ==> (message matches Ok(
                RoomMessage::Chat { username, content: text },
            ) && username@ == CHAT_USER@ && text@ == content@),
            !self.connected() ==> (message matches Err(Error::NotInRoom)),
    {
        if !self.in_room {
            return Err(Error::NotInRoom);
        }
        Ok(
            RoomMessage::Chat {
                username: String::from_str(CHAT_USER),
                content: String::from_str(content),
            },
        )
    }

    /// What sending a message led to: `Timeout` if the time ran out,
    /// `SendMessage` if the socket refused it.
    pub fn message_sent(attempt: Attempt<()>) -> (sent: Result<(), Error>)
        ensures
            match attempt {
                Attempt::TimedOut => sent matches Err(Error::Timeout),
                Attempt::Failed => sent matches Err(Error::SendMessage),
                Attempt::Answered(_) => sent is Ok,
            },
    {
        match attempt {
            Attempt::TimedOut => Err(Error::Timeout),
            Attempt::Failed => Err(Error::SendMessage),
            Attempt::Answered(_) => Ok(()),
        }
    }
}

} // verus!
