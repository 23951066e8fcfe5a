//! The decisions of the client: what an input of the user calls for, and
//! what each step of talking to the room server and to the peer leads to.
//! The requests themselves are made by the caller, who hands their
//! outcomes in.

use vstd::prelude::*;

use crate::chat::command::{ChatboxCommand, ChatboxInput};
use crate::client::error::Error;
use crate::client::message::RoomMessage;
use crate::room::client::Attempt;
use crate::room::{CreateRoomResponse, JoinRoomResponse};

pub mod error;
pub mod message;

verus! {

/// Milliseconds that a request of the client may take.
pub const TIMEOUT_MS: u64 = 3000;

/// The address of the room's socket; the token follows it.
pub const ROOM_SOCKET_URL: &'static str = "ws://localhost:8080/ws?token=";

/// What introduces the user's name in the address of the room's socket.
pub const USERNAME_PARAMETER: &'static str = "&username=";

/// What the log says in front of the id of a room just created.
pub const ROOM_ID_LOG: &'static str = "room id = ";

/// What an input of the user calls for.
#[derive(Debug, Clone, PartialEq, Eq)]
pub enum Action {
    /// Send a line of chat.
    SendChat { content: String },
    /// Create a room and connect to it.
    CreateRoom,
    /// Join the room with the given id and connect to it.
    JoinRoom { room_id: String },
    /// Nothing to do.
    Nothing,
}

/// The client, as far as its decisions go: the name of the user, and
/// whether the room's socket and the peer connection are there.
pub struct Client {
    username: String,
    connected: bool,
    peer_ready: bool,
}

impl Client {
    /// The name of the user.
    pub closed spec fn name(&self) -> Seq<char> {
        self.username@
    }

    /// Whether the client is connected to a room.
    pub closed spec fn in_room(&self) -> bool {
        self.connected
    }

    /// Whether the peer connection has been set up.
    pub closed spec fn has_peer(&self) -> bool {
        self.peer_ready
    }

    /// A client for the user of the given name, in no room and without a
    /// peer connection.
    pub fn new(username: String) -> (client: Self)
        ensures
            client.name() == username@,
            !client.in_room(),
            !client.has_peer(),
    {
        Client { username, connected: false, peer_ready: false }
    }

    /// What an input of the user calls for: a message is sent as chat,
    /// the commands to create and to join a room are carried out, and
    /// anything else calls for nothing.
    pub fn receive_input(input: &ChatboxInput) -> (action: Action)
        ensures
            match *input {
                ChatboxInput::Message(content) => action matches Action::SendChat { content: text }
                    && text@ == content@,
                ChatboxInput::Command(ChatboxCommand::Create) => action matches Action::CreateRoom,
                ChatboxInput::Command(ChatboxCommand::Join { room_id }) => action matches Action::JoinRoom {
                    room_id: joined,
                } && joined@ == room_id@,
                _ => action matches Action::Nothing,
            },
    {
        match input {
            ChatboxInput::Message(content) => Action::SendChat { content: content.clone() },
            ChatboxInput::Command(command) => match command {
                ChatboxCommand::Create => Action::CreateRoom,
                ChatboxCommand::Join { room_id } => Action::JoinRoom { room_id: room_id.clone() },
                _ => Action::Nothing,
            },
            _ => Action::Nothing,
        }
    }

    /// The line that the log shows for a room just created.
    pub fn room_created_log(room_id: &str) -> (line: String)
        ensures
            line@ == ROOM_ID_LOG@ + room_id@,
    {
        String::from_str(ROOM_ID_LOG).concat(room_id)
    }

    /// The address of the room's socket for the given token and this
    /// user.
    pub fn room_socket_url(&self, token: &str) -> (url: String)
        ensures
            url@ == ROOM_SOCKET_URL@ + token@ + USERNAME_PARAMETER@ + self.name(),
    {
        String::from_str(ROOM_SOCKET_URL).concat(token).concat(USERNAME_PARAMETER).concat(
            self.username.as_str(),
        )
    }

    /// What the attempt to create a room leads to: the room's name and
    /// the token to connect with, `Timeout` if the time ran out, and
    /// `CreateRoom` if the request failed.
    pub fn room_created(attempt: Attempt<CreateRoomResponse>) -> (created: Result<
        (String, String),
        Error,
    >)
        ensures
            match attempt {
                Attempt::TimedOut => created matches Err(Error::Timeout),
                Attempt::Failed => created matches Err(Error::CreateRoom),
                Attempt::Answered(response) => created matches Ok((room, token)) && room
                    == response.room && token == response.token,
            },
    {
        match attempt {
            Attempt::TimedOut => Err(Error::Timeout),
            Attempt::Failed => Err(Error::CreateRoom),
            Attempt::Answered(response) => Ok((response.room, response.token)),
        }
    }

    /// What the attempt to join a room leads to: the token to connect
    /// with, `Timeout` if the time ran out, and `JoinRoom` with the room's
    /// id if the request failed.
    pub fn room_joined(room_id: &str, attempt: Attempt<JoinRoomResponse>) -> (joined: Result<
        String,
        Error,
    >)
        ensures
            match attempt {
                Attempt::TimedOut => joined matches Err(Error::Timeout),
                Attempt::Failed => joined matches Err(Error::JoinRoom { room_id: failed })
                    && failed@ == room_id@,
                Attempt::Answered(response) => joined matches Ok(token) && token == response.token,
            },
    {
        match attempt {
            Attempt::TimedOut => Err(Error::Timeout),
            Attempt::Failed => Err(Error::JoinRoom { room_id: String::from_str(room_id) }),
            Attempt::Answered(response) => Ok(response.token),
        }
    }

    /// Takes the outcome of connecting to the room's socket: the client is
    /// in the room once the socket is open; `Timeout` and `WebSocket`
    /// leave it where it was.
    pub fn connect_to_room(&mut self, attempt: Attempt<()>) -> (connected: Result<(), Error>)
        ensures
            final(self).name() == old(self).name(),
            final(self).has_peer() == old(self).has_peer(),
            match attempt {
                Attempt::TimedOut => connected matches Err(Error::Timeout) && final(self).in_room()
                    == old(self).in_room(),
                Attempt::Failed => connected matches Err(Error::WebSocket) && final(self).in_room()
                    == old(self).in_room(),
                Attempt::Answered(_) => connected is Ok && final(self).in_room(),
            },
    {
        match attempt {
            Attempt::TimedOut => Err(Error::Timeout),
            Attempt::Failed => Err(Error::WebSocket),
            Attempt::Answered(_) => {
                self.connected = true;
                Ok(())
            },
        }
    }

    /// The message to send for a line of chat, under the user's name.
    pub fn send_chat(&self, content: &str) -> (message: RoomMessage)
        ensures
            message matches RoomMessage::Chat { username, content: text } && username@
                == self.name() && text@ == content@,
    {
        RoomMessage::Chat { username: self.username.clone(), content: String::from_str(content) }
    }

    /// Whether a message can be sent at all: `NotConnected` while the
    /// client is in no room.
    pub fn send_message(&self) -> (ready: Result<(), Error>)
        ensures
            self.in_room() ==> ready is Ok,
            !self.in_room() ==> (ready matches Err(Error::NotConnected)),
    {
        if self.connected {
            Ok(())
        } else {
            Err(Error::NotConnected)
        }
    }

    /// What sending a message led to: `Timeout` if the time ran out,
    /// `SendMessage` if the socket refused it.
    pub fn message_sent(attempt: Attempt<()>) -> (sent: Result<(), Error>)
        ensures
            match attempt {
                Attempt::TimedOut => sent matches Err(Error::Timeout),
                Attempt::Failed => sent matches Err(Error::SendMessage),
                Attempt::Answered(_) => sent is Ok,
            },
    {
        match attempt {
            Attempt::TimedOut => Err(Error::Timeout),
            Attempt::Failed => Err(Error::SendMessage),
            Attempt::Answered(_) => Ok(()),
        }
    }

    /// Notes that the peer connection has been set up.
    pub fn peer_connected(&mut self)
        ensures
            final(self).has_peer(),
            final(self).name() == old(self).name(),
            final(self).in_room() == old(self).in_room(),
    {
        self.peer_ready = true;
    }

    /// Whether the peer connection can be used: `PeerConnectionNotReady`
    /// until it has been set up.
    pub fn peer_connection(&self) -> (ready: Result<(), Error>)
        ensures
            self.has_peer() ==> ready is Ok,
            !self.has_peer() ==> (ready matches Err(Error::PeerConnectionNotReady)),
    {
        if self.peer_ready {
            Ok(())
        } else {
            Err(Error::PeerConnectionNotReady)
        }
    }
}

} // verus!
