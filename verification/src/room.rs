//! Rooms: what the room server answers, and where to reach it.

use vstd::prelude::*;

pub mod client;
pub mod error;
pub mod message;

verus! {

/// Milliseconds that a request to the room server may take.
pub const REQUEST_TIMEOUT_MS: u64 = 3000;

/// What the server answers when a room has been created.
pub struct CreateRoomResponse {
    pub room: String,
    pub token: String,
}

/// What the server answers when a room has been joined.
pub struct JoinRoomResponse {
    pub token: String,
}

/// The address at which a room is created.
pub const CREATE_ROOM_URL: &'static str = "http://localhost:8080/create";

/// The address at which rooms are joined; the room id follows it.
pub const JOIN_ROOM_URL: &'static str = "http://localhost:8080/join/";

/// The address of the room's socket; the token follows it.
pub const ROOM_SOCKET_URL: &'static str = "ws://localhost:8080/ws?token=";

/// The address at which the room with the given id is joined.
pub fn join_room_url(room_id: &str) -> (url: String)
    ensures
        url@ == JOIN_ROOM_URL@ + room_id@,
{
    String::from_str(JOIN_ROOM_URL).concat(room_id)
}

/// The address of the socket of the room that the token was given for.
pub fn room_socket_url(token: &str) -> (url: String)
    ensures
        url@ == ROOM_SOCKET_URL@ + token@,
{
    String::from_str(ROOM_SOCKET_URL).concat(token)
}

} // verus!
