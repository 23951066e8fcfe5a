use client::room::client::{Attempt, RoomClient};
use client::room::error::Error;
use client::room::message::RoomMessage;
use client::room::{join_room_url, room_socket_url, CreateRoomResponse, JoinRoomResponse};

#[test]
fn room_addresses() {
    assert_eq!(join_room_url("abc"), "http://localhost:8080/join/abc");
    assert_eq!(join_room_url(""), "http://localhost:8080/join/");
    assert_eq!(room_socket_url("t0k3n"), "ws://localhost:8080/ws?token=t0k3n");
}

#[test]
fn room_client_goes_through_a_room() {
    let mut client = RoomClient::new();
    assert!(!client.is_connected());
    assert!(matches!(
        client.send_chat_message("hi"),
        Err(Error::NotInRoom)
    ));
    let created = RoomClient::room_created(Attempt::Answered(CreateRoomResponse {
        room: String::from("r1"),
        token: String::from("t1"),
    }));
    assert_eq!(created.unwrap(), (String::from("r1"), String::from("t1")));
    assert!(matches!(
        client.connect_to_room(Attempt::TimedOut),
        Err(Error::Timeout)
    ));
    assert!(matches!(
        client.connect_to_room(Attempt::Failed),
        Err(Error::WebSocket)
    ));
    assert!(!client.is_connected());
    client.connect_to_room(Attempt::Answered(())).unwrap();
    assert!(client.is_connected());
    assert_eq!(
        client.send_chat_message("hi").unwrap(),
        RoomMessage::Chat { username: String::from("TODO"), content: String::from("hi") }
    );
}

#[test]
fn room_requests_that_fail() {
    assert!(matches!(RoomClient::room_created(Attempt::TimedOut), Err(Error::Timeout)));
    assert!(matches!(RoomClient::room_created(Attempt::Failed), Err(Error::CreateRoom)));
    assert!(matches!(RoomClient::room_joined("r9", Attempt::TimedOut), Err(Error::Timeout)));
    match RoomClient::room_joined("r9", Attempt::Failed) {
        Err(Error::JoinRoom { room_id }) => assert_eq!(room_id, "r9"),
        _ => panic!("a failed join must name the room"),
    }
    assert_eq!(
        RoomClient::room_joined("r9", Attempt::Answered(JoinRoomResponse { token: String::from("t") }))
            .unwrap(),
        "t"
    );
    assert!(matches!(RoomClient::message_sent(Attempt::TimedOut), Err(Error::Timeout)));
    assert!(matches!(RoomClient::message_sent(Attempt::Failed), Err(Error::SendMessage)));
    assert!(RoomClient::message_sent(Attempt::Answered(())).is_ok());
}

#[test]
fn room_error_messages() {
    assert_eq!(Error::CreateRoom.message(), "unable to create room");
    assert_eq!(Error::JoinRoom { room_id: String::from("x1") }.message(), "unable to join room x1");
    assert_eq!(Error::WebSocket.message(), "unable to connect to web socket");
    assert_eq!(Error::NotInRoom.message(), "currently not connected to a room");
    assert_eq!(Error::Deserialization.message(), "unable to deserialize message");
    assert_eq!(Error::Serialization.message(), "unable to serialize message");
    assert_eq!(Error::SendMessage.message(), "unable to send message");
    assert_eq!(Error::Timeout.message(), "request timed out");
}
