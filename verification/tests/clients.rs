use client::chat::command::{ChatboxCommand, ChatboxInput};
use client::client::error::Error;
use client::client::message::{chat_line, frame_text, Frame, RoomMessage};
use client::client::{Action, Client};
use client::room::client::Attempt;
use client::room::{CreateRoomResponse, JoinRoomResponse};

#[test]
fn client_addresses_and_log_lines() {
    let client = Client::new(String::from("ada"));
    assert_eq!(
        client.room_socket_url("t0k3n"),
        "ws://localhost:8080/ws?token=t0k3n&username=ada"
    );
    assert_eq!(Client::room_created_log("r1"), "room id = r1");
}

#[test]
fn client_error_messages() {
    assert_eq!(Error::CreateRoom.message(), "unable to create room");
    assert_eq!(Error::JoinRoom { room_id: String::from("x1") }.message(), "unable to join room x1");
    assert_eq!(Error::WebSocket.message(), "unable to connect to web socket");
    assert_eq!(Error::NotConnected.message(), "not connected to a room");
    assert_eq!(Error::Deserialization.message(), "unable to deserialize message");
    assert_eq!(Error::Serialization.message(), "unable to serialize message");
    assert_eq!(Error::SendMessage.message(), "unable to send message");
    assert_eq!(Error::ReceiveMessage.message(), "unable to receive message");
    assert_eq!(Error::Timeout.message(), "request timed out");
    assert_eq!(Error::AlreadyInitialized.message(), "init() has already been called");
    assert_eq!(Error::PeerConnectionNotReady.message(), "peer connection is not ready");
    assert_eq!(Error::WebcamNotReady.message(), "webcam is not ready");
    assert_eq!(Error::WebRTC { message: String::from("ice failed") }.message(), "ice failed");
}

#[test]
fn client_decides_what_an_input_calls_for() {
    assert_eq!(
        Client::receive_input(&ChatboxInput::Message(String::from("hey"))),
        Action::SendChat { content: String::from("hey") }
    );
    assert_eq!(
        Client::receive_input(&ChatboxInput::Command(ChatboxCommand::Create)),
        Action::CreateRoom
    );
    assert_eq!(
        Client::receive_input(&ChatboxInput::Command(ChatboxCommand::Join {
            room_id: String::from("r2")
        })),
        Action::JoinRoom { room_id: String::from("r2") }
    );
    assert_eq!(
        Client::receive_input(&ChatboxInput::Command(ChatboxCommand::Exit)),
        Action::Nothing
    );
    assert_eq!(Client::receive_input(&ChatboxInput::Exit), Action::Nothing);
    assert_eq!(Client::receive_input(&ChatboxInput::Nothing), Action::Nothing);
}

#[test]
fn client_goes_through_a_room() {
    let mut client = Client::new(String::from("ada"));
    assert!(matches!(client.send_message(), Err(Error::NotConnected)));
    assert!(matches!(client.peer_connection(), Err(Error::PeerConnectionNotReady)));
    assert!(matches!(client.connect_to_room(Attempt::TimedOut), Err(Error::Timeout)));
    assert!(matches!(client.connect_to_room(Attempt::Failed), Err(Error::WebSocket)));
    assert!(matches!(client.send_message(), Err(Error::NotConnected)));
    client.connect_to_room(Attempt::Answered(())).unwrap();
    assert!(client.send_message().is_ok());
    assert_eq!(
        client.send_chat("hi"),
        RoomMessage::Chat {
            username: String::from("ada"),
            content: String::from("hi")
        }
    );
    client.peer_connected();
    assert!(client.peer_connection().is_ok());
}

#[test]
fn client_requests_that_fail() {
    assert!(matches!(Client::room_created(Attempt::TimedOut), Err(Error::Timeout)));
    assert!(matches!(Client::room_created(Attempt::Failed), Err(Error::CreateRoom)));
    let created = Client::room_created(Attempt::Answered(CreateRoomResponse {
        room: String::from("r1"),
        token: String::from("t1"),
    }));
    assert_eq!(created.unwrap(), (String::from("r1"), String::from("t1")));
    match Client::room_joined("r9", Attempt::Failed) {
        Err(Error::JoinRoom { room_id }) => assert_eq!(room_id, "r9"),
        _ => panic!("a failed join must name the room"),
    }
    assert!(matches!(Client::room_joined("r9", Attempt::TimedOut), Err(Error::Timeout)));
    assert_eq!(
        Client::room_joined("r9", Attempt::Answered(JoinRoomResponse { token: String::from("t") }))
            .unwrap(),
        "t"
    );
    assert!(matches!(Client::message_sent(Attempt::TimedOut), Err(Error::Timeout)));
    assert!(matches!(Client::message_sent(Attempt::Failed), Err(Error::SendMessage)));
    assert!(Client::message_sent(Attempt::Answered(())).is_ok());
}

#[test]
fn only_text_frames_carry_messages() {
    assert_eq!(frame_text(Frame::Text(String::from("{}"))).unwrap(), "{}");
    assert!(matches!(frame_text(Frame::Other), Err(Error::Deserialization)));
}

#[test]
fn chat_lines_say_who_did_what() {
    assert_eq!(
        chat_line(&RoomMessage::Chat {
            username: String::from("ada"),
            content: String::from("hello there")
        }),
        "ada: hello there"
    );
    assert_eq!(chat_line(&RoomMessage::Join { username: String::from("bob") }), "bob joined");
    assert_eq!(chat_line(&RoomMessage::Leave { username: String::from("bob") }), "bob left");
    assert_eq!(
        chat_line(&RoomMessage::Chat { username: String::new(), content: String::new() }),
        ": "
    );
}
