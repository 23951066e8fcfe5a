//! Terminal video chat: the codec layer that moves H.264 between the network
//! and a grid of terminal cells, and the small rules of the chat around it.

pub mod chat;
pub mod client;
pub mod input;
pub mod layout;
pub mod room;
pub mod text;
pub mod ui;
pub mod video;
