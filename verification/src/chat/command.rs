//! Reading a typed line: a line that begins with `/` is a command, any
//! other line is a message.

use vstd::prelude::*;

use crate::chat::error::Error;
use crate::chat::Chatbox;
use crate::input::Key;
use crate::text::{line_views, pop_char, push_char, split_whitespace, whitespace_tokens};

verus! {

/// A command typed into the chat box.
#[derive(Debug, Clone, PartialEq, Eq)]
pub enum ChatboxCommand {
    /// Open a new room.
    Create,
    /// Join the room with the given id.
    Join { room_id: String },
    /// Leave the program.
    Exit,
}

/// What a key press in the chat box amounts to.
#[derive(Debug, Clone, PartialEq, Eq)]
pub enum ChatboxInput {
    /// A line to send as a chat message.
    Message(String),
    /// A command to carry out.
    Command(ChatboxCommand),
    /// The user wants to leave.
    Exit,
    /// Nothing yet: the line is still being typed.
    Nothing,
}

/// The character that begins a command.
pub const COMMAND_MARKER: char = '/';

pub const CREATE_COMMAND: &'static str = "/create";

pub const JOIN_COMMAND: &'static str = "/join";

pub const EXIT_COMMAND: &'static str = "/exit";

pub const QUIT_COMMAND: &'static str = "/quit";

/// How to use the join command.
pub const JOIN_USAGE: &'static str = "/join <room_id>";

/// Whether `parsed` is what the tokens of a command line stand for. The
/// first token names the command. `/create` makes a room, `/join` takes the
/// room id from the second token and is wrongly used without one, `/exit`
/// and `/quit` both leave; anything else, and a line without tokens, is no
/// command.
pub open spec fn is_command_of(tokens: Seq<Seq<char>>, parsed: Result<ChatboxInput, Error>) -> bool {
    if tokens.len() == 0 {
        parsed matches Err(Error::InvalidCommand)
    } else if tokens[0] == CREATE_COMMAND@ {
        parsed matches Ok(ChatboxInput::Command(ChatboxCommand::Create))
    } else if tokens[0] == JOIN_COMMAND@ {
        if tokens.len() < 2 {
            parsed matches Err(Error::InvalidUsage { usage }) && usage@ == JOIN_USAGE@
        } else {
            parsed matches Ok(ChatboxInput::Command(ChatboxCommand::Join { room_id })) && room_id@
                == tokens[1]
        }
    } else if tokens[0] == EXIT_COMMAND@ || tokens[0] == QUIT_COMMAND@ {
        parsed matches Ok(ChatboxInput::Command(ChatboxCommand::Exit))
    } else {
        parsed matches Err(Error::InvalidCommand)
    }
}

/// Whether a line is a command: it begins with the command marker.
pub open spec fn is_command_line(line: Seq<char>) -> bool {
    line.len() > 0 && line[0] == COMMAND_MARKER
}

/// Whether `parsed` is what a typed line stands for: a command line stands
/// for the command of its tokens, any other line for a message with the
/// line as its text.
pub open spec fn is_parse_of(line: Seq<char>, parsed: Result<ChatboxInput, Error>) -> bool {
    if is_command_line(line) {
        is_command_of(whitespace_tokens(line), parsed)
    } else {
        parsed matches Ok(ChatboxInput::Message(text)) && text@ == line
    }
}

/// Reads a line as a chat message.
pub fn parse_message(input: &str) -> (parsed: Result<ChatboxInput, Error>)
    ensures
        parsed matches Ok(ChatboxInput::Message(text)) && text@ == input@,
{
    Ok(ChatboxInput::Message(String::from_str(input)))
}

/// Reads the tokens of a command line.
pub fn parse_tokens(tokens: &Vec<String>) -> (parsed: Result<ChatboxInput, Error>)
    ensures
        is_command_of(line_views(tokens@), parsed),
{
    if tokens.len() == 0 {
        return Err(Error::InvalidCommand);
    }
    let command = &tokens[0];
    if *command == String::from_str(CREATE_COMMAND) {
        Ok(ChatboxInput::Command(ChatboxCommand::Create))
    } else if *command == String::from_str(JOIN_COMMAND) {
        if tokens.len() < 2 {
            return Err(Error::InvalidUsage { usage: String::from_str(JOIN_USAGE) });
        }
        Ok(ChatboxInput::Command(ChatboxCommand::Join { room_id: tokens[1].clone() }))
    } else if *command == String::from_str(EXIT_COMMAND) || *command == String::from_str(
        QUIT_COMMAND,
    ) {
        Ok(ChatboxInput::Command(ChatboxCommand::Exit))
    } else {
        Err(Error::InvalidCommand)
    }
}

/// Reads a line as a command: splits it at whitespace and takes the first
/// token for the command's name.
pub fn parse_command(input: &str) -> (parsed: Result<ChatboxInput, Error>)
    ensures
        is_command_of(whitespace_tokens(input@), parsed),
{
    let tokens = split_whitespace(input);
    parse_tokens(&tokens)
}

/// Reads a typed line: as a command if it begins with `/`, else as a
/// message.
pub fn parse(input: &str) -> (parsed: Result<ChatboxInput, Error>)
    ensures
        is_parse_of(input@, parsed),
{
    if input.unicode_len() > 0 && input.get_char(0) == COMMAND_MARKER {
        parse_command(input)
    } else {
        parse_message(input)
    }
}

/// Something that turns key presses into chat input.
pub trait Parser {
    /// The line typed so far.
    spec fn typed(&self) -> Seq<char>;

    /// Takes a key press. A character is added to the line and Backspace
    /// takes the last one back; Enter reads the line and empties it; Esc
    /// means leaving.
    fn input(&mut self, key: Key) -> (parsed: Result<ChatboxInput, Error>)
        ensures
            match key {
                Key::Char(character) => parsed matches Ok(ChatboxInput::Nothing) && final(
                    self
                ).typed() == old(self).typed().push(character),
                Key::Backspace => parsed matches Ok(ChatboxInput::Nothing) && final(self).typed()
                    == if old(self).typed().len() > 0 {
                    old(self).typed().drop_last()
                } else {
                    old(self).typed()
                },
                Key::Enter => is_parse_of(old(self).typed(), parsed) && final(self).typed()
                    == Seq::<char>::empty(),
                Key::Esc => parsed matches Ok(ChatboxInput::Exit) && final(self).typed() == old(
                    self,
                ).typed(),
                Key::Other => parsed matches Ok(ChatboxInput::Nothing) && final(self).typed() == old(
                    self,
                ).typed(),
            },
    ;
}

impl Parser for Chatbox {
    open spec fn typed(&self) -> Seq<char> {
        self.typing()
    }

    fn input(&mut self, key: Key) -> (parsed: Result<ChatboxInput, Error>)
        ensures
            final(self).bounds_spec() == old(self).bounds_spec(),
            final(self).lines() == old(self).lines(),
    {
        match key {
            Key::Char(character) => {
                push_char(&mut self.typing_buffer, character);
                Ok(ChatboxInput::Nothing)
            },
            Key::Backspace => {
                let _ = pop_char(&mut self.typing_buffer);
                Ok(ChatboxInput::Nothing)
            },
            Key::Enter => {
                let input = self.typing_buffer.clone();
                self.typing_buffer = String::new();
                parse(input.as_str())
            },
            Key::Esc => Ok(ChatboxInput::Exit),
            Key::Other => Ok(ChatboxInput::Nothing),
        }
    }
}

} // verus!
