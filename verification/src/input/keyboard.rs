//! The line editor behind the keyboard: it collects what is typed and says
//! what each key press means.

use vstd::prelude::*;

use crate::input::{InputType, Key};
use crate::text::{begins_with, pop_char, push_char, starts_with, trim, trimmed};

verus! {

/// The error type of the standard library's input and output, which no
/// function here ever produces.
#[verifier::external_type_specification]
#[verifier::external_body]
pub struct ExIoError(std::io::Error);

/// The command that opens a new room.
pub const CREATE_ROOM_COMMAND: &'static str = "/create";

/// The command that joins a room.
pub const JOIN_ROOM_COMMAND: &'static str = "/create";

/// The command that leaves the program.
pub const QUIT_COMMAND: &'static str = "/quit";

/// The keyboard with the line typed so far.
pub struct Keyboard {
    buffer: String,
}

/// What pressing Enter means for a line, given the line without the
/// whitespace around it: a line that begins with the join command joins a
/// room, the commands to create a room and to quit are read from the
/// trimmed line, and any other line is sent.
pub open spec fn meaning(line: Seq<char>, trimmed_line: Seq<char>) -> InputType {
    if begins_with(line, JOIN_ROOM_COMMAND@) {
        InputType::JoinRoom
    } else if trimmed_line == CREATE_ROOM_COMMAND@ {
        InputType::CreateRoom
    } else if trimmed_line == QUIT_COMMAND@ {
        InputType::Exit
    } else {
        InputType::Send
    }
}

/// What pressing Enter means for the line typed so far.
pub open spec fn entered(line: Seq<char>) -> InputType {
    meaning(line, trimmed(line))
}

/// Reads a line as a command, given the line without the whitespace around
/// it.
pub fn read_line(line: &str, trimmed_line: &str) -> (input: InputType)
    ensures
        input == meaning(line@, trimmed_line@),
{
    if starts_with(line, JOIN_ROOM_COMMAND) {
        return InputType::JoinRoom;
    }
    let command = String::from_str(trimmed_line);
    if command == String::from_str(CREATE_ROOM_COMMAND) {
        InputType::CreateRoom
    } else if command == String::from_str(QUIT_COMMAND) {
        InputType::Exit
    } else {
        InputType::Send
    }
}

impl Keyboard {
    /// The line typed so far.
    pub closed spec fn line(&self) -> Seq<char> {
        self.buffer@
    }

    /// A keyboard with nothing typed.
    pub fn new() -> (keyboard: Self)
        ensures
            keyboard.line() == Seq::<char>::empty(),
    {
        Keyboard { buffer: String::new() }
    }

    /// The line typed so far.
    pub fn buffer(&self) -> (line: &str)
        ensures
            line@ == self.line(),
    {
        self.buffer.as_str()
    }

    /// Takes a key press. A character is added to the line and Backspace
    /// takes the last one back; Enter reads the line as a command and leaves
    /// it in place; Esc means leaving. No key press fails.
    pub fn input(&mut self, key: Key) -> (meaning: Result<InputType, std::io::Error>)
        ensures
            meaning is Ok,
            match key {
                Key::Char(character) => meaning.unwrap() == (InputType::Normal { character })
                    && final(self).line() == old(self).line().push(character),
                Key::Backspace => meaning.unwrap() == InputType::Backspace && final(self).line()
                    == if old(self).line().len() > 0 {
                    old(self).line().drop_last()
                } else {
                    old(self).line()
                },
                Key::Enter => meaning.unwrap() == entered(old(self).line()) && final(self).line()
                    == old(self).line(),
                Key::Esc => meaning.unwrap() == InputType::Exit && final(self).line() == old(
                    self,
                ).line(),
                Key::Other => meaning.unwrap() == InputType::Unknown && final(self).line() == old(
                    self,
                ).line(),
            },
    {
        match key {
            Key::Char(character) => {
                push_char(&mut self.buffer, character);
                Ok(InputType::Normal { character })
            },
            Key::Backspace => {
                let _ = pop_char(&mut self.buffer);
                Ok(InputType::Backspace)
            },
            Key::Enter => {
                let line = self.buffer.as_str();
                Ok(read_line(line, trim(line)))
            },
            Key::Esc => Ok(InputType::Exit),
            Key::Other => Ok(InputType::Unknown),
        }
    }
}

} // verus!
