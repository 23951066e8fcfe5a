//! Errors of the chat box.

use vstd::prelude::*;

verus! {

/// What can be wrong with a line that begins like a command.
#[derive(Debug, Clone)]
pub enum Error {
    /// The command is known but was used wrongly; `usage` shows how to use
    /// it.
    InvalidUsage { usage: String },
    /// There is no such command.
    InvalidCommand,
}

impl Error {
    /// What `message` returns, as a sequence of characters.
    pub open spec fn message_spec(self) -> Seq<char> {
        match self {
            Error::InvalidUsage { usage } => "usage: "@ + usage@,
            Error::InvalidCommand => "invalid command"@,
        }
    }

    /// The text shown to the user for this error.
    pub fn message(&self) -> (text: String)
        ensures
            text@ == self.message_spec(),
    {
        match self {
            Error::InvalidUsage { usage } => String::from_str("usage: ").concat(usage.as_str()),
            Error::InvalidCommand => String::from_str("invalid command"),
        }
    }
}

} // verus!
