//! What a client's user can ask for, and the messages made of it.

use crate::text::same_text;
use vstd::prelude::*;
use vstd::string::*;

verus! {

/// What a line typed at the client asks for.
#[derive(Clone, Copy, Debug, PartialEq, Eq, Structural)]
pub enum Command {
    /// Send a file.
    File,
    /// Show the commands.
    Help,
    /// Send an image.
    Image,
    /// Register an account name.
    Register,
    /// Send the line as text.
    Text,
    /// Leave.
    Quit,
}

/// The error of a command that cannot be read.
#[derive(Debug)]
pub struct CommandParseError {}

impl CommandParseError {
    /// The line the error is reported as.
    pub fn to_string(&self) -> (line: String)
        ensures
            line@ == "Problem parsing command input."@,
    {
        String::from_str("Problem parsing command input.")
    }
}

impl Command {
    /// The command that a line's first word stands for: one of the five
    /// words that begin with a dot, and text for every other word.
    pub open spec fn of_word(word: Seq<char>) -> Command {
        if word == ".file"@ {
            Command::File
        } else if word == ".help"@ {
            Command::Help
        } else if word == ".image"@ {
            Command::Image
        } else if word == ".register"@ {
            Command::Register
        } else if word == ".quit"@ {
            Command::Quit
        } else {
            Command::Text
        }
    }

    /// The command that a line's first word stands for.
    pub fn parse(word: &str) -> (command: Command)
        ensures
            command == Command::of_word(word@),
    {
        if same_text(word, ".file") {
            Command::File
        } else if same_text(word, ".help") {
            Command::Help
        } else if same_text(word, ".image") {
            Command::Image
        } else if same_text(word, ".register") {
            Command::Register
        } else if same_text(word, ".quit") {
            Command::Quit
        } else {
            Command::Text
        }
    }
}

impl std::str::FromStr for Command {
    type Err = CommandParseError;

    /// Every word is a command, so this never fails.
    fn from_str(s: &str) -> (out: Result<Self, Self::Err>)
        ensures
            out is Ok,
            out->Ok_0 == Command::of_word(s@),
    {
        Ok(Command::parse(s))
    }
}

} // verus!
