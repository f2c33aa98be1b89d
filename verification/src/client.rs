//! The client's decisions: what a typed line asks for, which message it
//! makes, and what to do with a message that comes in.

use crate::command::Command;
use crate::error::{AppError, AppErrorView, IoErrorKind};
use crate::message::{Message, MessageType};
use crate::text::{is_split, join_from, joined, split_first, trim, trimmed, words_from, words_view};
use vstd::prelude::*;
use vstd::string::*;

verus! {

/// The commands a user can type, as they are shown on request.
pub fn client_usage() -> (text: String)
    ensures
        text@
            == "\n------------------------------ \nMessage broadcast options: \n\t- <message> \n\t- .file <path> \n\t- .image <path> \n\t- .register <account name> \n\t- .help \n\t- .quit \n------------------------------"@,
{
    String::from_str(
        "\n------------------------------ \nMessage broadcast options: \n\t- <message> \n\t- .file <path> \n\t- .image <path> \n\t- .register <account name> \n\t- .help \n\t- .quit \n------------------------------",
    )
}

/// A typed line, taken apart: its first word, what follows the first
/// space, and the command that the first word stands for.
#[derive(Debug)]
pub struct ParsedLine {
    pub command: Command,
    pub word: String,
    pub rest: Option<String>,
}

/// What the client does about a typed line.
#[derive(Clone, Copy, Debug, PartialEq, Eq, Structural)]
pub enum LineAction {
    /// Shut down.
    Quit,
    /// Show the commands.
    Help,
    /// Nothing: the line is empty.
    Ignore,
    /// Make a message of the line and send it.
    Send,
}

/// The value of an optional string.
pub open spec fn rest_view(rest: Option<String>) -> Option<Seq<char>> {
    match rest {
        Some(r) => Some(r@),
        None => None,
    }
}

/// What the client does about a line with the given command and first
/// word: it leaves or shows the commands when asked to, passes over an
/// empty line, and sends everything else.
pub open spec fn action_of(command: Command, word: Seq<char>) -> LineAction {
    match command {
        Command::Quit => LineAction::Quit,
        Command::Help => LineAction::Help,
        Command::Text => if word.len() == 0 {
            LineAction::Ignore
        } else {
            LineAction::Send
        },
        _ => LineAction::Send,
    }
}

impl ParsedLine {
    /// The parts of the line: the first word, and the rest where there is
    /// one.
    pub open spec fn parts_view(self) -> Seq<Seq<char>> {
        match self.rest {
            Some(r) => seq![self.word@, r@],
            None => seq![self.word@],
        }
    }

    /// The parts of the line: the first word, and the rest where there is
    /// one.
    pub fn parts(&self) -> (out: Vec<&str>)
        ensures
            words_view(out@) == self.parts_view(),
    {
        let mut out: Vec<&str> = Vec::new();
        out.push(self.word.as_str());
        match &self.rest {
            Some(r) => {
                out.push(r.as_str());
            },
            None => {},
        }
        assert(words_view(out@) =~= self.parts_view());
        out
    }

    /// The file whose contents the line's message is to carry: the one
    /// that the rest of the line names, where the command sends a file or
    /// an image.
    pub open spec fn file_view(self) -> Option<Seq<char>> {
        if self.command == Command::File || self.command == Command::Image {
            rest_view(self.rest)
        } else {
            None
        }
    }

    /// The file whose contents the line's message is to carry.
    pub fn file_to_read(&self) -> (path: Option<&String>)
        ensures
            match path {
                Some(p) => self.file_view() == Some(p@),
                None => self.file_view().is_none(),
            },
    {
        match self.command {
            Command::File => self.rest.as_ref(),
            Command::Image => self.rest.as_ref(),
            _ => None,
        }
    }

    /// What the client does about the line.
    pub fn action(&self) -> (out: LineAction)
        ensures
            out == action_of(self.command, self.word@),
    {
        match self.command {
            Command::Quit => LineAction::Quit,
            Command::Help => LineAction::Help,
            Command::Text => {
                if self.word.as_str().unicode_len() == 0 {
                    LineAction::Ignore
                } else {
                    LineAction::Send
                }
            },
            _ => LineAction::Send,
        }
    }
}

/// Takes a typed line apart: the white space at its ends is dropped, the
/// rest falls into a first word and what follows the first space, and the
/// first word names the command.
pub fn interpret_line(line: &str) -> (out: ParsedLine)
    ensures
        is_split(trimmed(line@), out.word@, rest_view(out.rest)),
        out.command == Command::of_word(out.word@),
{
    let (word, rest) = split_first(trim(line));
    let command = Command::parse(word.as_str());
    ParsedLine { command, word, rest }
}

/// The last component of a path, as `Path::file_name` gives it.
pub uninterp spec fn file_name(path: Seq<char>) -> Option<Seq<char>>;

/// `Path::file_name` on a path given as a string: its last component,
/// where it has one, by the rules for paths of the system that the library
/// is built for.
#[verifier::external_body]
fn file_name_of(path: &str) -> (out: Option<String>)
    ensures
        rest_view(out) == file_name(path@),
{
    std::path::Path::new(path).file_name().and_then(|name| name.to_str()).map(String::from)
}

/// The message that a command makes of a line's parts, or the reason why
/// it makes none. Text sends all parts, a registration all but the first,
/// each with single spaces between; a file or an image is named by the
/// second part and sends the contents that were read from it.
pub open spec fn generated(
    command: Command,
    parts: Seq<Seq<char>>,
    contents: Option<Seq<u8>>,
) -> Result<Message, Seq<char>> {
    match command {
        Command::File => if parts.len() < 2 {
            Err("Missing file path."@)
        } else {
            match (contents, file_name(parts[1])) {
                (None, _) => Err("Failed to read file."@),
                (Some(_), None) => Err("Failed to get file name"@),
                (Some(data), Some(name)) => Ok(Message::File(None, name, data)),
            }
        },
        Command::Image => if parts.len() < 2 {
            Err("Missing image path."@)
        } else {
            match contents {
                None => Err("Failed to read image."@),
                Some(data) => Ok(Message::Image(None, data)),
            }
        },
        Command::Register => Ok(Message::Register(joined(words_from(parts, 1)))),
        _ => Ok(Message::Text(None, joined(parts))),
    }
}

/// A line of text is sent as it was typed, and a registration names what
/// was typed behind the command: joining the parts of a line gives the
/// line back, and joining all but the first gives its rest.
pub proof fn lemma_parts_give_the_line(line: Seq<char>, word: Seq<char>, rest: Option<Seq<char>>)
    requires
        is_split(line, word, rest),
    ensures
        joined(
            match rest {
                Some(r) => seq![word, r],
                None => seq![word],
            },
        ) == line,
        joined(
            words_from(
                match rest {
                    Some(r) => seq![word, r],
                    None => seq![word],
                },
                1,
            ),
        ) == (match rest {
            Some(r) => r,
            None => Seq::empty(),
        }),
{
    reveal_with_fuel(joined, 3);
    reveal_strlit(" ");
    match rest {
        Some(r) => {
            let parts = seq![word, r];
            assert(parts.drop_last() =~= seq![word]);
            assert(" "@ =~= seq![' ']);
            assert(words_from(parts, 1) =~= seq![r]);
        },
        None => {
            assert(words_from(seq![word], 1) =~= Seq::<Seq<char>>::empty());
        },
    }
}

/// An error with the given reason.
fn refusal(why: &str) -> (out: Result<MessageType, AppError>)
    ensures
        out matches Err(error) && error@ == AppErrorView::Message(why@),
{
    Err(AppError::Message(String::from_str(why)))
}

/// The message that a command makes of a line's parts. `contents` is what
/// was read from the file that the second part names, or nothing where it
/// could not be read. Only a command that sends something makes a message.
pub fn generate_message(command: Command, parts: Vec<&str>, contents: Option<Vec<u8>>) -> (out:
    Result<MessageType, AppError>)
    requires
        command != Command::Help,
        command != Command::Quit,
    ensures
        match out {
            Ok(message) => generated(
                command,
                words_view(parts@),
                match contents {
                    Some(data) => Some(data@),
                    None => None,
                },
            ) == Ok::<Message, Seq<char>>(message@),
            Err(error) => generated(
                command,
                words_view(parts@),
                match contents {
                    Some(data) => Some(data@),
                    None => None,
                },
            ) matches Err(why) && error@ == AppErrorView::Message(why),
        },
{
    match command {
        Command::File => {
            if parts.len() < 2 {
                return refusal("Missing file path.");
            }
            match contents {
                None => refusal("Failed to read file."),
                Some(data) => match file_name_of(parts[1]) {
                    None => refusal("Failed to get file name"),
                    Some(name) => Ok(MessageType::File(None, name, data)),
                },
            }
        },
        Command::Image => {
            if parts.len() < 2 {
                return refusal("Missing image path.");
            }
            match contents {
                None => refusal("Failed to read image."),
                Some(data) => Ok(MessageType::Image(None, data)),
            }
        },
        Command::Register => Ok(MessageType::Register(join_from(&parts, 1))),
        _ => {
            let text = join_from(&parts, 0);
            assert(words_from(words_view(parts@), 0) =~= words_view(parts@));
            Ok(MessageType::Text(None, text))
        },
    }
}

/// What the client does with a message that came in.
pub enum Incoming {
    /// Save the contents under the name, and show the notice.
    SaveFile { name: String, data: Vec<u8>, notice: String },
    /// Save the contents as an image, and show the notice.
    SaveImage { data: Vec<u8>, notice: String },
    /// Show the notice.
    Show { notice: String },
}

/// The value of an `Incoming`.
pub enum IncomingView {
    SaveFile { name: Seq<char>, data: Seq<u8>, notice: Seq<char> },
    SaveImage { data: Seq<u8>, notice: Seq<char> },
    Show { notice: Seq<char> },
}

impl View for Incoming {
    type V = IncomingView;

    open spec fn view(&self) -> IncomingView {
        match *self {
            Incoming::SaveFile { name, data, notice } => IncomingView::SaveFile {
                name: name@,
                data: data@,
                notice: notice@,
            },
            Incoming::SaveImage { data, notice } => IncomingView::SaveImage {
                data: data@,
                notice: notice@,
            },
            Incoming::Show { notice } => IncomingView::Show { notice: notice@ },
        }
    }
}

/// What the client does with a message that came in: a file and an image
/// are saved, and every message is announced by a notice that names its
/// author.
pub open spec fn incoming_of(message: Message) -> IncomingView {
    match message {
        Message::File(author, name, data) => IncomingView::SaveFile {
            name,
            data,
            notice: "[RECEIVED FILE from "@ + (match author {
                Some(user) => user,
                None => "anonymous"@,
            }) + "] Saving to..: "@ + name,
        },
        Message::Image(author, data) => IncomingView::SaveImage {
            data,
            notice: "[RECEIVED IMAGE from "@ + (match author {
                Some(user) => user,
                None => "Anonymous"@,
            }) + "]"@,
        },
        Message::Text(author, text) => IncomingView::Show {
            notice: "["@ + (match author {
                Some(user) => user,
                None => "Anonymous"@,
            }) + "] "@ + text,
        },
        Message::Register(account) => IncomingView::Show {
            notice: "[NEW USER LOGGED IN] "@ + account,
        },
    }
}

/// A notice: an opening, a name or the word for no name, and a closing.
fn notice(opening: &str, author: &Option<String>, nobody: &str, closing: &str) -> (out: String)
    ensures
        out@ == opening@ + (match *author {
            Some(user) => user@,
            None => nobody@,
        }) + closing@,
{
    let mut out = String::from_str(opening);
    match author {
        Some(user) => out.append(user.as_str()),
        None => out.append(nobody),
    }
    out.append(closing);
    out
}

/// What the client does with a message that came in.
pub fn on_message(message: MessageType) -> (out: Incoming)
    ensures
        out@ == incoming_of(message@),
{
    match message {
        MessageType::File(author, name, data) => {
            let mut text = notice("[RECEIVED FILE from ", &author, "anonymous", "] Saving to..: ");
            text.append(name.as_str());
            Incoming::SaveFile { name, data, notice: text }
        },
        MessageType::Image(author, data) => {
            let text = notice("[RECEIVED IMAGE from ", &author, "Anonymous", "]");
            Incoming::SaveImage { data, notice: text }
        },
        MessageType::Text(author, body) => {
            let mut text = notice("[", &author, "Anonymous", "] ");
            text.append(body.as_str());
            Incoming::Show { notice: text }
        },
        MessageType::Register(account) => {
            let mut text = String::from_str("[NEW USER LOGGED IN] ");
            text.append(account.as_str());
            Incoming::Show { notice: text }
        },
    }
}

/// The pattern by which the time is written into an image's file name:
/// year, month, day, hour, minute and second, as digits.
pub open spec fn stamp_pattern() -> Seq<char> {
    "%Y%m%d%H%M%S"@
}

/// The file under which an image is saved that came at the given time.
pub open spec fn image_path(stamp: Seq<char>) -> Seq<char> {
    "./images/"@ + stamp + ".png"@
}

/// `chrono::Local::now`, written out by `DateTime::format`. Nothing is
/// promised of the text. `format` fails on a pattern it does not know, so
/// only the one pattern is let in; the clock is taken to stand within the
/// years `chrono` counts.
#[verifier::external_body]
fn local_time_text(pattern: &str) -> String
    requires
        pattern@ == stamp_pattern(),
{
    chrono::Local::now().format(pattern).to_string()
}

/// The file under which an image is saved that came at the given time.
pub fn image_file_name_at(stamp: &str) -> (name: String)
    ensures
        name@ == image_path(stamp@),
{
    let mut name = String::from_str("./images/");
    name.append(stamp);
    name.append(".png");
    name
}

/// The file under which an image is saved that comes now.
pub fn image_file_name() -> (name: String)
    ensures
        exists|stamp: Seq<char>| name@ == #[trigger] image_path(stamp),
{
    let stamp = local_time_text("%Y%m%d%H%M%S");
    image_file_name_at(stamp.as_str())
}

/// A path below another, as `Path::join` makes it.
pub uninterp spec fn joined_path(base: Seq<char>, name: Seq<char>) -> Seq<char>;

/// `Path::join` on paths given as strings, by the rules for paths of the
/// system that the library is built for.
#[verifier::external_body]
fn join_path(base: &str, name: &str) -> (out: String)
    ensures
        out@ == joined_path(base@, name@),
{
    std::path::Path::new(base).join(name).to_string_lossy().into_owned()
}

/// The file under which a file that came in is saved: the one of its name
/// below `./files`.
pub fn file_save_path(name: &str) -> (path: String)
    ensures
        path@ == joined_path("./files"@, name@),
{
    join_path("./files", name)
}

/// The notice with which the client shuts down when reading from the
/// server fails; none where the read only found nothing ready, and the
/// client reads again.
pub open spec fn farewell(kind: IoErrorKind) -> Option<Seq<char>> {
    match kind {
        IoErrorKind::WouldBlock => None,
        IoErrorKind::UnexpectedEof => Some("Server disconnected. Shutting down..."@),
        IoErrorKind::ConnectionReset => Some("Server at connection reset. Shutting down..."@),
        IoErrorKind::BrokenPipe => Some("Server connection had broken pipe. Shutting down..."@),
        IoErrorKind::Other => Some("Unexpected error reading from server: "@ + kind.words()),
    }
}

/// What the client does when reading from the server fails: it reads again
/// where nothing was ready, and shuts down with a notice on every other
/// failure.
pub fn on_read_failure(kind: IoErrorKind) -> (out: Option<String>)
    ensures
        rest_view(out) == farewell(kind),
{
    match kind {
        IoErrorKind::WouldBlock => None,
        IoErrorKind::UnexpectedEof => Some(
            String::from_str("Server disconnected. Shutting down..."),
        ),
        IoErrorKind::ConnectionReset => Some(
            String::from_str("Server at connection reset. Shutting down..."),
        ),
        IoErrorKind::BrokenPipe => Some(
            String::from_str("Server connection had broken pipe. Shutting down..."),
        ),
        IoErrorKind::Other => {
            let mut out = String::from_str("Unexpected error reading from server: ");
            out.append(kind.to_string().as_str());
            Some(out)
        },
    }
}

} // verus!
