//! The messages that travel between peers, and the errors of the relay.

use vstd::prelude::*;
use vstd::string::*;

verus! {

/// The name under which a peer speaks until it registers one.
pub open spec fn anonymous() -> Seq<char> {
    "anonymous"@
}

/// The name under which a peer speaks until it registers one.
pub fn anonymous_name() -> (name: String)
    ensures
        name@ == anonymous(),
{
    String::from_str("anonymous")
}

/// A registered user: the identity a connection resolves to.
#[derive(Debug)]
pub struct User {
    pub id: i64,
    pub name: String,
}

impl Clone for User {
    fn clone(&self) -> (copy: Self)
        ensures
            copy == *self,
    {
        User { id: self.id, name: self.name.clone() }
    }
}

/// What a connection's reader tells its writer.
#[derive(Clone, Copy, Debug, PartialEq, Eq, Structural)]
pub enum InternalMessage {
    /// The connection now speaks for the user with this id.
    UserIdUpdate(i64),
}

/// One message on the wire. The author is absent on the way to the server,
/// which fills it in before it hands the message on.
#[derive(Debug, PartialEq)]
pub enum MessageType {
    /// (author, text)
    Text(Option<String>, String),
    /// (author, contents)
    Image(Option<String>, Vec<u8>),
    /// (author, file name, contents)
    File(Option<String>, String, Vec<u8>),
    /// (account name)
    Register(String),
}

/// The mathematical value of a `MessageType`.
pub enum Message {
    Text(Option<Seq<char>>, Seq<char>),
    Image(Option<Seq<char>>, Seq<u8>),
    File(Option<Seq<char>>, Seq<char>, Seq<u8>),
    Register(Seq<char>),
}

/// The value of an optional name.
pub open spec fn name_view(name: Option<String>) -> Option<Seq<char>> {
    match name {
        Some(n) => Some(n@),
        None => None,
    }
}

impl View for MessageType {
    type V = Message;

    open spec fn view(&self) -> Message {
        match *self {
            MessageType::Text(author, text) => Message::Text(name_view(author), text@),
            MessageType::Image(author, data) => Message::Image(name_view(author), data@),
            MessageType::File(author, name, data) => Message::File(name_view(author), name@, data@),
            MessageType::Register(account) => Message::Register(account@),
        }
    }
}

impl Message {
    /// The author a message carries, if its kind has one and it is filled in.
    pub open spec fn author(self) -> Option<Seq<char>> {
        match self {
            Message::Text(author, _) => author,
            Message::Image(author, _) => author,
            Message::File(author, _, _) => author,
            Message::Register(_) => None,
        }
    }

    /// The same message under the given author. A registration has no author
    /// and stays as it is.
    pub open spec fn with_author(self, name: Seq<char>) -> Message {
        match self {
            Message::Text(_, text) => Message::Text(Some(name), text),
            Message::Image(_, data) => Message::Image(Some(name), data),
            Message::File(_, file, data) => Message::File(Some(name), file, data),
            Message::Register(account) => Message::Register(account),
        }
    }

    /// The name a message is shown under: its author, or the anonymous name.
    pub open spec fn shown_author(self) -> Seq<char> {
        match self.author() {
            Some(name) => name,
            None => anonymous(),
        }
    }

    /// The line a message is shown as.
    pub open spec fn display(self) -> Seq<char> {
        match self {
            Message::Text(_, text) => "["@ + self.shown_author() + "] "@ + text,
            Message::Image(_, _) => "["@ + self.shown_author() + "] <MessageType::Image>"@,
            Message::File(_, name, _) => "["@ + self.shown_author() + "] <MessageType::File>: "@
                + name,
            Message::Register(account) => "<Registering user '"@ + account
                + "' with the server>"@,
        }
    }
}

/// A copy of an optional name.
pub fn copy_name(name: &Option<String>) -> (copy: Option<String>)
    ensures
        copy == *name,
{
    match name {
        Some(n) => Some(n.clone()),
        None => None,
    }
}

impl Clone for MessageType {
    fn clone(&self) -> (copy: Self)
        ensures
            copy@ == self@,
    {
        match self {
            MessageType::Text(author, text) => MessageType::Text(copy_name(author), text.clone()),
            MessageType::Image(author, data) => MessageType::Image(copy_name(author), data.clone()),
            MessageType::File(author, name, data) => MessageType::File(
                copy_name(author),
                name.clone(),
                data.clone(),
            ),
            MessageType::Register(account) => MessageType::Register(account.clone()),
        }
    }
}

impl MessageType {
    /// The author the message carries, if any.
    pub fn author(&self) -> (name: Option<&String>)
        ensures
            match name {
                Some(n) => self@.author() == Some(n@),
                None => self@.author().is_none(),
            },
    {
        match self {
            MessageType::Text(author, _) => author.as_ref(),
            MessageType::Image(author, _) => author.as_ref(),
            MessageType::File(author, _, _) => author.as_ref(),
            MessageType::Register(_) => None,
        }
    }

    /// The same message under the given author; a registration is handed
    /// back unchanged.
    pub fn with_author(self, name: String) -> (out: MessageType)
        ensures
            out@ == self@.with_author(name@),
            !(self@ is Register) ==> out@.author() == Some(name@),
    {
        match self {
            MessageType::Text(_, text) => MessageType::Text(Some(name), text),
            MessageType::Image(_, data) => MessageType::Image(Some(name), data),
            MessageType::File(_, file, data) => MessageType::File(Some(name), file, data),
            MessageType::Register(account) => MessageType::Register(account),
        }
    }

    /// The name the message is shown under.
    fn shown_author(&self) -> (name: String)
        ensures
            name@ == self@.shown_author(),
    {
        match self.author() {
            Some(n) => n.clone(),
            None => anonymous_name(),
        }
    }

    /// The line the message is shown as: the author in square brackets, then
    /// the text, or a word for what the message carries.
    pub fn to_string(&self) -> (line: String)
        ensures
            line@ == self@.display(),
    {
        match self {
            MessageType::Text(_, text) => {
                let mut line = String::from_str("[");
                line.append(self.shown_author().as_str());
                line.append("] ");
                line.append(text.as_str());
                line
            },
            MessageType::Image(_, _) => {
                let mut line = String::from_str("[");
                line.append(self.shown_author().as_str());
                line.append("] <MessageType::Image>");
                line
            },
            MessageType::File(_, name, _) => {
                let mut line = String::from_str("[");
                line.append(self.shown_author().as_str());
                line.append("] <MessageType::File>: ");
                line.append(name.as_str());
                line
            },
            MessageType::Register(account) => {
                let mut line = String::from_str("<Registering user '");
                line.append(account.as_str());
                line.append("' with the server>");
                line
            },
        }
    }
}

} // verus!
