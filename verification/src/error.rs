//! The errors of the relay.

use vstd::prelude::*;
use vstd::string::*;

verus! {

/// What went wrong with a read or a write, as far as the relay tells
/// failures apart.
#[derive(Clone, Copy, Debug, PartialEq, Eq, Structural)]
pub enum IoErrorKind {
    /// Nothing was ready; the operation can be tried again.
    WouldBlock,
    /// The stream ended before the bytes asked for had come.
    UnexpectedEof,
    /// The peer reset the connection.
    ConnectionReset,
    /// The peer no longer reads what is written.
    BrokenPipe,
    /// Any other failure.
    Other,
}

/// The value of an `AppError`.
pub enum AppErrorView {
    Io(IoErrorKind),
    Serialization(Seq<char>),
    Message(Seq<char>),
    Disconnected,
    WouldBlock,
    Unknown(Seq<char>),
}

/// An error of the relay.
#[derive(Debug, PartialEq, Eq)]
pub enum AppError {
    /// A read or a write failed.
    Io(IoErrorKind),
    /// Bytes that are no message, with the reason.
    Serialization(String),
    /// A message or a frame the relay cannot accept, with the reason.
    Message(String),
    /// The other side is gone.
    Disconnected,
    /// Nothing to read yet.
    WouldBlock,
    /// Anything else.
    Unknown(String),
}

impl View for AppError {
    type V = AppErrorView;

    open spec fn view(&self) -> AppErrorView {
        match *self {
            AppError::Io(kind) => AppErrorView::Io(kind),
            AppError::Serialization(why) => AppErrorView::Serialization(why@),
            AppError::Message(why) => AppErrorView::Message(why@),
            AppError::Disconnected => AppErrorView::Disconnected,
            AppError::WouldBlock => AppErrorView::WouldBlock,
            AppError::Unknown(why) => AppErrorView::Unknown(why@),
        }
    }
}

impl IoErrorKind {
    /// The words for a kind of failure.
    pub open spec fn words(self) -> Seq<char> {
        match self {
            IoErrorKind::WouldBlock => "operation would block"@,
            IoErrorKind::UnexpectedEof => "unexpected end of file"@,
            IoErrorKind::ConnectionReset => "connection reset"@,
            IoErrorKind::BrokenPipe => "broken pipe"@,
            IoErrorKind::Other => "other error"@,
        }
    }

    /// The words for a kind of failure.
    pub fn to_string(&self) -> (text: String)
        ensures
            text@ == self.words(),
    {
        match self {
            IoErrorKind::WouldBlock => String::from_str("operation would block"),
            IoErrorKind::UnexpectedEof => String::from_str("unexpected end of file"),
            IoErrorKind::ConnectionReset => String::from_str("connection reset"),
            IoErrorKind::BrokenPipe => String::from_str("broken pipe"),
            IoErrorKind::Other => String::from_str("other error"),
        }
    }
}

impl AppErrorView {
    /// The line an error is reported as.
    pub open spec fn display(self) -> Seq<char> {
        match self {
            AppErrorView::Io(kind) => "IO Error: "@ + kind.words(),
            AppErrorView::Serialization(why) => "Serialization Error: "@ + why,
            AppErrorView::Message(why) => "Message Error: "@ + why,
            AppErrorView::Disconnected => "Client or Server disconnected"@,
            AppErrorView::WouldBlock => "Would Block"@,
            AppErrorView::Unknown(why) => "Unknown Error: "@ + why,
        }
    }
}

impl AppError {
    /// The line the error is reported as.
    pub fn to_string(&self) -> (line: String)
        ensures
            line@ == self@.display(),
    {
        match self {
            AppError::Io(kind) => {
                let mut line = String::from_str("IO Error: ");
                line.append(kind.to_string().as_str());
                line
            },
            AppError::Serialization(why) => {
                let mut line = String::from_str("Serialization Error: ");
                line.append(why.as_str());
                line
            },
            AppError::Message(why) => {
                let mut line = String::from_str("Message Error: ");
                line.append(why.as_str());
                line
            },
            AppError::Disconnected => String::from_str("Client or Server disconnected"),
            AppError::WouldBlock => String::from_str("Would Block"),
            AppError::Unknown(why) => {
                let mut line = String::from_str("Unknown Error: ");
                line.append(why.as_str());
                line
            },
        }
    }

    /// The kind of failed read that the error reports, if it reports one:
    /// the inverse of `from_read_failure`.
    pub fn read_failure(&self) -> (kind: Option<IoErrorKind>)
        ensures
            kind == (match self@ {
                AppErrorView::WouldBlock => Some(IoErrorKind::WouldBlock),
                AppErrorView::Disconnected => Some(IoErrorKind::UnexpectedEof),
                AppErrorView::Io(kind) => Some(kind),
                _ => None,
            }),
    {
        match self {
            AppError::WouldBlock => Some(IoErrorKind::WouldBlock),
            AppError::Disconnected => Some(IoErrorKind::UnexpectedEof),
            AppError::Io(kind) => Some(*kind),
            _ => None,
        }
    }

    /// The error that a failed read is reported as: nothing ready and a
    /// stream that ended have errors of their own, every other failure is an
    /// `Io` error of its kind.
    pub fn from_read_failure(kind: IoErrorKind) -> (error: AppError)
        ensures
            error@ == (match kind {
                IoErrorKind::WouldBlock => AppErrorView::WouldBlock,
                IoErrorKind::UnexpectedEof => AppErrorView::Disconnected,
                _ => AppErrorView::Io(kind),
            }),
    {
        match kind {
            IoErrorKind::WouldBlock => AppError::WouldBlock,
            IoErrorKind::UnexpectedEof => AppError::Disconnected,
            _ => AppError::Io(kind),
        }
    }
}

} // verus!
