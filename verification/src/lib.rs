//! A chat relay: framed messages from each connected peer are handed to every
//! other peer, under the name its sender registered with.

pub mod client;
pub mod codec;
pub mod command;
pub mod error;
pub mod frame;
pub mod hostname;
pub mod json;
pub mod message;
pub mod registry;
pub mod relay;
pub mod text;
pub mod users;

pub use client::{
    client_usage, generate_message, interpret_line, on_message, Incoming, LineAction, ParsedLine,
};
pub use codec::{Fed, FrameProgress};
pub use command::{Command, CommandParseError};
pub use error::{AppError, AppErrorView, IoErrorKind};
pub use hostname::get_hostname;
pub use json::{Json, JsonTree};
pub use message::{InternalMessage, Message, MessageType, User};
pub use registry::{BroadcastReport, Outbox, PeerAddr, PeerRegistry};
pub use relay::{
    classify_read_failure, conclude, enrich, plan, process_message, Answer, Connection,
    ConnectionEvent, ConnectionState, Lookup, NextStep, Outcome, Processed, ReadVerdict, Relay,
    Routed, Writer, WriterEvent, WriterStep,
};
pub use users::{content_to_keep, Directory, StoredMessage, UserDirectory};
