//! The relay itself: the life of a connection, and the way of a message
//! from the peer that sent it to all the others.

use crate::error::{AppError, AppErrorView, IoErrorKind};
use crate::message::{anonymous, anonymous_name, InternalMessage, Message, MessageType};
use crate::registry::{
    fan_out, messages_view, out_of_reach, recipients, routed_peers, Outbox, PeerAddr,
    PeerRegistry,
};
use crate::users::{
    content_to_keep, id_of, kept_content, name_of, registered, Directory, StoredMessage,
    UserDirectory,
};
use vstd::prelude::*;

verus! {

/// Where a connection stands in its life.
#[derive(Clone, Copy, Debug, PartialEq, Eq, Structural)]
pub enum ConnectionState {
    /// Accepted, not yet in the registry.
    Connecting,
    /// In the registry; frames are read and routed.
    Active,
    /// Reading has ended; the registry entry is to be removed.
    Draining,
    /// Out of the registry, for good.
    Closed,
}

/// What a failed read means for the connection.
#[derive(Clone, Copy, Debug, PartialEq, Eq, Structural)]
pub enum ReadVerdict {
    /// Nothing was ready: read again.
    Retry,
    /// The peer is gone: an expected end.
    Disconnected,
    /// Something else went wrong: an end worth an error in the log.
    Failed,
}

/// What happens to a connection.
#[derive(Clone, Copy, Debug, PartialEq, Eq, Structural)]
pub enum ConnectionEvent {
    /// Its entry was put into the registry.
    Registered,
    /// A frame was read and its message routed.
    Routed,
    /// A frame was read that holds no message.
    Malformed,
    /// A read failed.
    ReadFailed(IoErrorKind),
    /// The signal to shut down was raised.
    Shutdown,
    /// Its entry was taken out of the registry.
    Removed,
}

/// What the task that drives a connection does next.
#[derive(Clone, Copy, Debug, PartialEq, Eq, Structural)]
pub enum NextStep {
    /// Put the connection into the registry.
    Register,
    /// Read the next frame.
    Read,
    /// Take the connection out of the registry.
    Remove,
    /// Nothing more: end the task.
    Stop,
}

/// What a failed read means: nothing ready is no failure, a stream that
/// ended or broke is a disconnect, and every other kind is an error.
pub open spec fn verdict_of(kind: IoErrorKind) -> ReadVerdict {
    match kind {
        IoErrorKind::WouldBlock => ReadVerdict::Retry,
        IoErrorKind::UnexpectedEof => ReadVerdict::Disconnected,
        IoErrorKind::ConnectionReset => ReadVerdict::Disconnected,
        IoErrorKind::BrokenPipe => ReadVerdict::Disconnected,
        IoErrorKind::Other => ReadVerdict::Failed,
    }
}

/// What a failed read means for the connection.
pub fn classify_read_failure(kind: IoErrorKind) -> (verdict: ReadVerdict)
    ensures
        verdict == verdict_of(kind),
{
    match kind {
        IoErrorKind::WouldBlock => ReadVerdict::Retry,
        IoErrorKind::UnexpectedEof => ReadVerdict::Disconnected,
        IoErrorKind::ConnectionReset => ReadVerdict::Disconnected,
        IoErrorKind::BrokenPipe => ReadVerdict::Disconnected,
        IoErrorKind::Other => ReadVerdict::Failed,
    }
}

impl ConnectionState {
    /// How far a connection has come: each state counts one more than the
    /// one before it.
    pub open spec fn rank(self) -> int {
        match self {
            ConnectionState::Connecting => 0,
            ConnectionState::Active => 1,
            ConnectionState::Draining => 2,
            ConnectionState::Closed => 3,
        }
    }

    /// The state after an event. A connecting peer becomes active once it
    /// is registered, and is closed where it is told to shut down before.
    /// An active one stays so while frames are routed and while reads find
    /// nothing ready, and drains on a frame that holds no message, on every
    /// other failed read and on the signal to shut down. A draining one is
    /// closed once it is removed. Every other event leaves the state as it
    /// is.
    pub open spec fn after(self, event: ConnectionEvent) -> ConnectionState {
        match (self, event) {
            (ConnectionState::Connecting, ConnectionEvent::Registered) => ConnectionState::Active,
            (ConnectionState::Connecting, ConnectionEvent::Shutdown) => ConnectionState::Closed,
            (ConnectionState::Active, ConnectionEvent::Shutdown) => ConnectionState::Draining,
            (ConnectionState::Active, ConnectionEvent::Malformed) => ConnectionState::Draining,
            (ConnectionState::Active, ConnectionEvent::ReadFailed(kind)) => if verdict_of(kind)
                == ReadVerdict::Retry {
                ConnectionState::Active
            } else {
                ConnectionState::Draining
            },
            (ConnectionState::Draining, ConnectionEvent::Removed) => ConnectionState::Closed,
            (state, _) => state,
        }
    }

    /// What is to be done in a state.
    pub open spec fn duty(self) -> NextStep {
        match self {
            ConnectionState::Connecting => NextStep::Register,
            ConnectionState::Active => NextStep::Read,
            ConnectionState::Draining => NextStep::Remove,
            ConnectionState::Closed => NextStep::Stop,
        }
    }

    /// The state after an event, and what is to be done in it.
    pub fn step(self, event: ConnectionEvent) -> (out: (ConnectionState, NextStep))
        ensures
            out.0 == self.after(event),
            out.1 == self.after(event).duty(),
    {
        let next = match self {
            ConnectionState::Connecting => match event {
                ConnectionEvent::Registered => ConnectionState::Active,
                ConnectionEvent::Shutdown => ConnectionState::Closed,
                _ => ConnectionState::Connecting,
            },
            ConnectionState::Active => match event {
                ConnectionEvent::Shutdown => ConnectionState::Draining,
                ConnectionEvent::Malformed => ConnectionState::Draining,
                ConnectionEvent::ReadFailed(kind) => match classify_read_failure(kind) {
                    ReadVerdict::Retry => ConnectionState::Active,
                    _ => ConnectionState::Draining,
                },
                _ => ConnectionState::Active,
            },
            ConnectionState::Draining => match event {
                ConnectionEvent::Removed => ConnectionState::Closed,
                _ => ConnectionState::Draining,
            },
            ConnectionState::Closed => ConnectionState::Closed,
        };
        let duty = match next {
            ConnectionState::Connecting => NextStep::Register,
            ConnectionState::Active => NextStep::Read,
            ConnectionState::Draining => NextStep::Remove,
            ConnectionState::Closed => NextStep::Stop,
        };
        (next, duty)
    }
}

impl ConnectionEvent {
    /// What the failure to get a message from a connection is to it: a
    /// failed read where the error reports one, and else a frame that holds
    /// no message.
    pub open spec fn of_error(error: AppErrorView) -> ConnectionEvent {
        match error {
            AppErrorView::WouldBlock => ConnectionEvent::ReadFailed(IoErrorKind::WouldBlock),
            AppErrorView::Disconnected => ConnectionEvent::ReadFailed(IoErrorKind::UnexpectedEof),
            AppErrorView::Io(kind) => ConnectionEvent::ReadFailed(kind),
            _ => ConnectionEvent::Malformed,
        }
    }

    /// What the failure to get a message from a connection is to it.
    pub fn from_error(error: &AppError) -> (event: ConnectionEvent)
        ensures
            event == ConnectionEvent::of_error(error@),
    {
        match error.read_failure() {
            Some(kind) => ConnectionEvent::ReadFailed(kind),
            None => ConnectionEvent::Malformed,
        }
    }
}

/// A connection never goes back: an event leaves it where it is or takes
/// it on, and a closed one stays closed. It is active only after it was
/// registered, and closed from the registry only through draining. A read
/// that finds nothing ready does not end an active connection, and every
/// other failed read does.
pub proof fn lemma_connection_progress(state: ConnectionState, event: ConnectionEvent)
    ensures
        state.rank() <= state.after(event).rank(),
        state == ConnectionState::Closed ==> state.after(event) == ConnectionState::Closed,
        state != ConnectionState::Active && state.after(event) == ConnectionState::Active ==> state
            == ConnectionState::Connecting && event == ConnectionEvent::Registered,
        state == ConnectionState::Active && state.after(event) != ConnectionState::Active
            ==> state.after(event) == ConnectionState::Draining,
        state == ConnectionState::Active && event == ConnectionEvent::ReadFailed(
            IoErrorKind::WouldBlock,
        ) ==> state.after(event) == ConnectionState::Active,
        state == ConnectionState::Active && (event matches ConnectionEvent::ReadFailed(kind)
            && kind != IoErrorKind::WouldBlock) ==> state.after(event) == ConnectionState::Draining,
{
}

/// The name that a user id resolves to: the user's name, or the anonymous
/// name where there is no such user.
pub open spec fn resolved_name(names: Seq<Seq<char>>, user_id: int) -> Seq<char> {
    match name_of(names, user_id) {
        Some(name) => name,
        None => anonymous(),
    }
}

/// A message as it is handed on: under the name that its sender resolved
/// to, or the anonymous name where it resolved to none. A registration
/// goes on as it came.
pub fn enrich(message: MessageType, resolved: Option<String>) -> (out: MessageType)
    ensures
        out@ == message@.with_author(
            match resolved {
                Some(name) => name@,
                None => anonymous(),
            },
        ),
        !(message@ is Register) ==> out@.author().is_some(),
{
    let name = match resolved {
        Some(name) => name,
        None => anonymous_name(),
    };
    message.with_author(name)
}

/// `chrono::Utc::now`, written out by `to_string`. Nothing is promised of
/// the text; the clock is taken to stand within the years `chrono` counts.
#[verifier::external_body]
pub(crate) fn utc_now_text() -> String {
    chrono::Utc::now().to_string()
}

/// What is to be asked of the user store before a message can go on.
#[derive(Debug, PartialEq, Eq)]
pub enum Lookup {
    /// Register the account, and give the id it has then.
    Register(String),
    /// Give the name of the user with this id.
    Resolve(i64),
}

/// What the user store answered.
#[derive(Debug, PartialEq, Eq)]
pub enum Answer {
    /// The id under which the account is registered, where it could be.
    Registered(Option<i64>),
    /// The name of the user, where there is one.
    Resolved(Option<String>),
}

/// What is to be done with a message once the user store has answered.
pub struct Outcome {
    /// The message as it is handed on.
    pub message: MessageType,
    /// The user that the connection speaks for from now on.
    pub user_id: i64,
    /// What the connection's writer is to be told, if anything.
    pub update: Option<InternalMessage>,
    /// What is to be kept of the message, if anything.
    pub keep: Option<StoredMessage>,
}

/// What became of a message on its way through the relay.
pub struct Processed {
    /// The message as it is handed on.
    pub message: MessageType,
    /// What the connection's writer is to be told, if anything.
    pub update: Option<InternalMessage>,
}

/// What is to be asked of the user store about a message from the
/// connection that speaks for `user_id`: to register the account of a
/// registration, and the name of the user for every other message.
pub fn plan(message: &MessageType, user_id: i64) -> (ask: Lookup)
    ensures
        match message@ {
            Message::Register(account) => ask matches Lookup::Register(a) && a@ == account,
            _ => ask == Lookup::Resolve(user_id),
        },
{
    match message {
        MessageType::Register(account) => Lookup::Register(account.clone()),
        _ => Lookup::Resolve(user_id),
    }
}

/// What is to be done with a message once the user store has answered.
///
/// A registration goes on as it came and is not kept; where the store gave
/// an id the connection speaks for that user from now on, and its writer is
/// told. Every other message goes on under the name that the store gave, or
/// the anonymous name where it gave none, and is kept for the user that
/// the connection speaks for. An answer to what was not asked counts as no
/// answer.
pub fn conclude(message: MessageType, user_id: i64, answer: Answer, time: &str) -> (out: Outcome)
    ensures
        match message@ {
            Message::Register(_) => {
                &&& out.message@ == message@
                &&& out.keep.is_none()
                &&& match answer {
                    Answer::Registered(Some(id)) => out.user_id == id && out.update == Some(
                        InternalMessage::UserIdUpdate(id),
                    ),
                    _ => out.user_id == user_id && out.update.is_none(),
                }
            },
            _ => {
                &&& out.message@ == message@.with_author(
                    match answer {
                        Answer::Resolved(Some(name)) => name@,
                        _ => anonymous(),
                    },
                )
                &&& out.message@.author().is_some()
                &&& out.user_id == user_id
                &&& out.update.is_none()
                &&& out.keep matches Some(kept)
                &&& kept_content(out.message@, time@) == Some(kept.content@)
                &&& kept.user_id == user_id
            },
        },
{
    match message {
        MessageType::Register(account) => {
            let message = MessageType::Register(account);
            match answer {
                Answer::Registered(Some(id)) => Outcome {
                    message,
                    user_id: id,
                    update: Some(InternalMessage::UserIdUpdate(id)),
                    keep: None,
                },
                _ => Outcome { message, user_id, update: None, keep: None },
            }
        },
        other => {
            let resolved = match answer {
                Answer::Resolved(name) => name,
                _ => None,
            };
            let updated = enrich(other, resolved);
            let keep = match content_to_keep(&updated, time) {
                Some(content) => Some(StoredMessage { content, user_id }),
                None => None,
            };
            Outcome { message: updated, user_id, update: None, keep }
        },
    }
}

/// Gets a message ready to be handed on, for the connection that speaks
/// for `user_id`, with the directory as the user store.
///
/// A registration makes the connection speak for the account from now on,
/// says so in the update, and goes on as it came; where the directory has
/// no room for the account the connection speaks on as before. Every
/// other message goes on under the name that `user_id` resolves to, and is
/// kept in the directory where `user_id` is a user's.
pub fn process_message(
    message: MessageType,
    user_id: &mut i64,
    users: &mut UserDirectory,
    time: &str,
) -> (out: Processed)
    requires
        old(users).wf(),
    ensures
        final(users).wf(),
        out.message@ == message@.with_author(
            resolved_name(old(users)@.names, *old(user_id) as int),
        ),
        !(message@ is Register) ==> out.message@.author().is_some(),
        match message@ {
            Message::Register(account) => {
                &&& final(users)@.stored == old(users)@.stored
                &&& match out.update {
                    Some(InternalMessage::UserIdUpdate(id)) => {
                        &&& *final(user_id) == id
                        &&& final(users)@.names == registered(old(users)@.names, account)
                        &&& id_of(final(users)@.names, account) == Some(id as int)
                    },
                    None => {
                        &&& *final(user_id) == *old(user_id)
                        &&& final(users)@ == old(users)@
                        &&& !old(users)@.names.contains(account)
                        &&& old(users)@.names.len() == i64::MAX
                    },
                }
            },
            _ => {
                &&& *final(user_id) == *old(user_id)
                &&& out.update.is_none()
                &&& final(users)@.names == old(users)@.names
                &&& final(users)@.stored == (if name_of(
                    old(users)@.names,
                    *old(user_id) as int,
                ).is_some() {
                    old(users)@.stored.push(
                        (kept_content(out.message@, time@).unwrap(), *old(user_id) as int),
                    )
                } else {
                    old(users)@.stored
                })
            },
        },
{
    let answer = match plan(&message, *user_id) {
        Lookup::Register(account) => Answer::Registered(
            match users.register(account.as_str()) {
                Ok(id) => Some(id),
                Err(_) => None,
            },
        ),
        Lookup::Resolve(id) => Answer::Resolved(users.username_by_id(id)),
    };
    let outcome = conclude(message, *user_id, answer, time);
    users.record(&outcome.message, *user_id, time);
    *user_id = outcome.user_id;
    Processed { message: outcome.message, update: outcome.update }
}

/// A message from a connection that has registered no name goes on under
/// the anonymous name: a new connection speaks for the anonymous user, the
/// first of every directory, and keeps doing so until it registers.
pub proof fn lemma_username_defaulting(names: Seq<Seq<char>>, message: Message)
    requires
        names.len() >= 1,
        names[0] == anonymous(),
    ensures
        resolved_name(names, 1) == anonymous(),
        message.with_author(resolved_name(names, 1)) == message.with_author(anonymous()),
        !(message is Register) ==> message.with_author(resolved_name(names, 1)).author() == Some(
            anonymous(),
        ),
{
}

/// One accepted peer: its address, the user it speaks for, and where it
/// stands in its life.
#[derive(Debug)]
pub struct Connection {
    pub addr: PeerAddr,
    pub user_id: i64,
    pub state: ConnectionState,
}

/// What became of a routed message.
pub struct Routed {
    /// The message as it was handed on.
    pub message: MessageType,
    /// The peers it was handed to.
    pub delivered: Vec<PeerAddr>,
    /// The peers that could not be written to, now out of the registry.
    pub dropped: Vec<PeerAddr>,
    /// What the sender's writer is to be told, if anything.
    pub update: Option<InternalMessage>,
}

/// The registry and the user directory of one server.
pub struct Relay {
    peers: PeerRegistry,
    users: UserDirectory,
}

/// The value of a relay.
pub struct RelayView {
    pub peers: Map<PeerAddr, Outbox>,
    pub users: Directory,
}

/// What routing a message comes to, from the relay and the connection
/// before to those after.
///
/// On a connection that is not active nothing happens. On an active one
/// the message goes on under the name that the connection's user resolves
/// to (a registration as it came), it waits for each recipient, and the
/// peers that could not be written to are out of the registry and
/// reported. A registration makes the connection speak for the account,
/// unless the directory has no room for it; every other message is kept
/// for the connection's user, where there is such a user.
pub open spec fn route_outcome(
    before: RelayView,
    conn_before: Connection,
    message: Message,
    time: Seq<char>,
    after: RelayView,
    conn_after: Connection,
    out: Option<Routed>,
) -> bool {
    &&& conn_after.addr == conn_before.addr
    &&& conn_after.state == conn_before.state
    &&& match out {
        None => {
            &&& conn_before.state != ConnectionState::Active
            &&& conn_after == conn_before
            &&& after == before
        },
        Some(routed) => {
            &&& conn_before.state == ConnectionState::Active
            &&& routed.message@ == message.with_author(
                resolved_name(before.users.names, conn_before.user_id as int),
            )
            &&& (!(message is Register) ==> routed.message@.author().is_some())
            &&& after.peers == routed_peers(before.peers, routed.message@, conn_before.addr)
            &&& routed.delivered@.no_duplicates()
            &&& routed.delivered@.to_set() == recipients(before.peers, conn_before.addr)
            &&& routed.dropped@.no_duplicates()
            &&& routed.dropped@.to_set() == out_of_reach(before.peers, conn_before.addr)
            &&& match message {
                Message::Register(account) => {
                    &&& after.users.stored == before.users.stored
                    &&& match routed.update {
                        Some(InternalMessage::UserIdUpdate(id)) => {
                            &&& conn_after.user_id == id
                            &&& after.users.names == registered(before.users.names, account)
                            &&& id_of(after.users.names, account) == Some(id as int)
                        },
                        None => {
                            &&& conn_after.user_id == conn_before.user_id
                            &&& after.users == before.users
                        },
                    }
                },
                _ => {
                    &&& conn_after.user_id == conn_before.user_id
                    &&& routed.update.is_none()
                    &&& after.users.names == before.users.names
                    &&& after.users.stored == (if name_of(
                        before.users.names,
                        conn_before.user_id as int,
                    ).is_some() {
                        before.users.stored.push(
                            (
                                kept_content(routed.message@, time).unwrap(),
                                conn_before.user_id as int,
                            ),
                        )
                    } else {
                        before.users.stored
                    })
                },
            }
        },
    }
}

impl ConnectionState {
    /// The state in which a connection rests: a draining one is closed as
    /// soon as its entry is out of the registry.
    pub open spec fn settled(self) -> ConnectionState {
        if self == ConnectionState::Draining {
            ConnectionState::Closed
        } else {
            self
        }
    }
}

impl View for Relay {
    type V = RelayView;

    closed spec fn view(&self) -> RelayView {
        RelayView { peers: self.peers@, users: self.users@ }
    }
}

impl Relay {
    /// Whether the relay is as it should be: its registry and its directory
    /// are.
    pub closed spec fn wf(&self) -> bool {
        self.peers.wf() && self.users.wf()
    }

    /// A well-formed relay knows the anonymous user, under the id 1.
    pub proof fn lemma_anonymous(&self)
        requires
            self.wf(),
        ensures
            self@.users.names.len() >= 1,
            self@.users.names[0] == anonymous(),
            self@.users.names.no_duplicates(),
            self@.peers.dom().finite(),
    {
        self.users.lemma_anonymous();
        self.peers.lemma_finite();
    }

    /// A relay without peers, which knows the anonymous user alone.
    pub fn new() -> (relay: Relay)
        ensures
            relay.wf(),
            relay@.peers == Map::<PeerAddr, Outbox>::empty(),
            relay@.users.names == seq![anonymous()],
            relay@.users.stored == Seq::<(Seq<char>, int)>::empty(),
    {
        Relay { peers: PeerRegistry::new(), users: UserDirectory::new() }
    }

    /// Takes a peer in: it is put into the registry with an empty outbox,
    /// and its connection is active and speaks for the anonymous user.
    pub fn accept(&mut self, addr: PeerAddr) -> (conn: Connection)
        requires
            old(self).wf(),
        ensures
            final(self).wf(),
            conn.addr == addr,
            conn.user_id == 1,
            conn.state == ConnectionState::Active,
            final(self)@.peers == old(self)@.peers.insert(addr, Outbox::fresh()),
            final(self)@.users == old(self)@.users,
    {
        let start = ConnectionState::Connecting;
        let user_id = self.users.anonymous_id();
        self.peers.add(addr);
        let (state, _) = start.step(ConnectionEvent::Registered);
        Connection { addr, user_id, state }
    }

    /// Routes a message that an active connection sent: the message is
    /// made ready as `process_message` says and handed to every other peer;
    /// each peer that could not be written to is taken out of the registry.
    /// A message on a connection that is not active is dropped.
    pub fn route(&mut self, conn: &mut Connection, message: MessageType, time: &str) -> (out:
        Option<Routed>)
        requires
            old(self).wf(),
        ensures
            final(self).wf(),
            route_outcome(
                old(self)@,
                *old(conn),
                message@,
                time@,
                final(self)@,
                *final(conn),
                out,
            ),
    {
        if conn.state != ConnectionState::Active {
            return None;
        }
        let processed = process_message(message, &mut conn.user_id, &mut self.users, time);
        let report = self.peers.deliver(&processed.message, &conn.addr);
        Some(
            Routed {
                message: processed.message,
                delivered: report.delivered,
                dropped: report.failed,
                update: processed.update,
            },
        )
    }

    /// Routes a message as `route` does, at the time that the clock gives.
    pub fn route_now(&mut self, conn: &mut Connection, message: MessageType) -> (out: Option<
        Routed,
    >)
        requires
            old(self).wf(),
        ensures
            final(self).wf(),
            exists|time: Seq<char>| #[trigger]
                route_outcome(
                    old(self)@,
                    *old(conn),
                    message@,
                    time,
                    final(self)@,
                    *final(conn),
                    out,
                ),
    {
        let time = utc_now_text();
        self.route(conn, message, time.as_str())
    }

    /// Lets an event happen to a connection. Where the event ends the
    /// connection, its entry is taken out of the registry at once and the
    /// connection is closed; what waits for other peers is not touched.
    pub fn on_event(&mut self, conn: &mut Connection, event: ConnectionEvent) -> (next: NextStep)
        requires
            old(self).wf(),
        ensures
            final(self).wf(),
            final(conn).addr == old(conn).addr,
            final(conn).user_id == old(conn).user_id,
            final(conn).state == old(conn).state.after(event).settled(),
            next == final(conn).state.duty(),
            final(self)@.users == old(self)@.users,
            final(self)@.peers == (if old(conn).state.after(event) == ConnectionState::Draining {
                old(self)@.peers.remove(old(conn).addr)
            } else {
                old(self)@.peers
            }),
    {
        let (state, duty) = conn.state.step(event);
        conn.state = state;
        match duty {
            NextStep::Remove => {
                self.peers.remove(&conn.addr);
                let (closed, stop) = state.step(ConnectionEvent::Removed);
                conn.state = closed;
                stop
            },
            _ => duty,
        }
    }

    /// Takes what waits for the peer at the address, oldest first.
    pub fn take_pending(&mut self, addr: &PeerAddr) -> (out: Vec<MessageType>)
        requires
            old(self).wf(),
        ensures
            final(self).wf(),
            final(self)@.users == old(self)@.users,
            old(self)@.peers.contains_key(*addr) ==> messages_view(out@) == old(
                self,
            )@.peers[*addr].pending && final(self)@.peers == old(self)@.peers.insert(
                *addr,
                old(self)@.peers[*addr].drained(),
            ),
            !old(self)@.peers.contains_key(*addr) ==> out@.len() == 0 && final(self)@ == old(
                self,
            )@,
    {
        self.peers.take_pending(addr)
    }

    /// Notes that the peer at the address can no longer be written to. It
    /// stays in the registry until a message finds it so.
    pub fn mark_broken(&mut self, addr: &PeerAddr) -> (found: bool)
        requires
            old(self).wf(),
        ensures
            final(self).wf(),
            final(self)@.users == old(self)@.users,
            found == old(self)@.peers.contains_key(*addr),
            found ==> final(self)@.peers == old(self)@.peers.insert(
                *addr,
                old(self)@.peers[*addr].broken(),
            ),
            !found ==> final(self)@ == old(self)@,
    {
        self.peers.mark_broken(addr)
    }

    /// The registry.
    pub fn peers(&self) -> (out: &PeerRegistry)
        requires
            self.wf(),
        ensures
            out.wf(),
            out@ == self@.peers,
    {
        &self.peers
    }

    /// The user directory.
    pub fn users(&self) -> (out: &UserDirectory)
        requires
            self.wf(),
        ensures
            out.wf(),
            out@ == self@.users,
    {
        &self.users
    }
}

/// The writer of one connection: the peer it writes to, and the user that
/// the connection speaks for.
#[derive(Clone, Copy, Debug, PartialEq, Eq, Structural)]
pub struct Writer {
    pub addr: PeerAddr,
    pub user_id: i64,
}

/// What happens to a writer.
#[derive(Clone, Copy, Debug, PartialEq, Eq, Structural)]
pub enum WriterEvent {
    /// A message from the peer at `from` was routed.
    Broadcast { from: PeerAddr },
    /// The last message was written.
    Sent,
    /// The last message could not be written.
    SendFailed,
    /// The connection's reader has news.
    Internal(InternalMessage),
    /// The signal to shut down was raised.
    Shutdown,
}

/// What a writer does next.
#[derive(Clone, Copy, Debug, PartialEq, Eq, Structural)]
pub enum WriterStep {
    /// Write the message to the peer.
    Send,
    /// Pass the message over: it came from this peer.
    Skip,
    /// Wait for what comes next.
    Wait,
    /// Nothing more: end the task.
    Stop,
}

impl Writer {
    /// What a writer does about an event: a routed message is written
    /// unless this peer sent it, a failed write and the signal to shut down
    /// end the writer, and everything else lets it wait.
    pub open spec fn answer(self, event: WriterEvent) -> WriterStep {
        match event {
            WriterEvent::Broadcast { from } => if from == self.addr {
                WriterStep::Skip
            } else {
                WriterStep::Send
            },
            WriterEvent::SendFailed => WriterStep::Stop,
            WriterEvent::Shutdown => WriterStep::Stop,
            _ => WriterStep::Wait,
        }
    }

    /// The user that the writer's connection speaks for after an event:
    /// the one that the reader's news names, and else the one before.
    pub open spec fn user_after(self, event: WriterEvent) -> i64 {
        match event {
            WriterEvent::Internal(InternalMessage::UserIdUpdate(id)) => id,
            _ => self.user_id,
        }
    }

    /// The writer of a connection that was just accepted: it speaks for
    /// the anonymous user.
    pub fn new(addr: PeerAddr) -> (writer: Writer)
        ensures
            writer.addr == addr,
            writer.user_id == 1,
    {
        Writer { addr, user_id: 1 }
    }

    /// Lets an event happen to the writer, and says what it does next.
    pub fn step(&mut self, event: WriterEvent) -> (next: WriterStep)
        ensures
            next == old(self).answer(event),
            final(self).addr == old(self).addr,
            final(self).user_id == old(self).user_after(event),
    {
        match event {
            WriterEvent::Broadcast { from } => {
                if from == self.addr {
                    WriterStep::Skip
                } else {
                    WriterStep::Send
                }
            },
            WriterEvent::Sent => WriterStep::Wait,
            WriterEvent::SendFailed => WriterStep::Stop,
            WriterEvent::Shutdown => WriterStep::Stop,
            WriterEvent::Internal(news) => {
                match news {
                    InternalMessage::UserIdUpdate(id) => {
                        self.user_id = id;
                    },
                }
                WriterStep::Wait
            },
        }
    }
}

/// A peer that goes takes nothing from the others: every other peer keeps
/// its outbox, and a message from any third peer still reaches it.
pub proof fn lemma_disconnect_isolated(
    peers: Map<PeerAddr, Outbox>,
    gone: PeerAddr,
    other: PeerAddr,
    message: Message,
    sender: PeerAddr,
)
    requires
        other != gone,
        peers.contains_key(other),
    ensures
        peers.remove(gone).contains_key(other),
        peers.remove(gone)[other] == peers[other],
        sender != other && peers[other].open ==> recipients(peers.remove(gone), sender).contains(
            other,
        ) && fan_out(peers.remove(gone), message, sender)[other] == peers[other].with(message),
{
}

} // verus!
