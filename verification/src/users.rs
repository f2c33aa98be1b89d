//! User resolution: the names that connections speak under, and the record
//! of what was said.

use crate::error::{AppError, AppErrorView};
use crate::message::{anonymous, anonymous_name, Message, MessageType, User};
use vstd::prelude::*;
use vstd::string::*;

verus! {

/// The id that a name has among the given names: its place, counted from
/// one.
pub open spec fn id_of(names: Seq<Seq<char>>, name: Seq<char>) -> Option<int> {
    if names.contains(name) {
        Some(names.index_of(name) + 1)
    } else {
        None
    }
}

/// The name that an id stands for among the given names.
pub open spec fn name_of(names: Seq<Seq<char>>, id: int) -> Option<Seq<char>> {
    if 1 <= id <= names.len() {
        Some(names[id - 1])
    } else {
        None
    }
}

/// The names once the given one is registered: as they were where it was
/// among them, and with it as the last where it was not.
pub open spec fn registered(names: Seq<Seq<char>>, name: Seq<char>) -> Seq<Seq<char>> {
    if names.contains(name) {
        names
    } else {
        names.push(name)
    }
}

/// What is kept of a message: a text's words, a file's name, and for an
/// image the time at which it came. A registration is not kept.
pub open spec fn kept_content(message: Message, time: Seq<char>) -> Option<Seq<char>> {
    match message {
        Message::Text(_, text) => Some(text),
        Message::File(_, name, _) => Some(name),
        Message::Image(_, _) => Some(time),
        Message::Register(_) => None,
    }
}

/// What is kept of a message that came at the given time.
pub fn content_to_keep(message: &MessageType, time: &str) -> (content: Option<String>)
    ensures
        match content {
            Some(text) => kept_content(message@, time@) == Some(text@),
            None => kept_content(message@, time@).is_none(),
        },
{
    match message {
        MessageType::Text(_, text) => Some(text.clone()),
        MessageType::File(_, name, _) => Some(name.clone()),
        MessageType::Image(_, _) => Some(String::from_str(time)),
        MessageType::Register(_) => None,
    }
}

/// The reason given when no further user can be registered.
pub open spec fn directory_full() -> Seq<char> {
    "no room for another user"@
}

/// One kept message: what is kept of it, and the id of the user it is
/// kept for.
#[derive(Debug)]
pub struct StoredMessage {
    pub content: String,
    pub user_id: i64,
}

/// The value of a directory: the names, the one at each place having that
/// place, counted from one, as its id; and the kept messages, oldest first.
pub struct Directory {
    pub names: Seq<Seq<char>>,
    pub stored: Seq<(Seq<char>, int)>,
}

/// The users and the messages kept for them. The first user is the
/// anonymous one; no name occurs twice.
pub struct UserDirectory {
    users: Vec<User>,
    stored: Vec<StoredMessage>,
}

impl View for UserDirectory {
    type V = Directory;

    closed spec fn view(&self) -> Directory {
        Directory {
            names: Seq::new(self.users@.len(), |i: int| self.users@[i].name@),
            stored: Seq::new(
                self.stored@.len(),
                |i: int| (self.stored@[i].content@, self.stored@[i].user_id as int),
            ),
        }
    }
}

impl UserDirectory {
    /// Whether the directory is as it should be: the anonymous user comes
    /// first, ids count up from one, no name occurs twice, and every id fits
    /// its type.
    pub closed spec fn wf(&self) -> bool {
        &&& self.users@.len() >= 1
        &&& self.users@.len() <= i64::MAX
        &&& self@.names[0] == anonymous()
        &&& self@.names.no_duplicates()
        &&& forall|i: int| 0 <= i < self.users@.len() ==> (#[trigger] self.users@[i]).id == i + 1
    }

    /// A well-formed directory has the anonymous user, under the id 1.
    pub proof fn lemma_anonymous(&self)
        requires
            self.wf(),
        ensures
            self@.names.len() >= 1,
            self@.names.no_duplicates(),
            name_of(self@.names, 1) == Some(anonymous()),
            id_of(self@.names, anonymous()) == Some(1int),
    {
        assert(self@.names[0] == anonymous());
        let i = self@.names.index_of(anonymous());
        assert(self@.names[i] == self@.names[0]);
    }

    /// A directory with the anonymous user alone, and nothing kept.
    pub fn new() -> (directory: UserDirectory)
        ensures
            directory.wf(),
            directory@.names == seq![anonymous()],
            directory@.stored == Seq::<(Seq<char>, int)>::empty(),
    {
        let mut users: Vec<User> = Vec::new();
        users.push(User { id: 1, name: anonymous_name() });
        let directory = UserDirectory { users, stored: Vec::new() };
        assert(directory@.names =~= seq![anonymous()]);
        assert(directory@.stored =~= Seq::<(Seq<char>, int)>::empty());
        directory
    }

    /// The id of the anonymous user.
    pub fn anonymous_id(&self) -> (id: i64)
        requires
            self.wf(),
        ensures
            id == 1,
            name_of(self@.names, id as int) == Some(anonymous()),
    {
        proof {
            self.lemma_anonymous();
        }
        1
    }

    /// The place of a name among the users.
    fn find(&self, name: &str) -> (at: Option<usize>)
        ensures
            match at {
                Some(i) => i < self.users@.len() && self@.names[i as int] == name@,
                None => !self@.names.contains(name@),
            },
    {
        let wanted = String::from_str(name);
        let mut i: usize = 0;
        while i < self.users.len()
            invariant
                i <= self.users@.len(),
                wanted@ == name@,
                forall|k: int| 0 <= k < i ==> self@.names[k] != name@,
            decreases self.users.len() - i,
        {
            if self.users[i].name == wanted {
                return Some(i);
            }
            i += 1;
        }
        None
    }

    /// The id of the user with the given name, if there is one.
    pub fn user_id_by_name(&self, account: &str) -> (id: Option<i64>)
        requires
            self.wf(),
        ensures
            match id {
                Some(n) => id_of(self@.names, account@) == Some(n as int),
                None => id_of(self@.names, account@).is_none(),
            },
    {
        match self.find(account) {
            Some(i) => {
                proof {
                    let j = self@.names.index_of(account@);
                    assert(self@.names[j] == self@.names[i as int]);
                }
                Some(self.users[i].id)
            },
            None => None,
        }
    }

    /// The name of the user with the given id, if there is one.
    pub fn username_by_id(&self, user_id: i64) -> (name: Option<String>)
        requires
            self.wf(),
        ensures
            match name {
                Some(n) => name_of(self@.names, user_id as int) == Some(n@),
                None => name_of(self@.names, user_id as int).is_none(),
            },
    {
        if user_id >= 1 && (user_id as u64) <= (self.users.len() as u64) {
            Some(self.users[(user_id - 1) as usize].name.clone())
        } else {
            None
        }
    }

    /// The id under which the account name is registered: the one it has,
    /// or, where it has none, that of a new user made for it. Only a
    /// directory that has no id left for a new user refuses.
    pub fn register(&mut self, account: &str) -> (out: Result<i64, AppError>)
        requires
            old(self).wf(),
        ensures
            final(self).wf(),
            final(self)@.stored == old(self)@.stored,
            match out {
                Ok(id) => final(self)@.names == registered(old(self)@.names, account@) && id_of(
                    final(self)@.names,
                    account@,
                ) == Some(id as int),
                Err(error) => *final(self) == *old(self) && !old(self)@.names.contains(account@)
                    && old(self)@.names.len() == i64::MAX && error@ == AppErrorView::Unknown(
                    directory_full(),
                ),
            },
    {
        let ghost before = *self;
        match self.user_id_by_name(account) {
            Some(id) => Ok(id),
            None => {
                if self.users.len() as u64 >= i64::MAX as u64 {
                    return Err(AppError::Unknown(String::from_str("no room for another user")));
                }
                let id = (self.users.len() as u64 + 1) as i64;
                self.users.push(User { id, name: String::from_str(account) });
                proof {
                    assert(self@.names =~= before@.names.push(account@));
                    assert(self@.stored =~= before@.stored);
                    let j = self@.names.index_of(account@);
                    assert(self@.names[id - 1] == account@);
                    assert(self@.names[j] == account@);
                    if j < id - 1 {
                        assert(before@.names[j] == account@);
                    }
                }
                Ok(id)
            },
        }
    }

    /// Keeps a message for a user, and says whether it was kept. A
    /// registration is not kept, nor a message for a user that there is not.
    pub fn record(&mut self, message: &MessageType, user_id: i64, time: &str) -> (kept: bool)
        requires
            old(self).wf(),
        ensures
            final(self).wf(),
            final(self)@.names == old(self)@.names,
            kept == (kept_content(message@, time@).is_some() && name_of(
                old(self)@.names,
                user_id as int,
            ).is_some()),
            kept ==> final(self)@.stored == old(self)@.stored.push(
                (kept_content(message@, time@).unwrap(), user_id as int),
            ),
            !kept ==> final(self)@.stored == old(self)@.stored,
    {
        let ghost before = *self;
        if user_id < 1 || (user_id as u64) > (self.users.len() as u64) {
            return false;
        }
        let content = match content_to_keep(message, time) {
            Some(content) => content,
            None => {
                return false;
            },
        };
        self.stored.push(StoredMessage { content, user_id });
        proof {
            assert(self@.names =~= before@.names);
            assert(self@.stored =~= before@.stored.push(
                (kept_content(message@, time@).unwrap(), user_id as int),
            ));
        }
        true
    }

    /// The kept messages, oldest first.
    pub fn stored(&self) -> (out: &Vec<StoredMessage>)
        ensures
            out@.len() == self@.stored.len(),
            forall|i: int|
                0 <= i < out@.len() ==> (#[trigger] out@[i]).content@ == self@.stored[i].0
                    && out@[i].user_id == self@.stored[i].1,
    {
        &self.stored
    }
}

/// A registered name resolves: the id that a name is registered under
/// stands for that name, and goes on standing for it whatever is
/// registered later.
pub proof fn lemma_registered_name_resolves(
    names: Seq<Seq<char>>,
    name: Seq<char>,
    later: Seq<char>,
)
    requires
        names.no_duplicates(),
    ensures
        id_of(registered(names, name), name) matches Some(id) && name_of(
            registered(names, name),
            id,
        ) == Some(name) && name_of(registered(registered(names, name), later), id) == Some(name),
{
    let after = registered(names, name);
    if !names.contains(name) {
        assert(after[names.len() as int] == name);
    }
    let at = after.index_of(name);
    assert(after[at] == name);
}

/// Registering a name that is registered changes nothing and gives the id
/// it has: a second registration is the first one over again.
pub proof fn lemma_register_idempotent(names: Seq<Seq<char>>, name: Seq<char>)
    requires
        names.no_duplicates(),
    ensures
        registered(names, name).no_duplicates(),
        registered(names, name).contains(name),
        registered(registered(names, name), name) == registered(names, name),
        names.contains(name) ==> id_of(registered(names, name), name) == id_of(names, name),
        forall|other: Seq<char>|
            names.contains(other) ==> id_of(registered(names, name), other) == id_of(names, other),
{
    let after = registered(names, name);
    if !names.contains(name) {
        assert(after[names.len() as int] == name);
        assert forall|i: int, j: int| 0 <= i < after.len() && 0 <= j < after.len() && i != j
            implies after[i] != after[j] by {
            if i < names.len() && j < names.len() {
            } else if i < names.len() {
                assert(names[i] != name);
            } else {
                assert(names[j] != name);
            }
        }
    }
    assert forall|other: Seq<char>| names.contains(other) implies id_of(after, other) == id_of(
        names,
        other,
    ) by {
        let i = names.index_of(other);
        assert(after[i] == other);
        let j = after.index_of(other);
        assert(after[j] == after[i]);
    }
}

} // verus!
