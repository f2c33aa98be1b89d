//! The peer registry: who is connected, and what waits to be written to
//! each of them.

use crate::message::{Message, MessageType};
use vstd::prelude::*;

verus! {

/// The address of a connected peer, by which the registry knows it.
#[derive(Clone, Copy, Debug, PartialEq, Eq, Hash, Structural)]
#[allow(inconsistent_fields)]
pub enum PeerAddr {
    /// An IPv4 address, as its 32 bits, and a port.
    V4 { ip: u32, port: u16 },
    /// An IPv6 address, as its 128 bits, with port, flow and scope.
    V6 { ip: u128, port: u16, flowinfo: u32, scope_id: u32 },
}

/// What the registry holds for one peer: the messages that wait to be
/// written to it, oldest first, and whether it can still be written to.
pub struct Outbox {
    pub pending: Seq<Message>,
    pub open: bool,
}

impl Outbox {
    /// The outbox of a peer that has just connected.
    pub open spec fn fresh() -> Outbox {
        Outbox { pending: Seq::empty(), open: true }
    }

    /// The outbox once what waited has been taken.
    pub open spec fn drained(self) -> Outbox {
        Outbox { pending: Seq::empty(), open: self.open }
    }

    /// The outbox once its peer can no longer be written to.
    pub open spec fn broken(self) -> Outbox {
        Outbox { pending: self.pending, open: false }
    }

    /// The outbox with one more message behind those that wait.
    pub open spec fn with(self, message: Message) -> Outbox {
        Outbox { pending: self.pending.push(message), open: self.open }
    }
}

/// The values of the messages in a queue.
pub open spec fn messages_view(queue: Seq<MessageType>) -> Seq<Message> {
    Seq::new(queue.len(), |i: int| queue[i]@)
}

/// Those that a message from the given peer goes to: every other peer
/// that can still be written to.
pub open spec fn recipients(peers: Map<PeerAddr, Outbox>, except: PeerAddr) -> Set<PeerAddr> {
    Set::new(|a: PeerAddr| peers.contains_key(a) && a != except && peers[a].open)
}

/// Those that a message from the given peer cannot reach: every other peer
/// that can no longer be written to.
pub open spec fn out_of_reach(peers: Map<PeerAddr, Outbox>, except: PeerAddr) -> Set<PeerAddr> {
    Set::new(|a: PeerAddr| peers.contains_key(a) && a != except && !peers[a].open)
}

/// The registry after a message from the given peer has gone out: it waits
/// in the outbox of each recipient, behind what waited there; every other
/// outbox is as it was.
pub open spec fn fan_out(peers: Map<PeerAddr, Outbox>, message: Message, except: PeerAddr) -> Map<
    PeerAddr,
    Outbox,
> {
    Map::new(
        |a: PeerAddr| peers.contains_key(a),
        |a: PeerAddr|
            if a != except && peers[a].open {
                peers[a].with(message)
            } else {
                peers[a]
            },
    )
}

/// The registry after a message from `from` was routed: the message waits
/// for each recipient, and the peers that could not be written to are out
/// of the registry.
pub open spec fn routed_peers(peers: Map<PeerAddr, Outbox>, sent: Message, from: PeerAddr) -> Map<
    PeerAddr,
    Outbox,
> {
    fan_out(peers, sent, from).remove_keys(out_of_reach(peers, from))
}

/// What became of a broadcast: the peers it was handed to, and those it
/// could not be handed to.
pub struct BroadcastReport {
    pub delivered: Vec<PeerAddr>,
    pub failed: Vec<PeerAddr>,
}

struct Peer {
    addr: PeerAddr,
    pending: Vec<MessageType>,
    open: bool,
}

impl Peer {
    spec fn outbox(self) -> Outbox {
        Outbox { pending: messages_view(self.pending@), open: self.open }
    }
}

/// The connected peers, each with its outbox. No address occurs twice.
pub struct PeerRegistry {
    peers: Vec<Peer>,
}

impl PeerRegistry {
    spec fn keys(self) -> Seq<PeerAddr> {
        Seq::new(self.peers@.len(), |i: int| self.peers@[i].addr)
    }

    /// Whether the registry is as it should be: no address occurs twice.
    pub closed spec fn wf(self) -> bool {
        self.keys().no_duplicates()
    }

    /// The registry as a map from each peer's address to its outbox.
    pub closed spec fn view(self) -> Map<PeerAddr, Outbox> {
        Map::new(
            |a: PeerAddr| self.keys().contains(a),
            |a: PeerAddr| self.peers@[self.keys().index_of(a)].outbox(),
        )
    }

    /// What the map holds at the address of the peer at a position.
    proof fn lemma_entry(self, i: int)
        requires
            self.wf(),
            0 <= i < self.peers@.len(),
        ensures
            self.view().contains_key(self.peers@[i].addr),
            self.view()[self.peers@[i].addr] == self.peers@[i].outbox(),
    {
        let a = self.peers@[i].addr;
        assert(self.keys()[i] == a);
        let j = self.keys().index_of(a);
        assert(0 <= j < self.keys().len() && self.keys()[j] == a);
    }

    /// The map's addresses are those of the peers, and as many.
    proof fn lemma_domain(self)
        requires
            self.wf(),
        ensures
            self.view().dom() == self.keys().to_set(),
            self.view().dom().finite(),
            self.view().dom().len() == self.peers@.len(),
    {
        assert(self.view().dom() =~= self.keys().to_set());
        vstd::seq_lib::seq_to_set_is_finite(self.keys());
        self.keys().unique_seq_to_set();
    }

    /// The registry's map is the given one, where that holds each peer's
    /// outbox at its address and nothing else.
    proof fn lemma_view_is(self, map: Map<PeerAddr, Outbox>)
        requires
            self.wf(),
            forall|i: int|
                0 <= i < self.peers@.len() ==> map.contains_key(#[trigger] self.peers@[i].addr)
                    && map[self.peers@[i].addr] == self.peers@[i].outbox(),
            forall|a: PeerAddr| map.contains_key(a) ==> self.keys().contains(a),
        ensures
            self.view() == map,
    {
        assert forall|a: PeerAddr| self.view().contains_key(a) implies map.contains_key(a) by {
            let i = self.keys().index_of(a);
            assert(self.peers@[i].addr == a);
        }
        assert forall|a: PeerAddr| self.view().contains_key(a) implies self.view()[a]
            == map[a] by {
            let i = self.keys().index_of(a);
            assert(self.peers@[i].addr == a);
        }
        assert(self.view() =~= map);
    }

    /// The recipients among the first peers.
    spec fn reached(self, upto: int, except: PeerAddr) -> Set<PeerAddr> {
        Set::new(
            |a: PeerAddr|
                exists|k: int|
                    0 <= k < upto && #[trigger] self.peers@[k].addr == a && a != except
                        && self.peers@[k].open,
        )
    }

    /// The unreachable among the first peers.
    spec fn missed(self, upto: int, except: PeerAddr) -> Set<PeerAddr> {
        Set::new(
            |a: PeerAddr|
                exists|k: int|
                    0 <= k < upto && #[trigger] self.peers@[k].addr == a && a != except
                        && !self.peers@[k].open,
        )
    }

    /// Among all peers, the recipients and the unreachable are those of the
    /// registry's map.
    proof fn lemma_reached_all(self, except: PeerAddr)
        requires
            self.wf(),
        ensures
            self.reached(self.peers@.len() as int, except) == recipients(self.view(), except),
            self.missed(self.peers@.len() as int, except) == out_of_reach(self.view(), except),
    {
        let n = self.peers@.len() as int;
        assert forall|a: PeerAddr| self.reached(n, except).contains(a) implies recipients(
            self.view(),
            except,
        ).contains(a) by {
            let k = choose|k: int|
                0 <= k < n && #[trigger] self.peers@[k].addr == a && a != except
                    && self.peers@[k].open;
            self.lemma_entry(k);
        }
        assert forall|a: PeerAddr| recipients(self.view(), except).contains(a) implies self.reached(
            n,
            except,
        ).contains(a) by {
            let k = self.keys().index_of(a);
            assert(self.peers@[k].addr == a);
            self.lemma_entry(k);
        }
        assert(self.reached(n, except) =~= recipients(self.view(), except));
        assert forall|a: PeerAddr| self.missed(n, except).contains(a) implies out_of_reach(
            self.view(),
            except,
        ).contains(a) by {
            let k = choose|k: int|
                0 <= k < n && #[trigger] self.peers@[k].addr == a && a != except
                    && !self.peers@[k].open;
            self.lemma_entry(k);
        }
        assert forall|a: PeerAddr| out_of_reach(self.view(), except).contains(a) implies self.missed(
            n,
            except,
        ).contains(a) by {
            let k = self.keys().index_of(a);
            assert(self.peers@[k].addr == a);
            self.lemma_entry(k);
        }
        assert(self.missed(n, except) =~= out_of_reach(self.view(), except));
    }

    /// A well-formed registry has finitely many peers.
    pub proof fn lemma_finite(self)
        requires
            self.wf(),
        ensures
            self.view().dom().finite(),
    {
        self.lemma_domain();
    }

    /// A registry without peers.
    pub fn new() -> (registry: PeerRegistry)
        ensures
            registry.wf(),
            registry@ == Map::<PeerAddr, Outbox>::empty(),
    {
        let registry = PeerRegistry { peers: Vec::new() };
        assert(registry@ =~= Map::<PeerAddr, Outbox>::empty());
        registry
    }

    /// The number of peers.
    pub fn len(&self) -> (n: usize)
        requires
            self.wf(),
        ensures
            self@.dom().finite(),
            n == self@.dom().len(),
    {
        proof {
            self.lemma_domain();
        }
        self.peers.len()
    }

    /// The position of the peer at an address.
    fn find(&self, addr: &PeerAddr) -> (at: Option<usize>)
        ensures
            match at {
                Some(i) => i < self.peers@.len() && self.peers@[i as int].addr == *addr,
                None => !self.keys().contains(*addr),
            },
    {
        let mut i: usize = 0;
        while i < self.peers.len()
            invariant
                i <= self.peers@.len(),
                forall|k: int| 0 <= k < i ==> self.peers@[k].addr != *addr,
            decreases self.peers.len() - i,
        {
            if self.peers[i].addr == *addr {
                return Some(i);
            }
            i += 1;
        }
        None
    }

    /// Whether a peer is registered at the address.
    pub fn contains(&self, addr: &PeerAddr) -> (found: bool)
        requires
            self.wf(),
        ensures
            found == self@.contains_key(*addr),
    {
        match self.find(addr) {
            Some(i) => {
                proof {
                    self.lemma_entry(i as int);
                }
                true
            },
            None => false,
        }
    }
}

impl PeerRegistry {
    /// Registers a peer with an empty outbox. A peer already registered at
    /// the address is replaced.
    pub fn add(&mut self, addr: PeerAddr)
        requires
            old(self).wf(),
        ensures
            final(self).wf(),
            final(self)@ == old(self)@.insert(addr, Outbox::fresh()),
    {
        let ghost before = *self;
        let ghost target = before@.insert(addr, Outbox::fresh());
        let peer = Peer { addr, pending: Vec::new(), open: true };
        assert(peer.outbox() == Outbox::fresh()) by {
            assert(peer.outbox().pending =~= Seq::<Message>::empty());
        }
        match self.find(&addr) {
            Some(i) => {
                self.peers.set(i, peer);
                proof {
                    assert(self.keys() =~= before.keys());
                    assert forall|k: int| 0 <= k < self.peers@.len() implies target.contains_key(
                        #[trigger] self.peers@[k].addr,
                    ) && target[self.peers@[k].addr] == self.peers@[k].outbox() by {
                        if k != i {
                            assert(self.peers@[k] == before.peers@[k]);
                            assert(before.keys()[k] != before.keys()[i as int]);
                            before.lemma_entry(k);
                        }
                    }
                    assert forall|a: PeerAddr| target.contains_key(a) implies self.keys().contains(
                        a,
                    ) by {
                        if a != addr {
                            let j = before.keys().index_of(a);
                            assert(self.keys()[j] == a);
                        } else {
                            assert(self.keys()[i as int] == a);
                        }
                    }
                    self.lemma_view_is(target);
                }
            },
            None => {
                self.peers.push(peer);
                proof {
                    let n = before.peers@.len() as int;
                    assert(self.keys() =~= before.keys().push(addr));
                    assert forall|k: int| 0 <= k < self.peers@.len() implies target.contains_key(
                        #[trigger] self.peers@[k].addr,
                    ) && target[self.peers@[k].addr] == self.peers@[k].outbox() by {
                        if k < n {
                            assert(self.peers@[k] == before.peers@[k]);
                            assert(before.keys()[k] == before.peers@[k].addr);
                            before.lemma_entry(k);
                        }
                    }
                    assert forall|a: PeerAddr| target.contains_key(a) implies self.keys().contains(
                        a,
                    ) by {
                        if a != addr {
                            let j = before.keys().index_of(a);
                            assert(self.keys()[j] == a);
                        } else {
                            assert(self.keys()[n] == a);
                        }
                    }
                    self.lemma_view_is(target);
                }
            },
        }
    }

    /// Takes the peer at the address out of the registry, and says
    /// whether there was one. Where there was none nothing changes.
    pub fn remove(&mut self, addr: &PeerAddr) -> (removed: bool)
        requires
            old(self).wf(),
        ensures
            final(self).wf(),
            removed == old(self)@.contains_key(*addr),
            final(self)@ == old(self)@.remove(*addr),
            !removed ==> final(self)@ == old(self)@,
    {
        let ghost before = *self;
        match self.find(addr) {
            Some(i) => {
                self.peers.remove(i);
                proof {
                    before.lemma_entry(i as int);
                    assert(self.keys() =~= before.keys().remove(i as int));
                    let target = before@.remove(*addr);
                    assert forall|k: int| 0 <= k < self.peers@.len() implies target.contains_key(
                        #[trigger] self.peers@[k].addr,
                    ) && target[self.peers@[k].addr] == self.peers@[k].outbox() by {
                        let from = if k < i { k } else { k + 1 };
                        assert(self.peers@[k] == before.peers@[from]);
                        assert(before.keys()[from] != before.keys()[i as int]);
                        before.lemma_entry(from);
                    }
                    assert forall|a: PeerAddr| target.contains_key(a) implies self.keys().contains(
                        a,
                    ) by {
                        let j = before.keys().index_of(a);
                        if j < i {
                            assert(self.keys()[j] == a);
                        } else {
                            assert(self.keys()[j - 1] == a);
                        }
                    }
                    self.lemma_view_is(target);
                }
                true
            },
            None => {
                assert(before@.remove(*addr) =~= before@);
                false
            },
        }
    }
}

impl PeerRegistry {
    /// The addresses of the peers, each once.
    pub fn addresses(&self) -> (out: Vec<PeerAddr>)
        requires
            self.wf(),
        ensures
            out@.no_duplicates(),
            out@.to_set() == self@.dom(),
    {
        let mut out: Vec<PeerAddr> = Vec::new();
        let mut i: usize = 0;
        while i < self.peers.len()
            invariant
                i <= self.peers@.len(),
                out@ == self.keys().take(i as int),
            decreases self.peers.len() - i,
        {
            out.push(self.peers[i].addr);
            i += 1;
            assert(out@ =~= self.keys().take(i as int));
        }
        proof {
            assert(out@ =~= self.keys());
            self.lemma_domain();
        }
        out
    }

    /// Takes what waits for the peer at the address, oldest first, and
    /// leaves its outbox empty. Nothing waits for a peer that is not
    /// registered.
    pub fn take_pending(&mut self, addr: &PeerAddr) -> (out: Vec<MessageType>)
        requires
            old(self).wf(),
        ensures
            final(self).wf(),
            old(self)@.contains_key(*addr) ==> messages_view(out@) == old(self)@[*addr].pending
                && final(self)@ == old(self)@.insert(*addr, old(self)@[*addr].drained()),
            !old(self)@.contains_key(*addr) ==> out@.len() == 0 && final(self)@ == old(self)@,
    {
        let ghost before = *self;
        let mut out: Vec<MessageType> = Vec::new();
        match self.find(addr) {
            Some(i) => {
                core::mem::swap(&mut self.peers[i].pending, &mut out);
                proof {
                    before.lemma_entry(i as int);
                    assert(self.keys() =~= before.keys());
                    let target = before@.insert(*addr, before@[*addr].drained());
                    assert(self.peers@[i as int].outbox().pending =~= Seq::<Message>::empty());
                    assert forall|k: int| 0 <= k < self.peers@.len() implies target.contains_key(
                        #[trigger] self.peers@[k].addr,
                    ) && target[self.peers@[k].addr] == self.peers@[k].outbox() by {
                        if k != i {
                            assert(self.peers@[k] == before.peers@[k]);
                            assert(before.keys()[k] != before.keys()[i as int]);
                            before.lemma_entry(k);
                        }
                    }
                    assert forall|a: PeerAddr| target.contains_key(a) implies self.keys().contains(
                        a,
                    ) by {
                        if a != *addr {
                            let j = before.keys().index_of(a);
                            assert(self.keys()[j] == a);
                        } else {
                            assert(self.keys()[i as int] == a);
                        }
                    }
                    self.lemma_view_is(target);
                }
            },
            None => {},
        }
        out
    }

    /// Notes that the peer at the address can no longer be written to, and
    /// says whether there was such a peer. What waits for it stays.
    pub fn mark_broken(&mut self, addr: &PeerAddr) -> (found: bool)
        requires
            old(self).wf(),
        ensures
            final(self).wf(),
            found == old(self)@.contains_key(*addr),
            found ==> final(self)@ == old(self)@.insert(*addr, old(self)@[*addr].broken()),
            !found ==> final(self)@ == old(self)@,
    {
        let ghost before = *self;
        match self.find(addr) {
            Some(i) => {
                self.peers[i].open = false;
                proof {
                    before.lemma_entry(i as int);
                    assert(self.keys() =~= before.keys());
                    let target = before@.insert(*addr, before@[*addr].broken());
                    assert forall|k: int| 0 <= k < self.peers@.len() implies target.contains_key(
                        #[trigger] self.peers@[k].addr,
                    ) && target[self.peers@[k].addr] == self.peers@[k].outbox() by {
                        if k != i {
                            assert(self.peers@[k] == before.peers@[k]);
                            assert(before.keys()[k] != before.keys()[i as int]);
                            before.lemma_entry(k);
                        }
                    }
                    assert forall|a: PeerAddr| target.contains_key(a) implies self.keys().contains(
                        a,
                    ) by {
                        if a != *addr {
                            let j = before.keys().index_of(a);
                            assert(self.keys()[j] == a);
                        } else {
                            assert(self.keys()[i as int] == a);
                        }
                    }
                    self.lemma_view_is(target);
                }
                true
            },
            None => false,
        }
    }

    /// Hands a message from the peer at `except` to every other peer: it is
    /// put behind what waits in the outbox of each that can be written to.
    /// A peer that cannot be written to is passed over and reported; it
    /// keeps the message from no one else.
    pub fn broadcast(&mut self, message: &MessageType, except: &PeerAddr) -> (report:
        BroadcastReport)
        requires
            old(self).wf(),
        ensures
            final(self).wf(),
            final(self)@ == fan_out(old(self)@, message@, *except),
            report.delivered@.no_duplicates(),
            report.delivered@.to_set() == recipients(old(self)@, *except),
            report.failed@.no_duplicates(),
            report.failed@.to_set() == out_of_reach(old(self)@, *except),
    {
        let ghost before = *self;
        let mut delivered: Vec<PeerAddr> = Vec::new();
        let mut failed: Vec<PeerAddr> = Vec::new();
        let mut i: usize = 0;
        while i < self.peers.len()
            invariant
                before.wf(),
                i <= self.peers@.len(),
                self.peers@.len() == before.peers@.len(),
                forall|k: int|
                    0 <= k < self.peers@.len() ==> (#[trigger] self.peers@[k]).addr
                        == before.peers@[k].addr && self.peers@[k].open == before.peers@[k].open,
                forall|k: int|
                    0 <= k < i ==> (#[trigger] self.peers@[k]).outbox() == (if before.peers@[k].addr
                        != *except && before.peers@[k].open {
                        before.peers@[k].outbox().with(message@)
                    } else {
                        before.peers@[k].outbox()
                    }),
                forall|k: int|
                    i <= k < self.peers@.len() ==> (#[trigger] self.peers@[k]).outbox()
                        == before.peers@[k].outbox(),
                delivered@.no_duplicates(),
                delivered@.to_set() =~= before.reached(i as int, *except),
                failed@.no_duplicates(),
                failed@.to_set() =~= before.missed(i as int, *except),
            decreases self.peers.len() - i,
        {
            let addr = self.peers[i].addr;
            let ghost old_peers = self.peers@;
            let ghost old_delivered = delivered@;
            let ghost old_failed = failed@;
            if addr != *except {
                if self.peers[i].open {
                    let copy = message.clone();
                    self.peers[i].pending.push(copy);
                    delivered.push(addr);
                    proof {
                        assert(self.peers@[i as int].outbox().pending =~= before.peers@[i as int].outbox().with(
                            message@,
                        ).pending);
                        assert forall|k: int| 0 <= k < self.peers@.len() && k != i implies
                            #[trigger] self.peers@[k] == old_peers[k] by {}
                    }
                } else {
                    failed.push(addr);
                }
            }
            proof {
                let next = i as int + 1;
                assert forall|a: PeerAddr| before.reached(next, *except).contains(a)
                    <==> delivered@.contains(a) by {
                    if before.reached(next, *except).contains(a) {
                        let k = choose|k: int|
                            0 <= k < next && #[trigger] before.peers@[k].addr == a && a != *except
                                && before.peers@[k].open;
                        if k < i {
                            assert(before.reached(i as int, *except).contains(a));
                            assert(old_delivered.to_set().contains(a));
                            let j = choose|j: int| 0 <= j < old_delivered.len() && old_delivered[j] == a;
                            assert(delivered@[j] == a);
                        } else {
                            assert(delivered@[delivered@.len() - 1] == a);
                        }
                    }
                    if delivered@.contains(a) {
                        let j = choose|j: int| 0 <= j < delivered@.len() && delivered@[j] == a;
                        if j < old_delivered.len() {
                            assert(old_delivered[j] == a);
                            assert(old_delivered.to_set().contains(a));
                            assert(before.reached(i as int, *except).contains(a));
                            let k = choose|k: int|
                                0 <= k < i && #[trigger] before.peers@[k].addr == a && a != *except
                                    && before.peers@[k].open;
                            assert(before.peers@[k].addr == a);
                        } else {
                            assert(before.peers@[i as int].addr == a);
                        }
                    }
                }
                assert forall|a: PeerAddr| before.missed(next, *except).contains(a)
                    <==> failed@.contains(a) by {
                    if before.missed(next, *except).contains(a) {
                        let k = choose|k: int|
                            0 <= k < next && #[trigger] before.peers@[k].addr == a && a != *except
                                && !before.peers@[k].open;
                        if k < i {
                            assert(before.missed(i as int, *except).contains(a));
                            assert(old_failed.to_set().contains(a));
                            let j = choose|j: int| 0 <= j < old_failed.len() && old_failed[j] == a;
                            assert(failed@[j] == a);
                        } else {
                            assert(failed@[failed@.len() - 1] == a);
                        }
                    }
                    if failed@.contains(a) {
                        let j = choose|j: int| 0 <= j < failed@.len() && failed@[j] == a;
                        if j < old_failed.len() {
                            assert(old_failed[j] == a);
                            assert(old_failed.to_set().contains(a));
                            assert(before.missed(i as int, *except).contains(a));
                            let k = choose|k: int|
                                0 <= k < i && #[trigger] before.peers@[k].addr == a && a != *except
                                    && !before.peers@[k].open;
                            assert(before.peers@[k].addr == a);
                        } else {
                            assert(before.peers@[i as int].addr == a);
                        }
                    }
                }
                // An address met at this position was met at none before it.
                assert forall|j: int| 0 <= j < old_delivered.len() implies old_delivered[j]
                    != addr by {
                    if old_delivered[j] == addr {
                        assert(old_delivered.to_set().contains(addr));
                        assert(before.reached(i as int, *except).contains(addr));
                        let k = choose|k: int|
                            0 <= k < i && #[trigger] before.peers@[k].addr == addr && addr
                                != *except && before.peers@[k].open;
                        assert(before.keys()[k] == before.keys()[i as int]);
                    }
                }
                assert forall|j: int| 0 <= j < old_failed.len() implies old_failed[j] != addr by {
                    if old_failed[j] == addr {
                        assert(old_failed.to_set().contains(addr));
                        assert(before.missed(i as int, *except).contains(addr));
                        let k = choose|k: int|
                            0 <= k < i && #[trigger] before.peers@[k].addr == addr && addr
                                != *except && !before.peers@[k].open;
                        assert(before.keys()[k] == before.keys()[i as int]);
                    }
                }
            }
            i += 1;
        }
        proof {
            assert(self.keys() =~= before.keys());
            before.lemma_reached_all(*except);
            let target = fan_out(before@, message@, *except);
            assert forall|k: int| 0 <= k < self.peers@.len() implies target.contains_key(
                #[trigger] self.peers@[k].addr,
            ) && target[self.peers@[k].addr] == self.peers@[k].outbox() by {
                before.lemma_entry(k);
            }
            assert forall|a: PeerAddr| target.contains_key(a) implies self.keys().contains(a) by {
                let j = before.keys().index_of(a);
                assert(self.keys()[j] == a);
            }
            self.lemma_view_is(target);
        }
        BroadcastReport { delivered, failed }
    }
}

impl PeerRegistry {
    /// Hands a message on as `broadcast` does, and then takes every peer
    /// that could not be written to out of the registry.
    pub fn deliver(&mut self, message: &MessageType, except: &PeerAddr) -> (report:
        BroadcastReport)
        requires
            old(self).wf(),
        ensures
            final(self).wf(),
            final(self)@ == routed_peers(old(self)@, message@, *except),
            report.delivered@.no_duplicates(),
            report.delivered@.to_set() == recipients(old(self)@, *except),
            report.failed@.no_duplicates(),
            report.failed@.to_set() == out_of_reach(old(self)@, *except),
    {
        let report = self.broadcast(message, except);
        let ghost base = self@;
        let mut i: usize = 0;
        while i < report.failed.len()
            invariant
                i <= report.failed@.len(),
                self.wf(),
                self@ == base.remove_keys(report.failed@.take(i as int).to_set()),
            decreases report.failed.len() - i,
        {
            self.remove(&report.failed[i]);
            proof {
                let shorter = report.failed@.take(i as int);
                let longer = report.failed@.take(i as int + 1);
                let gone = shorter.to_set();
                let next = longer.to_set();
                assert forall|a: PeerAddr| next.contains(a) implies gone.insert(
                    report.failed@[i as int],
                ).contains(a) by {
                    let j = choose|j: int| 0 <= j < longer.len() && longer[j] == a;
                    if j < i {
                        assert(shorter[j] == a);
                    }
                }
                assert forall|a: PeerAddr| gone.insert(report.failed@[i as int]).contains(
                    a,
                ) implies next.contains(a) by {
                    if a == report.failed@[i as int] {
                        assert(longer[i as int] == a);
                    } else {
                        let j = choose|j: int| 0 <= j < shorter.len() && shorter[j] == a;
                        assert(longer[j] == a);
                    }
                }
                assert(next =~= gone.insert(report.failed@[i as int]));
                assert(self@ =~= base.remove_keys(next));
            }
            i += 1;
        }
        assert(report.failed@.take(report.failed@.len() as int) =~= report.failed@);
        report
    }
}

/// A message from a registered peer, all peers being open to writing, is
/// handed to every peer but its sender, one fewer than there are peers; and
/// nothing is added to what waits for the sender.
pub proof fn lemma_broadcast_exclusion(
    peers: Map<PeerAddr, Outbox>,
    message: Message,
    sender: PeerAddr,
)
    requires
        peers.dom().finite(),
        peers.contains_key(sender),
        forall|a: PeerAddr| peers.contains_key(a) ==> peers[a].open,
    ensures
        recipients(peers, sender) == peers.dom().remove(sender),
        recipients(peers, sender).len() == peers.dom().len() - 1,
        out_of_reach(peers, sender) == Set::<PeerAddr>::empty(),
        fan_out(peers, message, sender)[sender] == peers[sender],
        forall|a: PeerAddr|
            peers.contains_key(a) && a != sender ==> #[trigger] fan_out(peers, message, sender)[a]
                == peers[a].with(message),
{
    assert(recipients(peers, sender) =~= peers.dom().remove(sender));
    assert(out_of_reach(peers, sender) =~= Set::<PeerAddr>::empty());
}

/// A message from the only registered peer is handed to no one, and the
/// registry stays as it was.
pub proof fn lemma_solo_broadcast(peers: Map<PeerAddr, Outbox>, message: Message, sender: PeerAddr)
    requires
        peers.dom() == set![sender],
    ensures
        recipients(peers, sender) == Set::<PeerAddr>::empty(),
        recipients(peers, sender).len() == 0,
        out_of_reach(peers, sender) == Set::<PeerAddr>::empty(),
        fan_out(peers, message, sender) == peers,
{
    assert(recipients(peers, sender) =~= Set::<PeerAddr>::empty());
    assert(out_of_reach(peers, sender) =~= Set::<PeerAddr>::empty());
    assert(fan_out(peers, message, sender) =~= peers);
}

/// One recipient that cannot be written to keeps a message from no other:
/// the message is handed to every peer but that one and the sender, two
/// fewer than there are peers, and the one is reported alone.
pub proof fn lemma_partial_failure(
    peers: Map<PeerAddr, Outbox>,
    message: Message,
    sender: PeerAddr,
    broken: PeerAddr,
)
    requires
        peers.dom().finite(),
        peers.contains_key(sender),
        peers.contains_key(broken),
        broken != sender,
        forall|a: PeerAddr| peers.contains_key(a) ==> (peers[a].open <==> a != broken),
    ensures
        recipients(peers, sender) == peers.dom().remove(sender).remove(broken),
        recipients(peers, sender).len() == peers.dom().len() - 2,
        out_of_reach(peers, sender) == set![broken],
        fan_out(peers, message, sender)[broken] == peers[broken],
        forall|a: PeerAddr|
            peers.contains_key(a) && a != sender && a != broken ==> #[trigger] fan_out(
                peers,
                message,
                sender,
            )[a] == peers[a].with(message),
{
    assert(recipients(peers, sender) =~= peers.dom().remove(sender).remove(broken));
    assert(out_of_reach(peers, sender) =~= set![broken]);
}

/// Taking out a peer that is not there changes nothing, and taking a peer
/// out twice is taking it out once.
pub proof fn lemma_remove_idempotent(peers: Map<PeerAddr, Outbox>, addr: PeerAddr)
    ensures
        !peers.contains_key(addr) ==> peers.remove(addr) == peers,
        peers.remove(addr).remove(addr) == peers.remove(addr),
{
    if !peers.contains_key(addr) {
        assert(peers.remove(addr) =~= peers);
    }
    assert(peers.remove(addr).remove(addr) =~= peers.remove(addr));
}

/// A peer that was taken in and is taken out again leaves nothing behind:
/// its address is free, and every other peer is as it was.
pub proof fn lemma_teardown_leaves_no_entry(peers: Map<PeerAddr, Outbox>, addr: PeerAddr)
    ensures
        !peers.insert(addr, Outbox::fresh()).remove(addr).contains_key(addr),
        peers.insert(addr, Outbox::fresh()).remove(addr) == peers.remove(addr),
        !peers.contains_key(addr) ==> peers.insert(addr, Outbox::fresh()).remove(addr) == peers,
{
    assert(peers.insert(addr, Outbox::fresh()).remove(addr) =~= peers.remove(addr));
    if !peers.contains_key(addr) {
        assert(peers.remove(addr) =~= peers);
    }
}

/// Two messages from one sender wait for each recipient in the order in
/// which they were sent, behind what waited there before.
pub proof fn lemma_order_within_sender(
    peers: Map<PeerAddr, Outbox>,
    first: Message,
    second: Message,
    sender: PeerAddr,
)
    ensures
        recipients(fan_out(peers, first, sender), sender) == recipients(peers, sender),
        forall|a: PeerAddr|
            recipients(peers, sender).contains(a) ==> (#[trigger] fan_out(
                fan_out(peers, first, sender),
                second,
                sender,
            )[a]).pending == peers[a].pending + seq![first, second],
{
    assert(recipients(fan_out(peers, first, sender), sender) =~= recipients(peers, sender));
    assert forall|a: PeerAddr| recipients(peers, sender).contains(a) implies (#[trigger] fan_out(
        fan_out(peers, first, sender),
        second,
        sender,
    )[a]).pending == peers[a].pending + seq![first, second] by {
        assert(peers[a].pending.push(first).push(second) =~= peers[a].pending + seq![
            first,
            second,
        ]);
    }
}

} // verus!
