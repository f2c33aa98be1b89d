use chat_relay::{MessageType, PeerAddr, PeerRegistry};

fn peer(n: u16) -> PeerAddr {
    PeerAddr::V4 { ip: 0x7f00_0001, port: 4000 + n }
}

fn text(author: &str, body: &str) -> MessageType {
    MessageType::Text(Some(author.to_string()), body.to_string())
}

fn registry_of(n: u16) -> PeerRegistry {
    let mut registry = PeerRegistry::new();
    for i in 0..n {
        registry.add(peer(i));
    }
    registry
}

fn sorted(mut addrs: Vec<PeerAddr>) -> Vec<u16> {
    let mut ports: Vec<u16> = addrs
        .drain(..)
        .map(|a| match a {
            PeerAddr::V4 { port, .. } => port - 4000,
            PeerAddr::V6 { port, .. } => port,
        })
        .collect();
    ports.sort();
    ports
}

#[test]
fn new_registry_is_empty() {
    let registry = PeerRegistry::new();
    assert_eq!(registry.len(), 0);
    assert!(!registry.contains(&peer(0)));
    assert!(registry.addresses().is_empty());
}

#[test]
fn added_peer_is_found() {
    let mut registry = PeerRegistry::new();
    registry.add(peer(1));
    registry.add(peer(2));
    assert_eq!(registry.len(), 2);
    assert!(registry.contains(&peer(1)));
    assert!(registry.contains(&peer(2)));
    assert!(!registry.contains(&peer(3)));
    assert_eq!(sorted(registry.addresses()), vec![1, 2]);
}

#[test]
fn addresses_differ_by_every_field() {
    let mut registry = PeerRegistry::new();
    registry.add(PeerAddr::V4 { ip: 1, port: 1 });
    registry.add(PeerAddr::V4 { ip: 1, port: 2 });
    registry.add(PeerAddr::V4 { ip: 2, port: 1 });
    registry.add(PeerAddr::V6 { ip: 1, port: 1, flowinfo: 0, scope_id: 0 });
    registry.add(PeerAddr::V6 { ip: 1, port: 1, flowinfo: 1, scope_id: 0 });
    registry.add(PeerAddr::V6 { ip: 1, port: 1, flowinfo: 0, scope_id: 1 });
    assert_eq!(registry.len(), 6);
    registry.add(PeerAddr::V4 { ip: 1, port: 1 });
    assert_eq!(registry.len(), 6);
}

#[test]
fn adding_again_replaces_the_entry() {
    let mut registry = registry_of(2);
    registry.broadcast(&text("a", "one"), &peer(0));
    registry.add(peer(1));
    assert_eq!(registry.len(), 2);
    assert!(registry.take_pending(&peer(1)).is_empty());
}

#[test]
fn removed_peer_is_gone() {
    let mut registry = registry_of(3);
    assert!(registry.remove(&peer(1)));
    assert_eq!(registry.len(), 2);
    assert!(!registry.contains(&peer(1)));
    assert_eq!(sorted(registry.addresses()), vec![0, 2]);
}

#[test]
fn removing_an_absent_peer_changes_nothing() {
    let mut registry = registry_of(2);
    registry.broadcast(&text("a", "one"), &peer(0));
    assert!(!registry.remove(&peer(7)));
    assert_eq!(registry.len(), 2);
    assert_eq!(sorted(registry.addresses()), vec![0, 1]);
    assert_eq!(registry.take_pending(&peer(1)), vec![text("a", "one")]);
}

#[test]
fn removing_twice_is_removing_once() {
    let mut once = registry_of(3);
    once.remove(&peer(1));
    let mut twice = registry_of(3);
    assert!(twice.remove(&peer(1)));
    assert!(!twice.remove(&peer(1)));
    assert_eq!(once.len(), twice.len());
    assert_eq!(sorted(once.addresses()), sorted(twice.addresses()));
}

#[test]
fn removing_from_an_empty_registry_is_no_error() {
    let mut registry = PeerRegistry::new();
    assert!(!registry.remove(&peer(0)));
    assert_eq!(registry.len(), 0);
}

#[test]
fn broadcast_reaches_everyone_but_the_sender() {
    for n in 2..6u16 {
        let mut registry = registry_of(n);
        let message = text("a", "hi");
        let report = registry.broadcast(&message, &peer(0));
        assert_eq!(report.delivered.len(), (n - 1) as usize);
        assert!(report.failed.is_empty());
        assert_eq!(sorted(report.delivered), (1..n).collect::<Vec<u16>>());
        assert!(registry.take_pending(&peer(0)).is_empty());
        for i in 1..n {
            assert_eq!(registry.take_pending(&peer(i)), vec![message.clone()]);
        }
    }
}

#[test]
fn broadcast_from_the_only_peer_reaches_no_one() {
    let mut registry = registry_of(1);
    let report = registry.broadcast(&text("a", "hi"), &peer(0));
    assert!(report.delivered.is_empty());
    assert!(report.failed.is_empty());
    assert!(registry.take_pending(&peer(0)).is_empty());
    assert_eq!(registry.len(), 1);
}

#[test]
fn broadcast_from_a_stranger_reaches_everyone() {
    let mut registry = registry_of(3);
    let report = registry.broadcast(&text("a", "hi"), &peer(9));
    assert_eq!(sorted(report.delivered), vec![0, 1, 2]);
}

#[test]
fn broken_peer_keeps_the_message_from_no_one_else() {
    for n in 3..7u16 {
        let mut registry = registry_of(n);
        assert!(registry.mark_broken(&peer(1)));
        let message = text("a", "hi");
        let report = registry.broadcast(&message, &peer(0));
        assert_eq!(report.delivered.len(), (n - 2) as usize);
        assert_eq!(sorted(report.delivered), (2..n).collect::<Vec<u16>>());
        assert_eq!(sorted(report.failed), vec![1]);
        assert!(registry.take_pending(&peer(1)).is_empty());
        for i in 2..n {
            assert_eq!(registry.take_pending(&peer(i)), vec![message.clone()]);
        }
        assert_eq!(registry.len(), n as usize);
    }
}

#[test]
fn broken_sender_still_sends() {
    let mut registry = registry_of(2);
    registry.mark_broken(&peer(0));
    let report = registry.broadcast(&text("a", "hi"), &peer(0));
    assert_eq!(sorted(report.delivered), vec![1]);
    assert!(report.failed.is_empty());
}

#[test]
fn marking_an_absent_peer_changes_nothing() {
    let mut registry = registry_of(2);
    assert!(!registry.mark_broken(&peer(5)));
    let report = registry.broadcast(&text("a", "hi"), &peer(0));
    assert_eq!(sorted(report.delivered), vec![1]);
}

#[test]
fn messages_of_one_sender_wait_in_the_order_sent() {
    let mut registry = registry_of(3);
    registry.broadcast(&text("a", "one"), &peer(0));
    registry.broadcast(&text("a", "two"), &peer(0));
    registry.broadcast(&text("a", "three"), &peer(0));
    for i in 1..3 {
        assert_eq!(
            registry.take_pending(&peer(i)),
            vec![text("a", "one"), text("a", "two"), text("a", "three")]
        );
    }
}

#[test]
fn messages_of_two_senders_keep_each_senders_order() {
    let mut registry = registry_of(3);
    registry.broadcast(&text("a", "a1"), &peer(0));
    registry.broadcast(&text("b", "b1"), &peer(1));
    registry.broadcast(&text("a", "a2"), &peer(0));
    assert_eq!(
        registry.take_pending(&peer(2)),
        vec![text("a", "a1"), text("b", "b1"), text("a", "a2")]
    );
    assert_eq!(registry.take_pending(&peer(1)), vec![text("a", "a1"), text("a", "a2")]);
    assert_eq!(registry.take_pending(&peer(0)), vec![text("b", "b1")]);
}

#[test]
fn taking_what_waits_leaves_nothing() {
    let mut registry = registry_of(2);
    registry.broadcast(&text("a", "one"), &peer(0));
    assert_eq!(registry.take_pending(&peer(1)).len(), 1);
    assert!(registry.take_pending(&peer(1)).is_empty());
    assert!(registry.take_pending(&peer(9)).is_empty());
    registry.broadcast(&text("a", "two"), &peer(0));
    assert_eq!(registry.take_pending(&peer(1)), vec![text("a", "two")]);
}
