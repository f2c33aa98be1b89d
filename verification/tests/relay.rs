use chat_relay::{
    classify_read_failure, conclude, enrich, plan, process_message, Answer, AppError, Connection,
    ConnectionEvent, ConnectionState, InternalMessage, IoErrorKind, Lookup, MessageType, NextStep,
    PeerAddr, PeerRegistry, ReadVerdict, Relay, UserDirectory, Writer, WriterEvent, WriterStep,
};

fn addr(n: u16) -> PeerAddr {
    PeerAddr::V4 { ip: 0x0a00_0001, port: n }
}

fn text(author: Option<&str>, body: &str) -> MessageType {
    MessageType::Text(author.map(String::from), body.to_string())
}

#[test]
fn scenario_text_reaches_the_other_client_as_anonymous() {
    let mut relay = Relay::new();
    let _b = relay.accept(addr(2));
    let mut a = relay.accept(addr(1));
    let routed = relay.route(&mut a, text(None, "hi"), "t").unwrap();
    assert_eq!(routed.message, text(Some("anonymous"), "hi"));
    assert_eq!(routed.delivered, vec![addr(2)]);
    assert!(routed.dropped.is_empty());
    assert_eq!(relay.take_pending(&addr(2)), vec![text(Some("anonymous"), "hi")]);
    assert!(relay.take_pending(&addr(1)).is_empty());
}

#[test]
fn scenario_registered_name_is_the_author_from_then_on() {
    let mut relay = Relay::new();
    let mut a = relay.accept(addr(1));
    let _b = relay.accept(addr(2));
    let routed = relay.route(&mut a, MessageType::Register("alice".to_string()), "t").unwrap();
    assert_eq!(routed.message, MessageType::Register("alice".to_string()));
    assert_eq!(routed.update, Some(InternalMessage::UserIdUpdate(2)));
    assert_eq!(a.user_id, 2);
    let routed = relay.route(&mut a, text(None, "yo"), "t").unwrap();
    assert_eq!(routed.message, text(Some("alice"), "yo"));
    assert_eq!(
        relay.take_pending(&addr(2)),
        vec![MessageType::Register("alice".to_string()), text(Some("alice"), "yo")]
    );
}

#[test]
fn scenario_abrupt_disconnect_leaves_the_others_running() {
    let mut relay = Relay::new();
    let mut a = relay.accept(addr(1));
    let mut b = relay.accept(addr(2));
    let mut c = relay.accept(addr(3));
    let next = relay.on_event(&mut a, ConnectionEvent::ReadFailed(IoErrorKind::ConnectionReset));
    assert_eq!(next, NextStep::Stop);
    assert_eq!(a.state, ConnectionState::Closed);
    assert!(!relay.peers().contains(&addr(1)));
    assert_eq!(relay.peers().len(), 2);
    assert_eq!(b.state, ConnectionState::Active);
    let routed = relay.route(&mut c, text(None, "still here"), "t").unwrap();
    assert_eq!(routed.delivered, vec![addr(2)]);
    assert_eq!(relay.take_pending(&addr(2)), vec![text(Some("anonymous"), "still here")]);
    let routed = relay.route(&mut b, text(None, "me too"), "t").unwrap();
    assert_eq!(routed.delivered, vec![addr(3)]);
    assert!(relay.route(&mut a, text(None, "ghost"), "t").is_none());
    assert!(relay.take_pending(&addr(2)).is_empty());
}

#[test]
fn unregistered_sender_is_anonymous_for_every_kind() {
    let mut relay = Relay::new();
    let mut a = relay.accept(addr(1));
    let _b = relay.accept(addr(2));
    assert_eq!(a.user_id, 1);
    relay.route(&mut a, text(None, "t"), "now");
    relay.route(&mut a, MessageType::Image(None, vec![1]), "now");
    relay.route(&mut a, MessageType::File(None, "f".to_string(), vec![2]), "now");
    relay.route(&mut a, text(Some("mallory"), "forged"), "now");
    let anon = Some("anonymous".to_string());
    assert_eq!(
        relay.take_pending(&addr(2)),
        vec![
            text(Some("anonymous"), "t"),
            MessageType::Image(anon.clone(), vec![1]),
            MessageType::File(anon, "f".to_string(), vec![2]),
            text(Some("anonymous"), "forged"),
        ]
    );
}

#[test]
fn routed_messages_are_kept_for_the_sender() {
    let mut relay = Relay::new();
    let mut a = relay.accept(addr(1));
    relay.route(&mut a, text(None, "one"), "t1");
    relay.route(&mut a, MessageType::Register("alice".to_string()), "t2");
    relay.route(&mut a, MessageType::Image(None, vec![1]), "t3");
    relay.route(&mut a, MessageType::File(None, "f.txt".to_string(), vec![]), "t4");
    let stored = relay.users().stored();
    let got: Vec<(&str, i64)> = stored.iter().map(|m| (m.content.as_str(), m.user_id)).collect();
    assert_eq!(got, vec![("one", 1), ("t3", 2), ("f.txt", 2)]);
}

#[test]
fn image_routed_now_is_kept_under_the_time() {
    let mut relay = Relay::new();
    let mut a = relay.accept(addr(1));
    let routed = relay.route_now(&mut a, MessageType::Image(None, vec![1, 2])).unwrap();
    assert_eq!(routed.message, MessageType::Image(Some("anonymous".to_string()), vec![1, 2]));
    let stored = relay.users().stored();
    assert_eq!(stored.len(), 1);
    assert!(stored[0].content.contains("UTC"));
    assert!(stored[0].content.len() >= 20);
    relay.route_now(&mut a, text(None, "words"));
    assert_eq!(relay.users().stored()[1].content, "words");
}

#[test]
fn two_connections_that_register_one_name_speak_for_one_user() {
    let mut relay = Relay::new();
    let mut a = relay.accept(addr(1));
    let mut b = relay.accept(addr(2));
    relay.route(&mut a, MessageType::Register("alice".to_string()), "t");
    relay.route(&mut b, MessageType::Register("alice".to_string()), "t");
    assert_eq!(a.user_id, 2);
    assert_eq!(b.user_id, 2);
    assert_eq!(relay.users().username_by_id(3), None);
}

#[test]
fn solo_sender_routes_to_no_one() {
    let mut relay = Relay::new();
    let mut a = relay.accept(addr(1));
    let routed = relay.route(&mut a, text(None, "anyone?"), "t").unwrap();
    assert!(routed.delivered.is_empty());
    assert!(routed.dropped.is_empty());
    assert_eq!(relay.peers().len(), 1);
}

#[test]
fn peer_that_cannot_be_written_to_is_dropped_when_found_so() {
    let mut relay = Relay::new();
    let mut a = relay.accept(addr(1));
    let _b = relay.accept(addr(2));
    let _c = relay.accept(addr(3));
    assert!(relay.mark_broken(&addr(2)));
    assert_eq!(relay.peers().len(), 3);
    let routed = relay.route(&mut a, text(None, "hi"), "t").unwrap();
    assert_eq!(routed.delivered, vec![addr(3)]);
    assert_eq!(routed.dropped, vec![addr(2)]);
    assert!(!relay.peers().contains(&addr(2)));
    assert_eq!(relay.peers().len(), 2);
    assert_eq!(relay.take_pending(&addr(3)), vec![text(Some("anonymous"), "hi")]);
    let routed = relay.route(&mut a, text(None, "again"), "t").unwrap();
    assert_eq!(routed.delivered, vec![addr(3)]);
    assert!(routed.dropped.is_empty());
}

#[test]
fn accepted_connection_is_active_and_registered() {
    let mut relay = Relay::new();
    let a = relay.accept(addr(1));
    assert_eq!(a.addr, addr(1));
    assert_eq!(a.user_id, 1);
    assert_eq!(a.state, ConnectionState::Active);
    assert!(relay.peers().contains(&addr(1)));
}

#[test]
fn read_that_finds_nothing_ready_keeps_the_connection() {
    let mut relay = Relay::new();
    let mut a = relay.accept(addr(1));
    let next = relay.on_event(&mut a, ConnectionEvent::ReadFailed(IoErrorKind::WouldBlock));
    assert_eq!(next, NextStep::Read);
    assert_eq!(a.state, ConnectionState::Active);
    assert!(relay.peers().contains(&addr(1)));
}

#[test]
fn every_other_failed_read_ends_the_connection() {
    for kind in [
        IoErrorKind::UnexpectedEof,
        IoErrorKind::ConnectionReset,
        IoErrorKind::BrokenPipe,
        IoErrorKind::Other,
    ] {
        let mut relay = Relay::new();
        let mut a = relay.accept(addr(1));
        let _b = relay.accept(addr(2));
        let next = relay.on_event(&mut a, ConnectionEvent::ReadFailed(kind));
        assert_eq!(next, NextStep::Stop);
        assert_eq!(a.state, ConnectionState::Closed);
        assert!(!relay.peers().contains(&addr(1)));
        assert!(relay.peers().contains(&addr(2)));
    }
}

#[test]
fn frame_that_holds_no_message_ends_the_connection() {
    let mut relay = Relay::new();
    let mut a = relay.accept(addr(1));
    assert_eq!(relay.on_event(&mut a, ConnectionEvent::Malformed), NextStep::Stop);
    assert_eq!(a.state, ConnectionState::Closed);
    assert_eq!(relay.peers().len(), 0);
}

#[test]
fn closed_connection_stays_closed() {
    let mut relay = Relay::new();
    let mut a = relay.accept(addr(1));
    relay.on_event(&mut a, ConnectionEvent::Malformed);
    let _again = relay.accept(addr(1));
    for event in [
        ConnectionEvent::Registered,
        ConnectionEvent::Routed,
        ConnectionEvent::Malformed,
        ConnectionEvent::ReadFailed(IoErrorKind::Other),
        ConnectionEvent::Shutdown,
        ConnectionEvent::Removed,
    ] {
        assert_eq!(relay.on_event(&mut a, event), NextStep::Stop);
        assert_eq!(a.state, ConnectionState::Closed);
        assert!(relay.peers().contains(&addr(1)));
    }
}

#[test]
fn states_follow_one_another() {
    let connecting = ConnectionState::Connecting;
    let active = ConnectionState::Active;
    let draining = ConnectionState::Draining;
    let closed = ConnectionState::Closed;
    let failed = |kind| ConnectionEvent::ReadFailed(kind);
    assert_eq!(connecting.step(ConnectionEvent::Registered), (active, NextStep::Read));
    assert_eq!(connecting.step(ConnectionEvent::Routed), (connecting, NextStep::Register));
    assert_eq!(connecting.step(failed(IoErrorKind::Other)), (connecting, NextStep::Register));
    assert_eq!(active.step(ConnectionEvent::Registered), (active, NextStep::Read));
    assert_eq!(active.step(ConnectionEvent::Routed), (active, NextStep::Read));
    assert_eq!(active.step(ConnectionEvent::Removed), (active, NextStep::Read));
    assert_eq!(active.step(ConnectionEvent::Malformed), (draining, NextStep::Remove));
    assert_eq!(active.step(failed(IoErrorKind::WouldBlock)), (active, NextStep::Read));
    assert_eq!(active.step(failed(IoErrorKind::UnexpectedEof)), (draining, NextStep::Remove));
    assert_eq!(draining.step(ConnectionEvent::Routed), (draining, NextStep::Remove));
    assert_eq!(draining.step(ConnectionEvent::Removed), (closed, NextStep::Stop));
    assert_eq!(closed.step(ConnectionEvent::Registered), (closed, NextStep::Stop));
    assert_eq!(connecting.step(ConnectionEvent::Shutdown), (closed, NextStep::Stop));
    assert_eq!(active.step(ConnectionEvent::Shutdown), (draining, NextStep::Remove));
    assert_eq!(draining.step(ConnectionEvent::Shutdown), (draining, NextStep::Remove));
    assert_eq!(closed.step(ConnectionEvent::Shutdown), (closed, NextStep::Stop));
}

#[test]
fn signal_to_shut_down_ends_connection_and_writer() {
    let mut relay = Relay::new();
    let mut a = relay.accept(addr(1));
    let _b = relay.accept(addr(2));
    assert_eq!(relay.on_event(&mut a, ConnectionEvent::Shutdown), NextStep::Stop);
    assert_eq!(a.state, ConnectionState::Closed);
    assert!(!relay.peers().contains(&addr(1)));
    assert!(relay.peers().contains(&addr(2)));
    let mut writer = Writer::new(addr(1));
    assert_eq!(writer.step(WriterEvent::Shutdown), WriterStep::Stop);
    assert_eq!(writer.user_id, 1);
}

#[test]
fn failed_reads_are_told_apart() {
    assert_eq!(classify_read_failure(IoErrorKind::WouldBlock), ReadVerdict::Retry);
    assert_eq!(classify_read_failure(IoErrorKind::UnexpectedEof), ReadVerdict::Disconnected);
    assert_eq!(classify_read_failure(IoErrorKind::ConnectionReset), ReadVerdict::Disconnected);
    assert_eq!(classify_read_failure(IoErrorKind::BrokenPipe), ReadVerdict::Disconnected);
    assert_eq!(classify_read_failure(IoErrorKind::Other), ReadVerdict::Failed);
}

#[test]
fn enrich_fills_in_the_resolved_name_or_anonymous() {
    assert_eq!(enrich(text(None, "a"), Some("bob".to_string())), text(Some("bob"), "a"));
    assert_eq!(enrich(text(None, "a"), None), text(Some("anonymous"), "a"));
    assert_eq!(enrich(text(Some("x"), "a"), None), text(Some("anonymous"), "a"));
    assert_eq!(
        enrich(MessageType::Register("al".to_string()), Some("bob".to_string())),
        MessageType::Register("al".to_string())
    );
}

#[test]
fn processing_a_registration_changes_the_user() {
    let mut users = UserDirectory::new();
    let mut user_id = users.anonymous_id();
    let out = process_message(MessageType::Register("al".to_string()), &mut user_id, &mut users, "t");
    assert_eq!(out.message, MessageType::Register("al".to_string()));
    assert_eq!(out.update, Some(InternalMessage::UserIdUpdate(2)));
    assert_eq!(user_id, 2);
    assert!(users.stored().is_empty());
    let out = process_message(text(None, "hi"), &mut user_id, &mut users, "t");
    assert_eq!(out.message, text(Some("al"), "hi"));
    assert_eq!(out.update, None);
    assert_eq!(user_id, 2);
    assert_eq!(users.stored().len(), 1);
}

#[test]
fn processing_for_an_unknown_user_is_anonymous_and_keeps_nothing() {
    let mut users = UserDirectory::new();
    let mut user_id = 42;
    let out = process_message(text(None, "hi"), &mut user_id, &mut users, "t");
    assert_eq!(out.message, text(Some("anonymous"), "hi"));
    assert_eq!(user_id, 42);
    assert!(users.stored().is_empty());
}

#[test]
fn writer_passes_over_its_own_peers_messages() {
    let mut writer = Writer::new(addr(1));
    assert_eq!(writer.user_id, 1);
    assert_eq!(writer.step(WriterEvent::Broadcast { from: addr(1) }), WriterStep::Skip);
    assert_eq!(writer.step(WriterEvent::Broadcast { from: addr(2) }), WriterStep::Send);
    assert_eq!(writer.step(WriterEvent::Sent), WriterStep::Wait);
    assert_eq!(writer.step(WriterEvent::SendFailed), WriterStep::Stop);
    assert_eq!(writer.addr, addr(1));
    assert_eq!(writer.user_id, 1);
}

#[test]
fn writer_learns_the_user_from_the_reader() {
    let mut writer = Writer::new(addr(1));
    let news = WriterEvent::Internal(InternalMessage::UserIdUpdate(7));
    assert_eq!(writer.step(news), WriterStep::Wait);
    assert_eq!(writer.user_id, 7);
    assert_eq!(writer.step(WriterEvent::Sent), WriterStep::Wait);
    assert_eq!(writer.user_id, 7);
}

#[test]
fn message_on_a_connection_that_is_not_active_is_dropped() {
    let mut relay = Relay::new();
    let _b = relay.accept(addr(2));
    let mut stray =
        Connection { addr: addr(1), user_id: 1, state: ConnectionState::Connecting };
    assert!(relay.route(&mut stray, text(None, "hi"), "t").is_none());
    assert!(relay.take_pending(&addr(2)).is_empty());
    assert!(relay.users().stored().is_empty());
}

#[test]
fn store_is_asked_to_register_or_to_resolve() {
    assert_eq!(plan(&MessageType::Register("al".to_string()), 5), Lookup::Register("al".to_string()));
    assert_eq!(plan(&text(None, "hi"), 5), Lookup::Resolve(5));
    assert_eq!(plan(&MessageType::Image(None, vec![]), 1), Lookup::Resolve(1));
    assert_eq!(plan(&MessageType::File(None, "f".to_string(), vec![]), -3), Lookup::Resolve(-3));
}

#[test]
fn registration_concludes_with_the_new_user() {
    let register = || MessageType::Register("al".to_string());
    let out = conclude(register(), 1, Answer::Registered(Some(9)), "t");
    assert_eq!(out.message, register());
    assert_eq!(out.user_id, 9);
    assert_eq!(out.update, Some(InternalMessage::UserIdUpdate(9)));
    assert!(out.keep.is_none());
    for answer in [Answer::Registered(None), Answer::Resolved(Some("x".to_string()))] {
        let out = conclude(register(), 1, answer, "t");
        assert_eq!(out.message, register());
        assert_eq!(out.user_id, 1);
        assert_eq!(out.update, None);
        assert!(out.keep.is_none());
    }
}

#[test]
fn message_concludes_under_the_resolved_name_and_is_kept() {
    let out = conclude(text(None, "hi"), 4, Answer::Resolved(Some("al".to_string())), "t");
    assert_eq!(out.message, text(Some("al"), "hi"));
    assert_eq!(out.user_id, 4);
    assert_eq!(out.update, None);
    let kept = out.keep.unwrap();
    assert_eq!((kept.content.as_str(), kept.user_id), ("hi", 4));
    for answer in [Answer::Resolved(None), Answer::Registered(Some(7))] {
        let out = conclude(MessageType::Image(None, vec![1]), 4, answer, "noon");
        assert_eq!(out.message, MessageType::Image(Some("anonymous".to_string()), vec![1]));
        assert_eq!(out.user_id, 4);
        let kept = out.keep.unwrap();
        assert_eq!((kept.content.as_str(), kept.user_id), ("noon", 4));
    }
    let file = MessageType::File(None, "f.txt".to_string(), vec![1]);
    let out = conclude(file, 2, Answer::Resolved(Some("bo".to_string())), "t");
    assert_eq!(out.keep.unwrap().content, "f.txt");
}

#[test]
fn failure_to_get_a_message_is_a_failed_read_or_a_bad_frame() {
    let failed = |kind| ConnectionEvent::ReadFailed(kind);
    assert_eq!(ConnectionEvent::from_error(&AppError::WouldBlock), failed(IoErrorKind::WouldBlock));
    assert_eq!(
        ConnectionEvent::from_error(&AppError::Disconnected),
        failed(IoErrorKind::UnexpectedEof)
    );
    assert_eq!(
        ConnectionEvent::from_error(&AppError::Io(IoErrorKind::BrokenPipe)),
        failed(IoErrorKind::BrokenPipe)
    );
    for error in [
        AppError::Serialization("bad".to_string()),
        AppError::Message("bad".to_string()),
        AppError::Unknown("bad".to_string()),
    ] {
        assert_eq!(ConnectionEvent::from_error(&error), ConnectionEvent::Malformed);
    }
}

#[test]
fn read_failure_is_the_inverse_of_its_report() {
    for kind in [
        IoErrorKind::WouldBlock,
        IoErrorKind::UnexpectedEof,
        IoErrorKind::ConnectionReset,
        IoErrorKind::BrokenPipe,
        IoErrorKind::Other,
    ] {
        assert_eq!(AppError::from_read_failure(kind).read_failure(), Some(kind));
    }
    assert_eq!(AppError::Message("m".to_string()).read_failure(), None);
}

#[test]
fn deliver_drops_the_peers_that_cannot_be_written_to() {
    let mut registry = PeerRegistry::new();
    for n in 1..5 {
        registry.add(addr(n));
    }
    registry.mark_broken(&addr(2));
    registry.mark_broken(&addr(4));
    let report = registry.deliver(&text(Some("a"), "hi"), &addr(1));
    assert_eq!(report.delivered, vec![addr(3)]);
    assert_eq!(report.failed, vec![addr(2), addr(4)]);
    assert_eq!(registry.len(), 2);
    assert!(registry.contains(&addr(1)));
    assert!(registry.contains(&addr(3)));
    assert_eq!(registry.take_pending(&addr(3)), vec![text(Some("a"), "hi")]);
}
