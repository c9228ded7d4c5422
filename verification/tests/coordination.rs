use chat_relay::bus::Bus;
use chat_relay::registry::Registry;
use chat_relay::registry::RegistryError;
use chat_relay::session::handle_client_message;
use chat_relay::session::session_step;
use chat_relay::session::LineOutcome;
use chat_relay::session::SessionEvent;
use chat_relay::session::SessionReaction;

#[test]
fn registry_insert_get_remove() {
    let mut reg = Registry::new();
    assert_eq!(reg.get(1), Err(RegistryError::NotFound));
    reg.insert(1, String::from("user:1"));
    assert!(reg.contains(1));
    assert_eq!(reg.get(1).unwrap(), "user:1");
    reg.insert(1, String::from("Alice"));
    assert_eq!(reg.get(1).unwrap(), "Alice");
    reg.remove(1);
    assert!(!reg.contains(1));
    assert_eq!(reg.get(1), Err(RegistryError::NotFound));
    reg.remove(1);
    assert!(!reg.contains(1));
}

#[test]
fn nick_line_updates_registry_without_broadcast() {
    let mut reg = Registry::new();
    reg.insert(3, String::from("user:3"));
    let out = handle_client_message(3, "/nick Alice\n", &mut reg);
    assert!(matches!(out, LineOutcome::NickSet));
    assert_eq!(reg.get(3).unwrap(), "Alice");
}

#[test]
fn chat_line_renders_with_current_name() {
    let mut reg = Registry::new();
    reg.insert(3, String::from("user:3"));
    match handle_client_message(3, "hi\n", &mut reg) {
        LineOutcome::Broadcast(msg) => assert_eq!(msg, "user:3> hi\n"),
        _ => panic!("expected a broadcast"),
    }
    assert_eq!(reg.get(3).unwrap(), "user:3");
}

#[test]
fn chat_line_from_unknown_sender_fails() {
    let mut reg = Registry::new();
    let out = handle_client_message(9, "hi\n", &mut reg);
    assert!(matches!(out, LineOutcome::SenderUnknown));
}

#[test]
fn own_message_is_discarded_silently() {
    let mut reg = Registry::new();
    let r = session_step(5, SessionEvent::BusMessage(5, String::from("user:5> hi\n")), &mut reg);
    assert!(matches!(r, SessionReaction::Ignore));
}

#[test]
fn foreign_message_is_forwarded_verbatim() {
    let mut reg = Registry::new();
    let r = session_step(5, SessionEvent::BusMessage(2, String::from("user:2> hi\n")), &mut reg);
    match r {
        SessionReaction::Forward(text) => assert_eq!(text, "user:2> hi\n"),
        _ => panic!("expected a forward"),
    }
}

#[test]
fn terminal_events_close_the_session() {
    let mut reg = Registry::new();
    assert!(matches!(session_step(1, SessionEvent::ReadClosed, &mut reg), SessionReaction::Close));
    assert!(matches!(session_step(1, SessionEvent::ReadFailed, &mut reg), SessionReaction::Close));
    assert!(matches!(session_step(1, SessionEvent::BusClosed, &mut reg), SessionReaction::Close));
    assert!(matches!(session_step(1, SessionEvent::BusLagged, &mut reg), SessionReaction::Ignore));
}

#[test]
fn chat_line_becomes_publish_reaction() {
    let mut reg = Registry::new();
    reg.insert(4, String::from("user:4"));
    let r = session_step(4, SessionEvent::LineRead(String::from("hey\n")), &mut reg);
    match r {
        SessionReaction::Publish(text) => assert_eq!(text, "user:4> hey\n"),
        _ => panic!("expected a publish"),
    }
}

#[test]
fn publish_reaches_every_queue_exactly_once() {
    let mut bus = Bus::new();
    bus.subscribe(1);
    bus.subscribe(2);
    bus.subscribe(3);
    bus.publish(1, "user:1> hi\n");
    for i in 0..3 {
        let m = bus.try_recv(i).expect("one message queued");
        assert_eq!(m.origin, 1);
        assert_eq!(m.text, "user:1> hi\n");
        assert!(bus.try_recv(i).is_none());
    }
}

#[test]
fn queues_are_fifo_per_subscriber() {
    let mut bus = Bus::new();
    bus.subscribe(1);
    bus.subscribe(2);
    bus.publish(1, "first\n");
    bus.publish(2, "second\n");
    let a = bus.try_recv(0).unwrap();
    let b = bus.try_recv(0).unwrap();
    assert_eq!((a.origin, a.text.as_str()), (1, "first\n"));
    assert_eq!((b.origin, b.text.as_str()), (2, "second\n"));
    assert!(bus.try_recv(0).is_none());
}

#[test]
fn unsubscribe_ends_the_queue() {
    let mut bus = Bus::new();
    bus.subscribe(1);
    bus.subscribe(2);
    assert_eq!(bus.find_subscriber(2), Some(1));
    bus.unsubscribe(0);
    assert_eq!(bus.find_subscriber(1), None);
    assert_eq!(bus.find_subscriber(2), Some(0));
}
