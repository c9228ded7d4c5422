use chat_relay::server::Server;

#[test]
fn ids_are_distinct_and_strictly_increasing() {
    let mut server = Server::new();
    let (id_a, _) = server.connect();
    let (id_b, _) = server.connect();
    let (id_c, _) = server.connect();
    assert_eq!(id_a, 1);
    assert_eq!(id_b, 2);
    assert_eq!(id_c, 3);
    assert!(id_a < id_b && id_b < id_c);
}

#[test]
fn first_client_gets_welcome_with_id_one() {
    let mut server = Server::new();
    let (id, welcome) = server.connect();
    assert_eq!(id, 1);
    assert_eq!(welcome, "Welcome! Your ID is 1. Use '/nick NAME' to set a nickname.\n");
}

#[test]
fn chat_with_default_name_reaches_other_client() {
    // Client A connects first (id 1, default name user:1); B is connected
    // before A sends, so B receives A's line rendered with the default name.
    let mut server = Server::new();
    let (id_a, _) = server.connect();
    let (id_b, _) = server.connect();
    assert!(server.client_line(id_a, "hi\n"));
    assert_eq!(server.next_delivery(id_b).as_deref(), Some("user:1> hi\n"));
    assert_eq!(server.next_delivery(id_b), None);
}

#[test]
fn sender_never_receives_its_own_message() {
    let mut server = Server::new();
    let (id_a, _) = server.connect();
    let (id_b, _) = server.connect();
    assert!(server.client_line(id_a, "hi\n"));
    assert_eq!(server.next_delivery(id_a), None);
    assert_eq!(server.next_delivery(id_b).as_deref(), Some("user:1> hi\n"));
}

#[test]
fn nick_then_chat_renders_with_new_name() {
    let mut server = Server::new();
    let (id_a, _) = server.connect();
    let (id_b, _) = server.connect();
    assert!(server.client_line(id_a, "/nick Alice\n"));
    assert!(server.client_line(id_a, "hello\n"));
    assert_eq!(server.next_delivery(id_b).as_deref(), Some("Alice> hello\n"));
    assert_eq!(server.next_delivery(id_b), None);
}

#[test]
fn nick_line_is_never_broadcast() {
    // Client A renames itself and then chats; B sees only the chat line,
    // rendered with the new name, and nothing at all for the command.
    let mut server = Server::new();
    let (id_a, _) = server.connect();
    let (id_b, _) = server.connect();
    assert!(server.client_line(id_a, "/nick Bob\n"));
    assert_eq!(server.next_delivery(id_b), None);
    assert!(server.client_line(id_a, "yo\n"));
    assert_eq!(server.next_delivery(id_b).as_deref(), Some("Bob> yo\n"));
    assert_eq!(server.next_delivery(id_b), None);
}

#[test]
fn nick_update_is_not_retroactive() {
    // A line published before the rename stays rendered with the old name
    // even if it is delivered after the rename happened.
    let mut server = Server::new();
    let (id_a, _) = server.connect();
    let (id_b, _) = server.connect();
    assert!(server.client_line(id_a, "before\n"));
    assert!(server.client_line(id_a, "/nick Carol\n"));
    assert!(server.client_line(id_a, "after\n"));
    assert_eq!(server.next_delivery(id_b).as_deref(), Some("user:1> before\n"));
    assert_eq!(server.next_delivery(id_b).as_deref(), Some("Carol> after\n"));
    assert_eq!(server.next_delivery(id_b), None);
}

#[test]
fn disconnect_gives_later_sessions_fresh_defaults() {
    // A session that renamed itself disconnects; its registry entry goes
    // with it, so later sessions start from their own default names.
    let mut server = Server::new();
    let (id_a, _) = server.connect();
    assert!(server.client_line(id_a, "/nick Dave\n"));
    server.disconnect(id_a);
    let (id_b, _) = server.connect();
    let (id_c, _) = server.connect();
    assert_eq!(id_b, 2);
    assert!(server.client_line(id_b, "hi\n"));
    assert_eq!(server.next_delivery(id_c).as_deref(), Some("user:2> hi\n"));
}

#[test]
fn disconnected_sender_line_closes_session() {
    let mut server = Server::new();
    let (id_a, _) = server.connect();
    server.disconnect(id_a);
    // The entry is gone: a line from the stale session finds no name and
    // the handler reports that the session must close.
    assert!(!server.client_line(id_a, "ghost\n"));
}

#[test]
fn messages_fan_out_to_every_other_client() {
    let mut server = Server::new();
    let (id_a, _) = server.connect();
    let (id_b, _) = server.connect();
    let (id_c, _) = server.connect();
    assert!(server.client_line(id_b, "all\n"));
    assert_eq!(server.next_delivery(id_a).as_deref(), Some("user:2> all\n"));
    assert_eq!(server.next_delivery(id_c).as_deref(), Some("user:2> all\n"));
    assert_eq!(server.next_delivery(id_b), None);
}
