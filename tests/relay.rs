use game_relay::connection::{handle_event, SocketEvent};
use game_relay::games::{Game, GameInfo, Games, JoinGameError};
use game_relay::ids::{GameId, SocketId};
use game_relay::messages::{IncomingMessage, OutgoingMessage};
use game_relay::router::{process_disconnect, process_incoming_message, route_message, MessagesToSend};
use game_relay::sockets::Sockets;

fn sid(s: &str) -> SocketId {
    SocketId(s.to_string())
}

fn gid(s: &str) -> GameId {
    GameId(s.to_string())
}

fn create(name: &str, max: u32, id: Option<&str>) -> IncomingMessage {
    IncomingMessage::CreateGame {
        server_name: name.to_string(),
        max_players: max,
        game_id: id.map(gid),
        requires_password: None,
    }
}

fn join(id: &str) -> IncomingMessage {
    IncomingMessage::JoinGame { game_id: gid(id), password: None }
}

fn created_id(r: &MessagesToSend) -> String {
    assert!(r.other_message.is_none());
    match &r.self_message {
        Some(OutgoingMessage::GameCreated { game_id }) => game_id.0.clone(),
        other => panic!("expected gameCreated, got {:?}", other),
    }
}

fn error_reason(r: &MessagesToSend) -> String {
    assert!(r.other_message.is_none());
    match &r.self_message {
        Some(OutgoingMessage::Error { reason }) => reason.clone(),
        other => panic!("expected an error, got {:?}", other),
    }
}

fn members(games: &Games, idx: usize) -> Vec<String> {
    let mut v: Vec<String> = games.0[idx].clients.iter().map(|c| c.0.clone()).collect();
    v.sort();
    v
}

fn is_nothing(r: &MessagesToSend) -> bool {
    r.self_message.is_none() && r.other_message.is_none()
}

fn signal(target: Option<&str>, text: &str) -> IncomingMessage {
    IncomingMessage::WebrtcSignaling {
        client_id: target.map(sid),
        description: Some(serde_json::Value::String(text.to_string())),
        candidate: None,
    }
}

#[test]
fn end_to_end_session() {
    let mut games = Games::new();
    let a = sid("A");
    let b = sid("B");
    let r = process_incoming_message(&a, &mut games, create("Arena", 4, None));
    let g = created_id(&r);
    assert_eq!(g.len(), 16);
    assert!(g.chars().all(|c| c.is_ascii_alphanumeric()));

    let r = process_incoming_message(&b, &mut games, join(&g));
    assert!(r.self_message.is_none());
    match &r.other_message {
        Some((to, OutgoingMessage::NewClient { game_id, client_id, password })) => {
            assert_eq!(to.0, "A");
            assert_eq!(game_id.0, g);
            assert_eq!(client_id.0, "B");
            assert!(password.is_none());
        }
        other => panic!("expected newClient, got {:?}", other),
    }

    let r = process_incoming_message(
        &a,
        &mut games,
        IncomingMessage::AcceptJoin { game_id: gid(&g), client_id: sid("B") },
    );
    assert!(r.self_message.is_none());
    match &r.other_message {
        Some((to, OutgoingMessage::AcceptJoin { game_id })) => {
            assert_eq!(to.0, "B");
            assert_eq!(game_id.0, g);
        }
        other => panic!("expected acceptJoin, got {:?}", other),
    }

    let r = process_incoming_message(&a, &mut games, signal(Some("B"), "offer"));
    assert!(r.self_message.is_none());
    match &r.other_message {
        Some((to, OutgoingMessage::WebrtcSignaling { game_id, client_id, description, candidate })) => {
            assert_eq!(to.0, "B");
            assert_eq!(game_id.0, g);
            assert!(client_id.is_none());
            assert_eq!(description, &Some(serde_json::Value::String("offer".to_string())));
            assert!(candidate.is_none());
        }
        other => panic!("expected webrtcSignaling, got {:?}", other),
    }

    let step = handle_event(&b, &mut games, SocketEvent::Closed);
    assert!(!step.keep_running);
    assert!(is_nothing(&step.messages));
    assert!(games.0[0].clients.is_empty());
    let listed = games.list();
    assert_eq!(listed.len(), 1);
    assert_eq!(listed[0].game_id.0, g);

    // The sender's registry no longer has B: the router still names B,
    // and delivery finds no queue, so the message is dropped.
    let mut sockets = Sockets::new();
    let (a_id, _rx) = sockets.register();
    let r = process_incoming_message(&a, &mut games, signal(Some("B"), "late"));
    assert!(r.self_message.is_none());
    let (to, _) = r.other_message.expect("routed to B");
    assert!(sockets.get(&to).is_none());
    assert!(sockets.get(&a_id).is_some());
}

#[test]
fn host_is_never_member() {
    let mut games = Games::new();
    let h = sid("host");
    let c = sid("client");
    process_incoming_message(&h, &mut games, create("G", 4, Some("g1")));
    process_incoming_message(&c, &mut games, join("g1"));
    process_incoming_message(
        &h,
        &mut games,
        IncomingMessage::RejectJoin { game_id: gid("g1"), client_id: sid("client"), reason: "full".to_string() },
    );
    process_incoming_message(&c, &mut games, join("g1"));
    // The host asking to join its own game is refused and changes nothing.
    let r = process_incoming_message(&h, &mut games, join("g1"));
    assert_eq!(error_reason(&r), "AlreadyJoined");
    assert_eq!(games.join_game(&gid("g1"), &sid("host")).unwrap_err(), JoinGameError::AlreadyJoined);
    process_disconnect(&sid("other"), &mut games);
    for g in &games.0 {
        assert!(g.clients.iter().all(|m| m.0 != g.host.0));
    }
    assert_eq!(members(&games, 0), vec!["client".to_string()]);
}

#[test]
fn generated_ids_differ() {
    let mut games = Games::new();
    let h1 = sid("h1");
    let h2 = sid("h2");
    let g1 = created_id(&process_incoming_message(&h1, &mut games, create("One", 2, None)));
    let g2 = created_id(&process_incoming_message(&h2, &mut games, create("Two", 2, None)));
    assert_ne!(g1, g2);
    let a = GameId::random();
    let b = SocketId::random();
    assert_eq!(a.0.len(), 16);
    assert_eq!(b.0.len(), 16);
    assert!(b.0.chars().all(|c| c.is_ascii_alphanumeric()));
}

#[test]
fn join_unknown_game_fails() {
    let mut games = Games::new();
    process_incoming_message(&sid("h"), &mut games, create("G", 4, Some("g1")));
    let r = process_incoming_message(&sid("c"), &mut games, join("nope"));
    assert_eq!(error_reason(&r), "GameNotFound");
    assert!(games.0[0].clients.is_empty());
    assert_eq!(games.join_game(&gid("nope"), &sid("c")).unwrap_err(), JoinGameError::GameNotFound);
}

#[test]
fn join_twice_fails() {
    let mut games = Games::new();
    process_incoming_message(&sid("h"), &mut games, create("G", 4, Some("g1")));
    let first = process_incoming_message(&sid("c"), &mut games, join("g1"));
    assert!(first.other_message.is_some());
    let second = process_incoming_message(&sid("c"), &mut games, join("g1"));
    assert_eq!(error_reason(&second), "AlreadyJoined");
    assert_eq!(members(&games, 0), vec!["c".to_string()]);
    assert_eq!(JoinGameError::AlreadyJoined.reason(), "AlreadyJoined");
}

#[test]
fn host_disconnect_removes_game() {
    let mut games = Games::new();
    process_incoming_message(&sid("h1"), &mut games, create("First", 4, Some("g1")));
    process_incoming_message(&sid("h2"), &mut games, create("Second", 4, Some("g2")));
    process_incoming_message(&sid("c"), &mut games, join("g1"));
    let step = handle_event(&sid("h1"), &mut games, SocketEvent::Closed);
    assert!(!step.keep_running);
    let listed = games.list();
    assert_eq!(listed.len(), 1);
    assert_eq!(listed[0].game_id.0, "g2");
    let r = process_incoming_message(&sid("c"), &mut games, signal(None, "answer"));
    assert!(is_nothing(&r));
    let r = process_incoming_message(&sid("h1"), &mut games, signal(Some("c"), "offer"));
    assert!(is_nothing(&r));
}

#[test]
fn host_disconnect_removes_every_game_it_hosts() {
    let mut games = Games::new();
    process_incoming_message(&sid("h"), &mut games, create("First", 4, Some("g1")));
    process_incoming_message(&sid("o"), &mut games, create("Other", 4, Some("g2")));
    process_incoming_message(&sid("h"), &mut games, create("Again", 4, Some("g3")));
    process_disconnect(&sid("h"), &mut games);
    let listed = games.list();
    assert_eq!(listed.len(), 1);
    assert_eq!(listed[0].game_id.0, "g2");
}

#[test]
fn client_disconnect_and_late_reject() {
    let mut games = Games::new();
    process_incoming_message(&sid("h1"), &mut games, create("First", 4, Some("g1")));
    process_incoming_message(&sid("h2"), &mut games, create("Second", 4, Some("g2")));
    process_incoming_message(&sid("c"), &mut games, join("g1"));
    process_incoming_message(&sid("c"), &mut games, join("g2"));
    process_incoming_message(&sid("d"), &mut games, join("g2"));
    process_disconnect(&sid("c"), &mut games);
    assert!(members(&games, 0).is_empty());
    assert_eq!(members(&games, 1), vec!["d".to_string()]);
    let r = process_incoming_message(
        &sid("h1"),
        &mut games,
        IncomingMessage::RejectJoin { game_id: gid("g1"), client_id: sid("c"), reason: "gone".to_string() },
    );
    assert!(r.self_message.is_none());
    match &r.other_message {
        Some((to, OutgoingMessage::RejectJoin { game_id, reason })) => {
            assert_eq!(to.0, "c");
            assert_eq!(game_id.0, "g1");
            assert_eq!(reason, "gone");
        }
        other => panic!("expected rejectJoin, got {:?}", other),
    }
    assert_eq!(members(&games, 1), vec!["d".to_string()]);
}

#[test]
fn update_by_non_host_is_refused() {
    let mut games = Games::new();
    process_incoming_message(&sid("h"), &mut games, create("G", 4, Some("g1")));
    let r = process_incoming_message(
        &sid("c"),
        &mut games,
        IncomingMessage::UpdateGameInfo {
            server_name: "Hijack".to_string(),
            player_amount: 9,
            max_players: 9,
            requires_password: Some(true),
        },
    );
    assert_eq!(error_reason(&r), "You're not a game host");
    let listed = games.list();
    assert_eq!(listed[0].server_name, "G");
    assert_eq!(listed[0].player_amount, 1);
    assert_eq!(listed[0].max_players, 4);
    assert!(!listed[0].requires_password);
}

#[test]
fn update_by_host_changes_info() {
    let mut games = Games::new();
    process_incoming_message(&sid("h"), &mut games, create("G", 4, Some("g1")));
    let r = process_incoming_message(
        &sid("h"),
        &mut games,
        IncomingMessage::UpdateGameInfo {
            server_name: "Renamed".to_string(),
            player_amount: 3,
            max_players: 6,
            requires_password: Some(true),
        },
    );
    assert!(is_nothing(&r));
    let listed = games.list();
    assert_eq!(listed[0].server_name, "Renamed");
    assert_eq!(listed[0].player_amount, 3);
    assert_eq!(listed[0].max_players, 6);
    assert!(listed[0].requires_password);
}

#[test]
fn list_games_reply() {
    let mut games = Games::new();
    process_incoming_message(
        &sid("h"),
        &mut games,
        IncomingMessage::CreateGame {
            server_name: "Locked".to_string(),
            max_players: 8,
            game_id: Some(gid("g9")),
            requires_password: Some(true),
        },
    );
    let r = process_incoming_message(&sid("x"), &mut games, IncomingMessage::ListGames);
    match &r.self_message {
        Some(OutgoingMessage::GameList { games: list }) => {
            assert_eq!(list.len(), 1);
            assert_eq!(list[0].game_id.0, "g9");
            assert_eq!(list[0].server_name, "Locked");
            assert_eq!(list[0].player_amount, 1);
            assert_eq!(list[0].max_players, 8);
            assert!(list[0].requires_password);
        }
        other => panic!("expected gameList, got {:?}", other),
    }
    assert!(r.other_message.is_none());
}

#[test]
fn client_signaling_reaches_host() {
    let mut games = Games::new();
    process_incoming_message(&sid("h"), &mut games, create("G", 4, Some("g1")));
    process_incoming_message(&sid("c"), &mut games, join("g1"));
    let r = process_incoming_message(&sid("c"), &mut games, signal(None, "answer"));
    match &r.other_message {
        Some((to, OutgoingMessage::WebrtcSignaling { game_id, client_id, .. })) => {
            assert_eq!(to.0, "h");
            assert_eq!(game_id.0, "g1");
            assert_eq!(client_id.as_ref().map(|c| c.0.as_str()), Some("c"));
        }
        other => panic!("expected webrtcSignaling, got {:?}", other),
    }
    let r = process_incoming_message(&sid("stranger"), &mut games, signal(None, "answer"));
    assert!(is_nothing(&r));
}

#[test]
fn join_passes_password_to_host() {
    let mut games = Games::new();
    process_incoming_message(&sid("h"), &mut games, create("G", 4, Some("g1")));
    let r = process_incoming_message(
        &sid("c"),
        &mut games,
        IncomingMessage::JoinGame { game_id: gid("g1"), password: Some("pw".to_string()) },
    );
    match &r.other_message {
        Some((_, OutgoingMessage::NewClient { password, .. })) => assert_eq!(password.as_deref(), Some("pw")),
        other => panic!("expected newClient, got {:?}", other),
    }
}

#[test]
fn member_of_two_games_quirk() {
    let mut games = Games::new();
    process_incoming_message(&sid("h1"), &mut games, create("A", 4, Some("g1")));
    process_incoming_message(&sid("h2"), &mut games, create("B", 4, Some("g2")));
    process_incoming_message(&sid("c"), &mut games, join("g1"));
    process_incoming_message(&sid("c"), &mut games, join("g2"));
    assert_eq!(members(&games, 0), vec!["c".to_string()]);
    assert_eq!(members(&games, 1), vec!["c".to_string()]);
    // A rejection from one game removes the client from every game.
    process_incoming_message(
        &sid("h2"),
        &mut games,
        IncomingMessage::RejectJoin { game_id: gid("g2"), client_id: sid("c"), reason: "no".to_string() },
    );
    assert!(members(&games, 0).is_empty());
    assert!(members(&games, 1).is_empty());
}

#[test]
fn socket_events() {
    let mut games = Games::new();
    let me = sid("me");
    let step = handle_event(&me, &mut games, SocketEvent::NotText);
    assert!(step.keep_running);
    assert_eq!(error_reason(&step.messages), "Invalid message");
    let step = handle_event(&me, &mut games, SocketEvent::Invalid { error: "expected value".to_string() });
    assert!(step.keep_running);
    assert_eq!(error_reason(&step.messages), "Invalid message: expected value");
    let step = handle_event(&me, &mut games, SocketEvent::Empty);
    assert!(step.keep_running);
    assert_eq!(error_reason(&step.messages), "Invalid message");
    let step = handle_event(&me, &mut games, SocketEvent::Message(create("G", 2, Some("g1"))));
    assert!(step.keep_running);
    assert_eq!(created_id(&step.messages), "g1");
    // A read failure ends the connection and removes the game it hosts.
    let step = handle_event(&me, &mut games, SocketEvent::ReceiveError);
    assert!(!step.keep_running && is_nothing(&step.messages));
    assert!(games.list().is_empty());
}

#[test]
fn directory_operations() {
    let mut games = Games::new();
    games.add(Game {
        game_id: gid("g1"),
        host: sid("h"),
        clients: Vec::new(),
        game_info: GameInfo { server_name: "S".to_string(), player_amount: 1, max_players: 2, requires_password: false },
    });
    assert!(!games.update_info(
        &sid("x"),
        GameInfo { server_name: "T".to_string(), player_amount: 1, max_players: 2, requires_password: false },
    ));
    assert_eq!(games.join_game(&gid("g1"), &sid("c")).unwrap().0, "h");
    assert_eq!(games.get_game_by_client(&sid("c")).unwrap().game_id.0, "g1");
    assert!(games.get_game_by_client(&sid("h")).is_none());
    assert_eq!(games.get_game_by_host(&sid("h")).unwrap().game_id.0, "g1");
    games.remove_client(&sid("c"));
    assert!(games.get_game_by_client(&sid("c")).is_none());
    assert!(!games.remove_game(&sid("c")));
    assert!(games.remove_game(&sid("h")));
    assert!(games.list().is_empty());
}

#[test]
fn route_with_chosen_id() {
    let mut games = Games::new();
    let r = route_message(&sid("h"), &mut games, create("G", 3, None), gid("chosen"));
    assert_eq!(created_id(&r), "chosen");
    let r = route_message(&sid("h2"), &mut games, create("G", 3, Some("own")), gid("unused"));
    assert_eq!(created_id(&r), "own");
}

#[test]
fn registry_lifecycle() {
    let mut sockets = Sockets::new();
    let (a, _rx_a) = sockets.register();
    let (b, _rx_b) = sockets.register();
    assert_ne!(a.0, b.0);
    assert!(sockets.get(&a).is_some());
    sockets.unregister(&a);
    assert!(sockets.get(&a).is_none());
    assert!(sockets.get(&b).is_some());
    sockets.unregister(&a);
    assert!(sockets.get(&b).is_some());
}
