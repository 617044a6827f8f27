use tsurust::board::PlayerPos;
use tsurust::lobby::Visibility;
use tsurust::protocol::{ClientMessage, ServerMessage};
use tsurust::room::{GameRoom, RoomPhase};
use tsurust::session::{handle_request, request_room_code, ConnAction, Connection};

fn fresh() -> Connection {
    Connection { room: None, player: None }
}

/// Creates room `code` for Alice; returns the room and her connection.
fn created(code: &str) -> (GameRoom, Connection) {
    let mut conn = fresh();
    let msg = ClientMessage::CreateRoom {
        room_name: "Table".to_string(),
        creator_name: "Alice".to_string(),
        visibility: Visibility::Public,
        turn_timer_secs: None,
    };
    assert_eq!(request_room_code(&msg), None);
    let (room, result) = handle_request(None, &mut conn, msg, code.to_string());
    let actions = result.expect("a room is always created");
    assert_eq!(actions.len(), 3);
    assert!(matches!(&actions[0], ConnAction::Subscribe(c) if c == code));
    assert!(matches!(&actions[1], ConnAction::Reply(ServerMessage::LobbyStateUpdate { room_id, lobby })
        if room_id == code && lobby.players.len() == 1));
    assert!(matches!(&actions[2], ConnAction::Reply(ServerMessage::RoomCreated { room_id, player_id: 1 })
        if room_id == code));
    (room.expect("the new room comes back"), conn)
}

#[test]
fn creating_a_room_seats_the_creator_as_player_one() {
    let (room, conn) = created("ABCD");
    assert_eq!(room.id, "ABCD");
    assert_eq!(conn.room.as_deref(), Some("ABCD"));
    assert_eq!(conn.player, Some(1));
    assert!(matches!(room.phase, RoomPhase::Lobby(_)));
}

#[test]
fn joining_a_room_that_is_not_there_is_refused() {
    let mut conn = fresh();
    let msg = ClientMessage::JoinRoom { room_id: "ZZZZ".to_string(), player_name: "Bob".to_string() };
    assert_eq!(request_room_code(&msg), Some("ZZZZ".to_string()));
    let (room, result) = handle_request(None, &mut conn, msg, "QQQQ".to_string());
    assert!(room.is_none());
    assert_eq!(result.err(), Some("Room 'ZZZZ' not found".to_string()));
    assert_eq!(conn.room, None);
    assert_eq!(conn.player, None);
}

#[test]
fn joining_a_room_subscribes_and_answers_with_the_new_id() {
    let (room, _alice) = created("ABCD");
    let mut bob = fresh();
    let msg = ClientMessage::JoinRoom { room_id: "ABCD".to_string(), player_name: "Bob".to_string() };
    let (room, result) = handle_request(Some(room), &mut bob, msg, "QQQQ".to_string());
    let actions = result.expect("Bob joins");
    assert!(room.is_some());
    assert_eq!(bob.room.as_deref(), Some("ABCD"));
    assert_eq!(bob.player, Some(2));
    assert_eq!(actions.len(), 3);
    assert!(matches!(&actions[0], ConnAction::Subscribe(c) if c == "ABCD"));
    assert!(matches!(&actions[1], ConnAction::Reply(ServerMessage::LobbyStateUpdate { lobby, .. })
        if lobby.players.len() == 2));
    assert!(matches!(&actions[2], ConnAction::Reply(ServerMessage::PlayerJoined { player_id: 2, player_name, .. })
        if player_name == "Bob"));
}

#[test]
fn a_connection_cannot_act_for_another_player_or_room() {
    let (room, mut alice) = created("ABCD");
    let msg = ClientMessage::PlacePawn { room_id: "ABCD".to_string(), player_id: 3, position: PlayerPos::new(0, 2, 5) };
    let (room, result) = handle_request(Some(room), &mut alice, msg, "QQQQ".to_string());
    assert_eq!(result.err(), Some("This connection cannot act as player 3".to_string()));
    let msg = ClientMessage::StartGame { room_id: "WXYZ".to_string() };
    let (_room, result) = handle_request(room, &mut alice, msg, "QQQQ".to_string());
    assert_eq!(result.err(), Some("This connection is not in room 'WXYZ'".to_string()));
    assert_eq!(alice.player, Some(1));
}

#[test]
fn a_lobby_cannot_be_spectated_or_asked_for_its_game() {
    let (room, _alice) = created("ABCD");
    let mut watcher = fresh();
    let msg = ClientMessage::SpectateRoom { room_id: "ABCD".to_string() };
    let (room, result) = handle_request(Some(room), &mut watcher, msg, "QQQQ".to_string());
    assert_eq!(result.err(), Some("Room 'ABCD' has not started its game".to_string()));
    assert_eq!(watcher.room, None);
    let msg = ClientMessage::GetGameState { room_id: "ABCD".to_string() };
    let (room, result) = handle_request(room, &mut watcher, msg, "QQQQ".to_string());
    assert!(room.is_some());
    assert_eq!(result.err(), Some("Room 'ABCD' has not started its game".to_string()));
}

#[test]
fn placing_a_pawn_through_a_request_reaches_the_lobby() {
    let (room, mut alice) = created("ABCD");
    let msg = ClientMessage::PlacePawn { room_id: "ABCD".to_string(), player_id: 1, position: PlayerPos::new(0, 2, 5) };
    let (room, result) = handle_request(Some(room), &mut alice, msg, "QQQQ".to_string());
    assert_eq!(result.map(|a| a.len()), Ok(0));
    let room = room.expect("the room stays");
    let RoomPhase::Lobby(lobby) = &room.phase else { panic!("still a lobby") };
    assert_eq!(lobby.players.get(&1).and_then(|p| p.spawn_position), Some(PlayerPos::new(0, 2, 5)));
}

#[test]
fn leaving_unsubscribes_and_an_empty_room_goes() {
    let (room, _alice) = created("ABCD");
    let mut bob = fresh();
    let msg = ClientMessage::JoinRoom { room_id: "ABCD".to_string(), player_name: "Bob".to_string() };
    let (room, _) = handle_request(Some(room), &mut bob, msg, "QQQQ".to_string());

    let msg = ClientMessage::LeaveRoom { room_id: "ABCD".to_string(), player_id: 2 };
    let (room, result) = handle_request(room, &mut bob, msg, "QQQQ".to_string());
    let actions = result.expect("Bob may leave");
    assert_eq!(actions.len(), 2);
    assert!(matches!(actions[0], ConnAction::Unsubscribe));
    assert!(matches!(&actions[1], ConnAction::ArmTurnClock(c) if c == "ABCD"));
    assert!(room.is_some(), "Alice is still there");
    assert_eq!(bob.room, None);
    assert_eq!(bob.player, None);

    let mut alice = Connection { room: Some("ABCD".to_string()), player: Some(1) };
    let msg = ClientMessage::LeaveRoom { room_id: "ABCD".to_string(), player_id: 1 };
    let (room, result) = handle_request(room, &mut alice, msg, "QQQQ".to_string());
    assert_eq!(result.map(|a| a.len()), Ok(1));
    assert!(room.is_none(), "nobody is left");
}

#[test]
fn listing_lobbies_is_left_to_the_directory() {
    let mut conn = fresh();
    let (room, result) = handle_request(None, &mut conn, ClientMessage::ListLobbies, "QQQQ".to_string());
    assert!(room.is_none());
    let actions = result.expect("always answered");
    assert_eq!(actions.len(), 1);
    assert!(matches!(actions[0], ConnAction::SendLobbyList));
}

#[test]
fn a_game_state_reply_hides_other_hands_but_counts_them() {
    let (room, mut alice) = created("ABCD");
    let mut bob = fresh();
    let join = ClientMessage::JoinRoom { room_id: "ABCD".to_string(), player_name: "Bob".to_string() };
    let (room, _) = handle_request(Some(room), &mut bob, join, "QQQQ".to_string());
    let pawn = |player_id, position| ClientMessage::PlacePawn { room_id: "ABCD".to_string(), player_id, position };
    let (room, r) = handle_request(room, &mut alice, pawn(1, PlayerPos::new(0, 2, 5)), "QQQQ".to_string());
    assert!(r.is_ok());
    let (room, r) = handle_request(room, &mut bob, pawn(2, PlayerPos::new(5, 3, 0)), "QQQQ".to_string());
    assert!(r.is_ok());
    let start = ClientMessage::StartGame { room_id: "ABCD".to_string() };
    let (room, result) = handle_request(room, &mut alice, start, "QQQQ".to_string());
    let actions = result.expect("two placed players can start");
    assert!(matches!(&actions[..], [ConnAction::ArmTurnClock(c)] if c == "ABCD"));

    let ask = ClientMessage::GetGameState { room_id: "ABCD".to_string() };
    let (room, result) = handle_request(room, &mut alice, ask, "QQQQ".to_string());
    assert!(room.is_some());
    let actions = result.expect("the game is on");
    let [ConnAction::Reply(ServerMessage::GameStateUpdate { room_id, state, hand_counts, deck_count, turn_deadline_secs })] =
        &actions[..]
    else {
        panic!("one game state");
    };
    assert_eq!(room_id, "ABCD");
    assert_eq!(state.hands.get(&1).map(|h| h.len()), Some(3), "Alice sees her own hand");
    assert_eq!(state.hands.get(&2).map(|h| h.len()).unwrap_or(0), 0, "but not Bob's");
    assert_eq!(hand_counts.get(&1), Some(&3));
    assert_eq!(hand_counts.get(&2), Some(&3), "Bob's hand is still counted");
    assert_eq!(*deck_count, 35 - 6);
    assert_eq!(*turn_deadline_secs, None, "an untimed room runs no clock");
}

#[test]
fn a_timed_room_runs_its_clock_once_the_game_starts() {
    let mut alice = fresh();
    let msg = ClientMessage::CreateRoom {
        room_name: "Blitz".to_string(),
        creator_name: "Alice".to_string(),
        visibility: Visibility::Private,
        turn_timer_secs: Some(45),
    };
    let (room, result) = handle_request(None, &mut alice, msg, "TIME".to_string());
    assert!(result.is_ok());
    let room = room.expect("the room is created");
    assert_eq!(room.turn_timer_secs, Some(45));
    assert!(room.turn_deadline.is_none(), "no clock runs in the lobby");

    let mut bob = fresh();
    let join = ClientMessage::JoinRoom { room_id: "TIME".to_string(), player_name: "Bob".to_string() };
    let (room, _) = handle_request(Some(room), &mut bob, join, "QQQQ".to_string());
    let pawn = |player_id, position| ClientMessage::PlacePawn { room_id: "TIME".to_string(), player_id, position };
    let (room, _) = handle_request(room, &mut alice, pawn(1, PlayerPos::new(0, 2, 5)), "QQQQ".to_string());
    let (room, _) = handle_request(room, &mut bob, pawn(2, PlayerPos::new(5, 3, 0)), "QQQQ".to_string());
    let room = room.expect("the room stays");
    let mut rx = room.update_tx.subscribe();
    let start = ClientMessage::StartGame { room_id: "TIME".to_string() };
    let (room, result) = handle_request(Some(room), &mut alice, start, "QQQQ".to_string());
    assert!(matches!(&result.expect("the game starts")[..], [ConnAction::ArmTurnClock(c)] if c == "TIME"));
    let room = room.expect("the room stays");
    assert!(room.turn_deadline.is_some(), "the first player's clock runs");
    assert!(room.turn_generation().is_some());
    let ServerMessage::GameStarted { turn_deadline_secs, hand_counts, .. } = rx.try_recv().expect("the start is broadcast")
    else {
        panic!("expected GameStarted");
    };
    assert_eq!(turn_deadline_secs, Some(45), "the start tells the whole first turn");
    assert_eq!(hand_counts.get(&2), Some(&3));
}
