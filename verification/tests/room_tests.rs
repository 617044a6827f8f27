use tsurust::board::{CellCoord, Move, Player, PlayerPos, Segment, Tile};
use tsurust::game::Game;
use tsurust::lobby::{LobbyEvent, Visibility};
use tsurust::listing::sort_listings;
use tsurust::protocol::{LobbyListing, ServerMessage};
use tsurust::room::{is_abandoned, GameRoom, RoomPhase};

fn create_test_tile() -> Tile {
    Tile::new([Segment { a: 0, b: 1 }, Segment { a: 2, b: 3 }, Segment { a: 4, b: 5 }, Segment { a: 6, b: 7 }])
}

fn two_player_game() -> Game {
    Game::new(vec![Player::new(1, PlayerPos::new(0, 0, 4)), Player::new(2, PlayerPos::new(2, 5, 2))])
}

fn in_game_room(game: Game) -> GameRoom {
    let mut room = GameRoom::new("TEST".to_string(), "Test Room".to_string(), Visibility::Private, None);
    room.phase = RoomPhase::Playing(game);
    room
}

#[test]
fn test_place_tile_validates_turn() {
    let game = two_player_game();
    assert_eq!(game.current_player_id, 1);
    let mut room = in_game_room(game);

    let mov = Move { tile: create_test_tile(), cell: CellCoord { row: 0, col: 0 }, player_id: 2 };

    let result = room.place_tile(2, mov);

    assert!(result.is_err(), "Should reject move from wrong player");
    assert!(result.unwrap_err().contains("Not your turn"), "Error message should mention turn validation");
}

#[test]
fn test_place_tile_validates_move_player_id() {
    let game = two_player_game();
    assert_eq!(game.current_player_id, 1);
    let mut room = in_game_room(game);

    let mov = Move { tile: create_test_tile(), cell: CellCoord { row: 0, col: 0 }, player_id: 2 };

    let result = room.place_tile(1, mov);

    assert!(result.is_err(), "Should reject move with mismatched player_id");
    assert!(result.unwrap_err().contains("player_id mismatch"), "Error message should mention player_id mismatch");
}

#[test]
fn test_place_tile_accepts_valid_move() {
    let mut game = two_player_game();
    assert_eq!(game.current_player_id, 1);

    let tile = create_test_tile();
    game.hands.insert(1, vec![tile]);
    let mut room = in_game_room(game);

    let mov = Move { tile, cell: CellCoord { row: 0, col: 0 }, player_id: 1 };

    let result = room.place_tile(1, mov);

    assert!(result.is_ok(), "Should accept valid move from current player");
}

#[test]
fn test_place_tile_rejected_during_lobby_phase() {
    let mut room = GameRoom::new("TEST".to_string(), "Test Room".to_string(), Visibility::Private, None);

    let mov = Move { tile: create_test_tile(), cell: CellCoord { row: 0, col: 0 }, player_id: 1 };

    let result = room.place_tile(1, mov);

    assert!(result.is_err(), "Should reject moves before the game starts");
    assert!(result.unwrap_err().contains("not started"), "Error message should mention the game hasn't started");
}

#[test]
fn test_failed_start_leaves_room_joinable() {
    let mut room = GameRoom::new("TEST".to_string(), "Test Room".to_string(), Visibility::Private, None);

    let result = room.start_game();
    assert!(result.is_err(), "an empty lobby cannot start a game");

    assert!(room.lobby().is_some(), "the lobby must survive a failed start");
    assert!(room.place_pawn(1, PlayerPos::new(0, 2, 5)).is_err(), "pawn placement still validates (player 1 never joined)");
}

#[test]
fn error_messages_name_the_players() {
    let mut room = in_game_room(two_player_game());
    let mov = Move { tile: create_test_tile(), cell: CellCoord { row: 0, col: 0 }, player_id: 2 };
    assert_eq!(room.place_tile(2, mov).unwrap_err(), "Not your turn! Current player is 1, you are 2");
    assert_eq!(room.place_tile(1, mov).unwrap_err(), "Move player_id mismatch! Expected 1, got 2");
    let far = Move { tile: create_test_tile(), cell: CellCoord { row: 3, col: 3 }, player_id: 1 };
    assert_eq!(
        room.place_tile(1, far).unwrap_err(),
        "Invalid move: the tile must be placed on the player's current cell"
    );
}

#[test]
fn a_room_goes_from_lobby_to_game_and_broadcasts() {
    let mut room = GameRoom::new("ABCD".to_string(), "Room".to_string(), Visibility::Public, Some(30));
    assert_eq!(room.turn_timer_secs, Some(30));
    let mut rx = room.update_tx.subscribe();
    if let RoomPhase::Lobby(lobby) = &mut room.phase {
        lobby.handle_event(LobbyEvent::PlayerJoined { player_id: 1, player_name: "A".to_string() }).unwrap();
        lobby.handle_event(LobbyEvent::PlayerJoined { player_id: 2, player_name: "B".to_string() }).unwrap();
    }
    assert!(room.place_pawn(1, PlayerPos::new(0, 2, 4)).is_ok());
    assert!(room.place_pawn(2, PlayerPos::new(5, 3, 0)).is_ok());
    assert!(rx.try_recv().is_ok(), "the placement was broadcast");
    assert_eq!(
        room.place_pawn(2, PlayerPos::new(0, 2, 4)).unwrap_err(),
        "Failed to place pawn: that spawn position is taken"
    );
    assert!(room.start_game().is_ok());
    assert!(room.lobby().is_none());
    assert_eq!(room.game().unwrap().players.len(), 2);
    assert_eq!(room.start_game().unwrap_err(), "Game has already started");
    assert_eq!(
        room.place_pawn(1, PlayerPos::new(0, 3, 4)).unwrap_err(),
        "Game has already started, cannot place pawns"
    );
}

#[test]
fn disconnects_empty_the_room() {
    let mut room = GameRoom::new("ROOM".to_string(), "Room".to_string(), Visibility::Private, None);
    if let RoomPhase::Lobby(lobby) = &mut room.phase {
        lobby.handle_event(LobbyEvent::PlayerJoined { player_id: 1, player_name: "A".to_string() }).unwrap();
        lobby.handle_event(LobbyEvent::PlayerJoined { player_id: 2, player_name: "B".to_string() }).unwrap();
    }
    assert!(!room.handle_disconnect(1));
    assert!(room.handle_disconnect(2), "the last player left");

    let mut room = in_game_room(two_player_game());
    assert!(!room.handle_disconnect(2));
    assert!(room.game().unwrap().is_game_over());
    assert!(room.handle_disconnect(1), "nobody is alive any more");
}

#[test]
fn rooms_are_created_with_their_creator_and_joined_in_id_order() {
    let (mut room, creator) =
        GameRoom::with_creator("ABCD".to_string(), "Room".to_string(), Visibility::Public, None, "Alice".to_string())
            .unwrap();
    assert_eq!(creator, 1);
    assert_eq!(room.lobby().unwrap().players[&1].name, "Alice");
    assert_eq!(room.lobby().unwrap().players[&1].color, (220, 50, 47));
    assert_eq!(room.join_room("Bob".to_string()), Ok(2));
    assert_eq!(room.join_room("Carol".to_string()), Ok(3));
    assert!(!room.handle_disconnect(2));
    // the next id is one more than the largest, not a freed one
    assert_eq!(room.join_room("Dave".to_string()), Ok(4));
    let listing = room.listing().unwrap();
    assert_eq!(listing.room_id, "ABCD");
    assert_eq!(listing.player_count, 3);
    assert_eq!(listing.max_players, 8);
    assert!(!listing.in_progress);
}

#[test]
fn joins_are_refused_once_the_game_runs() {
    let mut room = in_game_room(two_player_game());
    assert_eq!(room.join_room("Eve".to_string()).unwrap_err(), "Room 'TEST' has already started its game");
    // a private room is not listed
    assert!(room.listing().is_none());
    let mut full = GameRoom::new("FULL".to_string(), "Full".to_string(), Visibility::Public, None);
    if let RoomPhase::Lobby(lobby) = &mut full.phase {
        lobby.max_players = 1;
    }
    assert!(full.join_room("A".to_string()).is_ok());
    assert_eq!(full.join_room("B".to_string()).unwrap_err(), "Failed to join room 'FULL': the lobby is full");
}

#[test]
fn room_codes_are_four_capital_letters() {
    for _ in 0..20 {
        let code = tsurust::room::new_room_code();
        assert_eq!(code.len(), 4);
        assert!(code.chars().all(|c| c.is_ascii_uppercase()));
    }
}

#[test]
fn directory_lists_lobbies_first_then_by_name() {
    let row = |name: &str, in_progress: bool| LobbyListing {
        room_id: name.to_uppercase(),
        name: name.to_string(),
        player_count: 1,
        max_players: 8,
        in_progress,
    };
    let sorted = sort_listings(vec![row("zeta", false), row("alpha", true), row("beta", false), row("Gamma", false)]);
    let names: Vec<&str> = sorted.iter().map(|l| l.name.as_str()).collect();
    assert_eq!(names, vec!["Gamma", "beta", "zeta", "alpha"]);
    let in_game = in_game_room(two_player_game());
    let mut public = in_game;
    public.visibility = Visibility::Public;
    let listing = public.listing().unwrap();
    assert!(listing.in_progress);
    assert_eq!(listing.player_count, 2);
    assert_eq!(listing.max_players, 2);
}

#[test]
fn lobby_changes_are_broadcast_in_order() {
    let mut room = GameRoom::new("ABCD".to_string(), "Friday".to_string(), Visibility::Public, None);
    let mut rx = room.update_tx.subscribe();
    let id = room.join_room("Alice".to_string()).unwrap();
    match rx.try_recv().unwrap() {
        ServerMessage::PlayerJoined { room_id, player_id, player_name } => {
            assert_eq!(room_id, "ABCD");
            assert_eq!(player_id, id);
            assert_eq!(player_name, "Alice");
        }
        other => panic!("expected the join, got {other:?}"),
    }
    match rx.try_recv().unwrap() {
        ServerMessage::LobbyStateUpdate { room_id, lobby } => {
            assert_eq!(room_id, "ABCD");
            assert_eq!(lobby.players[&id].name, "Alice");
        }
        other => panic!("expected the lobby, got {other:?}"),
    }
    room.place_pawn(id, PlayerPos::new(0, 2, 4)).unwrap();
    assert!(matches!(rx.try_recv().unwrap(), ServerMessage::PawnPlaced { player_id, .. } if player_id == id));
    match rx.try_recv().unwrap() {
        ServerMessage::LobbyStateUpdate { lobby, .. } => {
            assert_eq!(lobby.players[&id].spawn_position, Some(PlayerPos::new(0, 2, 4)))
        }
        other => panic!("expected the lobby, got {other:?}"),
    }
    // A refused placement sends nothing.
    assert!(room.place_pawn(id, PlayerPos::new(2, 2, 0)).is_err());
    assert!(rx.try_recv().is_err());
}

fn survivor_tile() -> Tile {
    Tile::new([Segment { a: 4, b: 1 }, Segment { a: 5, b: 0 }, Segment { a: 2, b: 3 }, Segment { a: 6, b: 7 }])
}

/// A timed room whose game is in progress, with its clock started.
fn timed_in_game_room(game: Game, timer_secs: u64) -> GameRoom {
    let mut room = GameRoom::new("TEST".to_string(), "Test Room".to_string(), Visibility::Private, Some(timer_secs));
    room.phase = RoomPhase::Playing(game);
    room.reset_turn_clock();
    room
}

#[test]
fn test_force_current_move_picks_a_survivable_placement() {
    let mut game = two_player_game();
    // One fatal and one survivable tile: the forced move must not kill.
    game.hands.insert(1, vec![create_test_tile(), survivor_tile()]);
    let mut room = timed_in_game_room(game, 60);
    let mut rx = room.update_tx.subscribe();

    room.force_current_move().expect("a player with tiles can always be auto-played");

    let game = room.game().expect("room is still playing");
    assert_eq!(game.board.history.len(), 1, "one tile was placed");
    assert!(game.players[0].alive, "with a survivable option the auto-play never suicides");
    assert_eq!(game.current_player_id, 2, "the turn advanced");
    assert!(room.turn_deadline.is_some(), "the next player's clock is running");

    // The auto-play announces itself, then the fresh state (with a clock).
    let ServerMessage::TurnCompleted { auto_played, .. } = rx.try_recv().expect("TurnCompleted was broadcast") else {
        panic!("expected TurnCompleted first");
    };
    assert!(auto_played, "the turn is flagged as played by the server");
    let ServerMessage::GameStateUpdate { turn_deadline_secs, hand_counts, deck_count, .. } =
        rx.try_recv().expect("GameStateUpdate was broadcast")
    else {
        panic!("expected GameStateUpdate second");
    };
    assert!(turn_deadline_secs.is_some(), "the broadcast state carries the running clock");
    assert_eq!(turn_deadline_secs, Some(60), "a fresh clock has the whole turn");
    assert_eq!(hand_counts.len(), 2);
    assert_eq!(deck_count, game.deck_count());
}

#[test]
fn test_force_current_move_plays_fatal_hand_and_ends_game() {
    let mut game = two_player_game();
    // Every option is fatal, so the forced move (legally) eliminates player 1.
    game.hands.insert(1, vec![create_test_tile()]);
    let mut room = timed_in_game_room(game, 60);

    room.force_current_move().expect("an all-fatal hand is still playable");

    let game = room.game().expect("room is still playing");
    assert!(!game.players[0].alive, "player 1 drove off the edge");
    assert!(game.is_game_over(), "player 2 is the last one standing");
    assert!(room.turn_deadline.is_none(), "a finished game runs no clock");
    assert!(room.turn_generation().is_none(), "no further timers will fire");
}

#[test]
fn test_force_current_move_eliminates_player_without_tiles() {
    let mut game = two_player_game();
    game.hands.insert(1, vec![]);
    let mut room = timed_in_game_room(game, 60);

    room.force_current_move().expect("a tile-less player is eliminated, not stalled on");

    let game = room.game().expect("room is still playing");
    assert!(!game.players[0].alive);
    assert_eq!(game.board.history.len(), 0, "no tile was placed");
}

#[test]
fn test_bystander_disconnect_keeps_current_players_clock() {
    // Four players, so the game survives both disconnects below.
    let game = Game::new(vec![
        Player::new(1, PlayerPos::new(0, 0, 4)),
        Player::new(2, PlayerPos::new(2, 5, 2)),
        Player::new(3, PlayerPos::new(4, 0, 6)),
        Player::new(4, PlayerPos::new(5, 3, 0)),
    ]);
    let mut room = timed_in_game_room(game, 60);
    let deadline = room.turn_deadline.expect("clock is running");

    // Player 3 (not the turn holder) disconnects: player 1's clock must not restart.
    room.handle_disconnect(3);
    assert_eq!(room.turn_deadline, Some(deadline), "a bystander's disconnect must not gift the current player time");

    // The turn holder disconnects: the turn passes and the clock restarts.
    let start = std::time::Instant::now();
    while start.elapsed() < std::time::Duration::from_millis(5) {}
    room.handle_disconnect(1);
    let new_deadline = room.turn_deadline.expect("next player's clock runs");
    assert!(new_deadline > deadline, "the new turn holder gets a fresh clock");
}

#[test]
fn untimed_rooms_run_no_clock() {
    let mut room = in_game_room(two_player_game());
    room.reset_turn_clock();
    assert!(room.turn_deadline.is_none());
    assert_eq!(room.turn_generation(), Some((0, 1)));
}

#[test]
fn the_directory_orders_names_by_code_point_and_prefix_first() {
    let row = |name: &str| LobbyListing {
        room_id: name.to_string(),
        name: name.to_string(),
        player_count: 1,
        max_players: 8,
        in_progress: false,
    };
    let sorted = sort_listings(vec![row("\u{c4}rger"), row("Abc"), row("Zeta"), row("Ab")]);
    let names: Vec<&str> = sorted.iter().map(|l| l.name.as_str()).collect();
    assert_eq!(names, vec!["Ab", "Abc", "Zeta", "\u{c4}rger"]);
}

#[test]
fn only_unfollowed_rooms_idle_past_the_timeout_are_removed() {
    assert!(is_abandoned(0, 300, 300), "idle for exactly the timeout");
    assert!(is_abandoned(0, 1000, 300));
    assert!(!is_abandoned(0, 299, 300), "not idle long enough");
    assert!(!is_abandoned(1, 1000, 300), "a client still follows it");

    let room = GameRoom::new("IDLE".to_string(), "Idle".to_string(), Visibility::Private, None);
    let (receivers, idle_secs) = room.idle_readings();
    assert_eq!(receivers, 0, "nobody subscribed");
    assert!(idle_secs < 5, "just created");
    let _rx = room.update_tx.subscribe();
    assert_eq!(room.idle_readings().0, 1);
}
