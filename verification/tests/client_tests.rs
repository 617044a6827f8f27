use tsurust::board::{seg, CellCoord, Move, Player, PlayerID, PlayerPos, Segment, Tile};
use tsurust::client::{can_join_by_code, can_join_listing, can_spectate_listing, color_to_name, keep_local_rotations, turn_timer_label, ConnectionState, ConnectionStatus, LobbyBoard, PlayerCard};
use tsurust::client_session::{AppState, ClientEffect, ClientState, JoinScreenRequest};
use tsurust::protocol::{ClientMessage, LobbyListing, ServerMessage};
use tsurust::game::{Game, GameExport, GameMetadata, GameMode};
use tsurust::lobby::{Lobby, LobbyEvent, LobbyId};
use tsurust::replay::{PlaybackStatus, ReplayState};

fn create_test_export() -> GameExport {
    let players = vec![Player {
        id: 1,
        pos: PlayerPos { cell: CellCoord { row: 1, col: 1 }, endpoint: 0 },
        alive: true,
        has_moved: false,
        color: (255, 0, 0),
    }];
    let mut game = Game::new(players);

    // Three moves that each keep the pawn on the board: a straight tile
    // carries it from (1,1) down to (2,1), curves then to (2,0) and (3,0).
    let straight = Tile {
        segments: [Segment { a: 0, b: 1 }, Segment { a: 2, b: 3 }, Segment { a: 4, b: 5 }, Segment { a: 6, b: 7 }],
    };
    let curve = Tile {
        segments: [Segment { a: 0, b: 2 }, Segment { a: 1, b: 3 }, Segment { a: 4, b: 6 }, Segment { a: 5, b: 7 }],
    };
    for (tile, row, col) in [(straight, 1, 1), (curve, 2, 1), (curve, 2, 0)] {
        game.hands.get_mut(&1).unwrap().push(tile);
        let mov = Move { player_id: 1, cell: CellCoord { row, col }, tile };
        game.perform_move(mov).expect("each move keeps the pawn on the board");
    }
    assert_eq!(game.board.history.len(), 3);

    let metadata = GameMetadata {
        game_mode: GameMode::Local,
        room_id: None,
        room_name: Some("Test".to_string()),
        completed: false,
        winner_id: None,
        total_turns: game.board.history.len(),
        player_names: vec![(1, "Player 1".to_string())],
    };

    game.export(metadata, None)
}

#[test]
fn test_replay_step_forward_backward() {
    let export = create_test_export();
    let mut replay_state = ReplayState::new(export);

    assert_eq!(replay_state.current_move_index, 0);
    assert!(replay_state.can_step_forward());
    assert!(!replay_state.can_step_backward());

    replay_state.step_forward();
    assert_eq!(replay_state.current_move_index, 1);
    assert!(replay_state.can_step_backward());
    assert!(replay_state.can_step_forward());

    replay_state.step_backward();
    assert_eq!(replay_state.current_move_index, 0);
    assert!(!replay_state.can_step_backward());
}

#[test]
fn test_replay_jump_to_move() {
    let export = create_test_export();
    let mut replay_state = ReplayState::new(export);

    replay_state.set_move_index(2);
    assert_eq!(replay_state.current_move_index, 2);

    let end_index = replay_state.export.game_state.board.history.len();
    replay_state.set_move_index(end_index);
    assert_eq!(replay_state.current_move_index, end_index);
    assert!(!replay_state.can_step_forward());
}

#[test]
fn test_replay_playback_status() {
    let export = create_test_export();
    let mut replay_state = ReplayState::new(export);

    assert_eq!(replay_state.playback_status, PlaybackStatus::Paused);

    replay_state.play();
    assert_eq!(replay_state.playback_status, PlaybackStatus::Playing);

    replay_state.pause();
    assert_eq!(replay_state.playback_status, PlaybackStatus::Paused);
}

#[test]
fn replay_rebuilds_the_board_move_by_move() {
    let export = create_test_export();
    let total = export.game_state.board.history.len();
    let mut replay_state = ReplayState::new(export);
    let game = replay_state.jump_to_end().unwrap();
    assert_eq!(game.board.history.len(), total);
    assert!(replay_state.step_forward().is_none(), "nothing left to replay");
    let game = replay_state.step_backward().unwrap();
    assert_eq!(game.board.history.len(), total - 1);
    assert!(replay_state.set_move_index(total + 1).is_none());
    assert_eq!(replay_state.current_move_index, total - 1);
    let start = replay_state.jump_to_start().unwrap();
    assert!(start.board.history.is_empty());
    assert_eq!(start.players[0].pos, PlayerPos::new(1, 1, 0), "players start where their trails do");
}

#[test]
fn outer_endpoints_are_the_border_ones() {
    let lobby = Lobby::new(LobbyId(1), "L".to_string());
    let board = LobbyBoard::new(&lobby, 3);
    assert_eq!(board.current_player_id, 3);
    assert!(board.is_outer_endpoint(0, 2, 4));
    assert!(board.is_outer_endpoint(0, 2, 5));
    assert!(!board.is_outer_endpoint(0, 2, 0));
    assert!(board.is_outer_endpoint(5, 1, 1));
    assert!(board.is_outer_endpoint(3, 0, 6));
    assert!(board.is_outer_endpoint(3, 5, 3));
    assert!(!board.is_outer_endpoint(2, 2, 4));
    // a corner cell has two outer sides
    assert!(board.is_outer_endpoint(0, 0, 4));
    assert!(board.is_outer_endpoint(0, 0, 7));
    assert!(!board.is_outer_endpoint(0, 0, 2));
}

#[test]
fn player_cards_are_built_up() {
    let player = Player::new(2, PlayerPos::new(0, 2, 4));
    let card = PlayerCard::new(&player, 2, true);
    assert_eq!(card.hand_size, 2);
    assert_eq!(card.max_hand_size, 3);
    assert!(!card.is_current && !card.is_winner && card.has_dragon);
    let card = card.current_player().winner();
    assert!(card.is_current && card.is_winner);
    assert_eq!(card.player.id, 2);
}

#[test]
fn colors_and_timers_have_names() {
    assert_eq!(color_to_name((255, 0, 0)), "Red");
    assert_eq!(color_to_name((128, 0, 128)), "Purple");
    assert_eq!(color_to_name((255, 128, 0)), "Orange");
    assert_eq!(color_to_name((1, 2, 3)), "Unknown");
    assert_eq!(turn_timer_label(None), "No timer");
    assert_eq!(turn_timer_label(Some(60)), "1 minute");
    assert_eq!(turn_timer_label(Some(86_400)), "24 hours (correspondence)");
    assert_eq!(turn_timer_label(Some(45)), "Custom");
}

#[test]
fn connection_status_carries_the_reason() {
    let status = ConnectionStatus::Disconnected { reason: "connection closed".to_string() };
    match status {
        ConnectionStatus::Disconnected { reason } => assert_eq!(reason, "connection closed"),
        _ => panic!("expected a disconnection"),
    }
    assert!(matches!(ConnectionStatus::Connecting.clone(), ConnectionStatus::Connecting));
}

#[test]
fn messages_wait_for_the_connection_and_the_first_loss_reason_stays() {
    let mut conn = ConnectionState::new();
    assert!(matches!(conn.status, ConnectionStatus::Connecting));
    assert!(conn.outgoing(ClientMessage::ListLobbies).is_none());
    assert!(conn.outgoing(ClientMessage::GetGameState { room_id: "R".to_string() }).is_none());
    let flushed = conn.opened();
    assert_eq!(flushed.len(), 2);
    assert!(matches!(flushed[0], ClientMessage::ListLobbies));
    assert!(conn.connected);
    assert!(matches!(conn.outgoing(ClientMessage::ListLobbies), Some(ClientMessage::ListLobbies)));
    conn.failed("reset by peer");
    conn.closed();
    assert!(!conn.connected);
    match &conn.status {
        ConnectionStatus::Disconnected { reason } => assert_eq!(reason, "connection error: reset by peer"),
        _ => panic!("expected a disconnection"),
    }
}

/// Local tile rotations are presentation-only and must survive a game state
/// update; the server's (unrotated) tiles would otherwise snap rotated tiles
/// back after every opponent move.
#[test]
fn local_rotations_survive_game_state_updates() {
    let me: PlayerID = 1;
    let mut server_game = Game::new(vec![
        Player::new(1, PlayerPos::new(0, 2, 5)),
        Player::new(2, PlayerPos::new(5, 3, 0)),
    ]);
    // Pin a rotation-asymmetric tile into my first slot on both sides.
    let known = Tile::new([seg(0, 2), seg(1, 3), seg(4, 6), seg(5, 7)]);
    server_game.hands.get_mut(&me).expect("my hand")[0] = known;

    let rotated = known.rotated(true);
    assert_ne!(rotated, known, "test tile must be rotation-asymmetric");

    // The client's copy has the tile rotated for planning.
    let mut client_game = server_game.clone();
    client_game.hands.get_mut(&me).expect("my hand")[0] = rotated;

    let mut client = ClientState {
        app_state: AppState::OnlineGame {
            game: client_game,
            room_id: "ROOM".to_string(),
            lobby_name: "Room".to_string(),
            waiting_for_server: true,
            hand_counts: server_game.hand_counts(),
            is_spectator: false,
        },
        current_room_id: Some("ROOM".to_string()),
        current_player_id: me,
        turn_clock_secs: None,
    };

    let mut counts = server_game.hand_counts();
    counts.insert(2, 2);
    let effect = client.handle_server_message(ServerMessage::GameStateUpdate {
        room_id: "ROOM".to_string(),
        state: server_game.clone(),
        hand_counts: counts.clone(),
        deck_count: server_game.deck_count(),
        turn_deadline_secs: Some(30),
    });
    assert!(matches!(effect, ClientEffect::AnimateTurn));

    let AppState::OnlineGame { game, waiting_for_server, hand_counts, .. } = &client.app_state else {
        panic!("should stay in the online game");
    };
    assert!(!waiting_for_server);
    assert_eq!(hand_counts, &counts, "the hand counts come from the server");
    assert_eq!(game.hands[&me][0], rotated, "my local rotation should survive the server update");
    assert_eq!(game.hands[&2], server_game.hands[&2], "the opponent's hand comes straight from the server");
}

fn join_form(pending: Option<JoinScreenRequest>) -> ClientState {
    ClientState {
        app_state: AppState::JoinLobbyForm {
            lobby_id: "ABCD".to_string(),
            player_name: "Alice".to_string(),
            pending,
            lobbies: Vec::new(),
        },
        current_room_id: None,
        current_player_id: 1,
        turn_clock_secs: None,
    }
}

#[test]
fn server_error_releases_a_pending_join() {
    let mut client = join_form(Some(JoinScreenRequest::Join));
    let effect = client.handle_server_message(ServerMessage::Error { message: "Room 'ABCD' not found".to_string() });
    match effect {
        ClientEffect::ShowError { message } => assert_eq!(message, "Room 'ABCD' not found"),
        _ => panic!("the error should be shown"),
    }
    match &client.app_state {
        AppState::JoinLobbyForm { lobby_id, pending, .. } => {
            assert_eq!(lobby_id, "ABCD");
            assert!(pending.is_none());
        }
        _ => panic!("should stay on the join form"),
    }
}

#[test]
fn join_confirmation_enters_a_provisional_lobby() {
    let mut client = join_form(Some(JoinScreenRequest::Join));
    client.handle_server_message(ServerMessage::PlayerJoined {
        room_id: "ABCD".to_string(),
        player_id: 3,
        player_name: "Alice".to_string(),
    });
    assert_eq!(client.current_room_id.as_deref(), Some("ABCD"));
    assert_eq!(client.current_player_id, 3);
    match &client.app_state {
        AppState::Lobby(lobby) => {
            assert_eq!(lobby.name, "Room ABCD");
            assert_eq!(lobby.players.len(), 1);
            assert_eq!(lobby.players[&3].name, "Alice");
        }
        _ => panic!("should enter the lobby"),
    }
    // A second join is another player's: the identity stays.
    client.handle_server_message(ServerMessage::PlayerJoined {
        room_id: "ABCD".to_string(),
        player_id: 4,
        player_name: "Bob".to_string(),
    });
    assert_eq!(client.current_player_id, 3);
    match &client.app_state {
        AppState::Lobby(lobby) => assert_eq!(lobby.players.len(), 2),
        _ => panic!("should stay in the lobby"),
    }
}

#[test]
fn lobby_state_and_game_start_move_the_client_on() {
    let mut client = join_form(Some(JoinScreenRequest::Join));
    let mut lobby = Lobby::new(LobbyId(7), "Friday".to_string());
    lobby.handle_event(LobbyEvent::PlayerJoined { player_id: 1, player_name: "Alice".to_string() }).unwrap();
    client.handle_server_message(ServerMessage::LobbyStateUpdate { room_id: "ABCD".to_string(), lobby });
    assert!(matches!(&client.app_state, AppState::Lobby(l) if l.name == "Friday"));

    let game = Game::new(vec![Player::new(1, PlayerPos::new(0, 2, 5)), Player::new(2, PlayerPos::new(5, 3, 0))]);
    let counts = game.hand_counts();
    client.handle_server_message(ServerMessage::GameStarted {
        room_id: "ABCD".to_string(),
        game,
        hand_counts: counts.clone(),
        turn_deadline_secs: None,
    });
    match &client.app_state {
        AppState::OnlineGame { room_id, lobby_name, waiting_for_server, is_spectator, hand_counts, .. } => {
            assert_eq!(hand_counts, &counts);
            assert_eq!(hand_counts.get(&1), Some(&3));
            assert_eq!(room_id, "ABCD");
            assert_eq!(lobby_name, "Friday");
            assert!(!waiting_for_server);
            assert!(!is_spectator);
        }
        _ => panic!("the game should start"),
    }
}

#[test]
fn spectating_enters_the_game_as_nobody() {
    let mut client = join_form(Some(JoinScreenRequest::Spectate {
        room_id: "WXYZ".to_string(),
        room_name: "Finals".to_string(),
    }));
    let game = Game::new(vec![Player::new(1, PlayerPos::new(0, 2, 5)), Player::new(2, PlayerPos::new(5, 3, 0))]);
    // A state for another room changes nothing.
    let update = |room: &str, state: Game| ServerMessage::GameStateUpdate {
        room_id: room.to_string(),
        hand_counts: state.hand_counts(),
        deck_count: state.deck_count(),
        state,
        turn_deadline_secs: None,
    };
    client.handle_server_message(update("ABCD", game.clone()));
    assert!(matches!(&client.app_state, AppState::JoinLobbyForm { .. }));
    client.handle_server_message(update("WXYZ", game));
    assert_eq!(client.current_room_id.as_deref(), Some("WXYZ"));
    assert_eq!(client.current_player_id, 0);
    match &client.app_state {
        AppState::OnlineGame { lobby_name, is_spectator, .. } => {
            assert_eq!(lobby_name, "Finals");
            assert!(is_spectator);
        }
        _ => panic!("should watch the game"),
    }
}

#[test]
fn lobby_list_fills_the_join_form() {
    let mut client = join_form(None);
    let listing = LobbyListing {
        room_id: "ABCD".to_string(),
        name: "Friday".to_string(),
        player_count: 2,
        max_players: 8,
        in_progress: false,
    };
    client.handle_server_message(ServerMessage::LobbyList { lobbies: vec![listing] });
    match &client.app_state {
        AppState::JoinLobbyForm { lobbies, .. } => {
            assert_eq!(lobbies.len(), 1);
            assert_eq!(lobbies[0].name, "Friday");
        }
        _ => panic!("should stay on the join form"),
    }
}

/// A tile that was replaced by the server is taken as the server sends it.
#[test]
fn replaced_tiles_are_not_kept() {
    let a = Tile::new([seg(0, 2), seg(1, 3), seg(4, 6), seg(5, 7)]);
    let b = Tile::new([seg(0, 1), seg(2, 3), seg(4, 5), seg(6, 7)]);
    let local = vec![a.rotated(true), b];
    let mut received = vec![b, a, a];
    keep_local_rotations(&local, &mut received);
    assert_eq!(received, vec![b, a, a]);
    let mut received = vec![a, b, a];
    keep_local_rotations(&local, &mut received);
    assert_eq!(received, vec![a.rotated(true), b, a]);
}

#[test]
fn the_replay_viewer_follows_its_controls() {
    let mut client = ClientState::new();
    client.open_replay(create_test_export());
    let at = |client: &ClientState| match &client.app_state {
        AppState::ReplayViewer { replay_state, current_game } => {
            (replay_state.current_move_index, current_game.board.history.len(), replay_state.playback_status)
        }
        _ => panic!("in the replay viewer"),
    };
    assert_eq!(at(&client), (0, 0, PlaybackStatus::Paused));
    client.handle_replay_step_forward();
    assert_eq!(at(&client), (1, 1, PlaybackStatus::Paused));
    client.handle_replay_play();
    assert_eq!(at(&client), (1, 1, PlaybackStatus::Playing));
    client.handle_replay_jump_to_end();
    assert_eq!(at(&client), (3, 3, PlaybackStatus::Playing));
    // No move is left: nothing changes.
    client.handle_replay_step_forward();
    assert_eq!(at(&client), (3, 3, PlaybackStatus::Playing));
    client.handle_replay_pause();
    client.handle_replay_step_backward();
    assert_eq!(at(&client), (2, 2, PlaybackStatus::Paused));
    client.handle_replay_jump_to_move(9);
    assert_eq!(at(&client), (2, 2, PlaybackStatus::Paused));
    client.handle_replay_jump_to_move(1);
    assert_eq!(at(&client), (1, 1, PlaybackStatus::Paused));
    client.handle_replay_jump_to_start();
    assert_eq!(at(&client), (0, 0, PlaybackStatus::Paused));
    client.handle_replay_step_backward();
    assert_eq!(at(&client), (0, 0, PlaybackStatus::Paused));
    client.handle_exit_replay();
    assert!(matches!(client.app_state, AppState::MainMenu));
}

#[test]
fn the_join_screen_gates_its_buttons() {
    let open = LobbyListing { room_id: "ABCD".to_string(), name: "Friday".to_string(), player_count: 2, max_players: 8, in_progress: false };
    let full = LobbyListing { player_count: 8, ..open.clone() };
    let playing = LobbyListing { in_progress: true, ..open.clone() };
    let alice = "Alice".to_string();
    let blank = "   ".to_string();
    assert!(can_join_listing(&open, &alice, true));
    assert!(!can_join_listing(&open, &alice, false), "a request is on its way");
    assert!(!can_join_listing(&open, &blank, true), "no name");
    assert!(!can_join_listing(&full, &alice, true), "full");
    assert!(!can_join_listing(&playing, &alice, true), "started");
    assert!(can_spectate_listing(&playing, true));
    assert!(!can_spectate_listing(&open, true));
    assert!(can_join_by_code(&" abcd ".to_string(), &alice, true));
    assert!(!can_join_by_code(&"abc".to_string(), &alice, true));
    assert!(!can_join_by_code(&"ABCD".to_string(), &blank, true));
    assert!(!can_join_by_code(&"ABCD".to_string(), &alice, false));
}

#[test]
fn unicode_white_space_is_trimmed_from_a_code_and_a_name() {
    let alice = "Alice".to_string();
    // ideographic space, no-break space and a line separator around the code
    assert!(can_join_by_code(&"\u{3000}ABCD\u{a0}\u{2028}".to_string(), &alice, true));
    // a name of ogham space marks and tabs is no name
    let blank = "\u{1680}\t\u{1680}".to_string();
    let open = LobbyListing { room_id: "ABCD".to_string(), name: "Friday".to_string(), player_count: 2, max_players: 8, in_progress: false };
    assert!(!can_join_listing(&open, &blank, true));
    // a zero-width space is not white space
    assert!(!can_join_by_code(&"\u{200b}ABCD".to_string(), &alice, true));
}
