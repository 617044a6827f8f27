use tsurust::board::PlayerPos;
use tsurust::lobby::{normalize_lobby_id, Lobby, LobbyError, LobbyEvent, LobbyId, Visibility};
use tsurust::room::new_room_code;

fn setup_ready_lobby() -> Lobby {
    let mut lobby = Lobby::new(LobbyId(1), "Test".to_string());
    lobby.handle_event(LobbyEvent::PlayerJoined { player_id: 1, player_name: "Alice".to_string() }).unwrap();
    lobby.handle_event(LobbyEvent::PlayerJoined { player_id: 2, player_name: "Bob".to_string() }).unwrap();
    lobby.handle_event(LobbyEvent::PawnPlaced { player_id: 1, position: PlayerPos::new(0, 2, 4) }).unwrap();
    lobby.handle_event(LobbyEvent::PawnPlaced { player_id: 2, position: PlayerPos::new(5, 3, 0) }).unwrap();
    lobby
}

#[test]
fn test_new_lobby() {
    let lobby = Lobby::new(LobbyId(1), "Test Room".to_string());
    assert_eq!(lobby.id, LobbyId(1));
    assert_eq!(lobby.name, "Test Room");
    assert_eq!(lobby.players.len(), 0);
    assert!(!lobby.started);
    assert!(!lobby.can_start());
    assert_eq!(lobby.max_players, 8);
    assert_eq!(lobby.visibility, Visibility::Private);
}

#[test]
fn test_player_joining() {
    let mut lobby = Lobby::new(LobbyId(1), "Test".to_string());

    let result = lobby.handle_event(LobbyEvent::PlayerJoined { player_id: 1, player_name: "Alice".to_string() });

    assert!(result.is_ok());
    assert_eq!(lobby.players.len(), 1);
    assert_eq!(lobby.players[&1].name, "Alice");
    assert_ne!(lobby.players[&1].color, (0, 0, 0));
    assert!(lobby.players[&1].spawn_position.is_none());
}

#[test]
fn test_lobby_full() {
    let mut lobby = Lobby::new(LobbyId(1), "Test".to_string());
    lobby.max_players = 2;

    lobby.handle_event(LobbyEvent::PlayerJoined { player_id: 1, player_name: "Alice".to_string() }).unwrap();
    lobby.handle_event(LobbyEvent::PlayerJoined { player_id: 2, player_name: "Bob".to_string() }).unwrap();

    let result = lobby.handle_event(LobbyEvent::PlayerJoined { player_id: 3, player_name: "Charlie".to_string() });

    assert!(matches!(result, Err(LobbyError::LobbyFull)));
}

#[test]
fn test_pawn_placement_valid() {
    let mut lobby = Lobby::new(LobbyId(1), "Test".to_string());
    lobby.handle_event(LobbyEvent::PlayerJoined { player_id: 1, player_name: "Alice".to_string() }).unwrap();

    let edge_pos = PlayerPos::new(0, 2, 4);
    let result = lobby.handle_event(LobbyEvent::PawnPlaced { player_id: 1, position: edge_pos });

    assert!(result.is_ok());
    assert_eq!(lobby.players[&1].spawn_position, Some(edge_pos));
}

#[test]
fn test_pawn_placement_invalid_position() {
    let mut lobby = Lobby::new(LobbyId(1), "Test".to_string());
    lobby.handle_event(LobbyEvent::PlayerJoined { player_id: 1, player_name: "Alice".to_string() }).unwrap();

    let center_pos = PlayerPos::new(2, 2, 0);
    let result = lobby.handle_event(LobbyEvent::PawnPlaced { player_id: 1, position: center_pos });

    assert!(matches!(result, Err(LobbyError::InvalidSpawnPosition)));
}

#[test]
fn test_pawn_placement_position_taken() {
    let mut lobby = Lobby::new(LobbyId(1), "Test".to_string());
    lobby.handle_event(LobbyEvent::PlayerJoined { player_id: 1, player_name: "Alice".to_string() }).unwrap();
    lobby.handle_event(LobbyEvent::PlayerJoined { player_id: 2, player_name: "Bob".to_string() }).unwrap();

    let edge_pos = PlayerPos::new(0, 2, 4);

    lobby.handle_event(LobbyEvent::PawnPlaced { player_id: 1, position: edge_pos }).unwrap();

    let result = lobby.handle_event(LobbyEvent::PawnPlaced { player_id: 2, position: edge_pos });

    assert!(matches!(result, Err(LobbyError::PositionTaken)));
}

#[test]
fn test_can_start_conditions() {
    let mut lobby = Lobby::new(LobbyId(1), "Test".to_string());

    assert!(!lobby.can_start());

    lobby.handle_event(LobbyEvent::PlayerJoined { player_id: 1, player_name: "Alice".to_string() }).unwrap();
    assert!(!lobby.can_start());

    lobby.handle_event(LobbyEvent::PlayerJoined { player_id: 2, player_name: "Bob".to_string() }).unwrap();
    assert!(!lobby.can_start());

    lobby.handle_event(LobbyEvent::PawnPlaced { player_id: 1, position: PlayerPos::new(0, 2, 4) }).unwrap();
    assert!(!lobby.can_start());

    lobby.handle_event(LobbyEvent::PawnPlaced { player_id: 2, position: PlayerPos::new(5, 3, 0) }).unwrap();
    assert!(lobby.can_start());
}

#[test]
fn test_start_game() {
    let mut lobby = setup_ready_lobby();

    let result = lobby.handle_event(LobbyEvent::StartGame);
    assert!(result.is_ok());
    assert!(lobby.started);
}

#[test]
fn test_start_game_not_ready() {
    let mut lobby = Lobby::new(LobbyId(1), "Test".to_string());
    lobby.handle_event(LobbyEvent::PlayerJoined { player_id: 1, player_name: "Alice".to_string() }).unwrap();

    let result = lobby.handle_event(LobbyEvent::StartGame);
    assert!(matches!(result, Err(LobbyError::NotReadyToStart)));
}

#[test]
fn test_to_game_conversion() {
    let mut lobby = setup_ready_lobby();
    lobby.handle_event(LobbyEvent::StartGame).unwrap();

    let game_result = lobby.to_game();
    assert!(game_result.is_ok());

    let game = game_result.unwrap();
    assert_eq!(game.players.len(), 2);

    let player_ids: std::collections::HashSet<_> = game.players.iter().map(|p| p.id).collect();
    assert!(player_ids.contains(&1));
    assert!(player_ids.contains(&2));
}

#[test]
fn test_color_assignment_sequence() {
    let mut lobby = Lobby::new(LobbyId(1), "Test".to_string());

    for i in 1..=3 {
        lobby.handle_event(LobbyEvent::PlayerJoined { player_id: i, player_name: format!("Player{}", i) }).unwrap();
    }

    let color1 = lobby.players[&1].color;
    let color2 = lobby.players[&2].color;
    let color3 = lobby.players[&3].color;

    assert_ne!(color1, color2);
    assert_ne!(color1, color3);
    assert_ne!(color2, color3);
}

#[test]
fn test_edge_position_validation() {
    let lobby = Lobby::new(LobbyId(1), "Test".to_string());

    assert!(lobby.is_valid_edge_position(&PlayerPos::new(0, 2, 4)));
    assert!(lobby.is_valid_edge_position(&PlayerPos::new(5, 3, 0)));
    assert!(lobby.is_valid_edge_position(&PlayerPos::new(2, 0, 6)));
    assert!(lobby.is_valid_edge_position(&PlayerPos::new(3, 5, 2)));

    assert!(!lobby.is_valid_edge_position(&PlayerPos::new(2, 2, 0)));
    assert!(!lobby.is_valid_edge_position(&PlayerPos::new(3, 3, 4)));

    assert!(!lobby.is_valid_edge_position(&PlayerPos::new(6, 2, 0)));
    assert!(!lobby.is_valid_edge_position(&PlayerPos::new(2, 6, 0)));
}

#[test]
fn test_player_not_found_error() {
    let mut lobby = Lobby::new(LobbyId(1), "Test".to_string());

    let result = lobby.handle_event(LobbyEvent::PawnPlaced { player_id: 999, position: PlayerPos::new(0, 2, 4) });

    assert!(matches!(result, Err(LobbyError::PlayerNotFound)));
}

#[test]
fn test_game_not_started_error() {
    let lobby = setup_ready_lobby();

    let result = lobby.to_game();
    assert!(matches!(result, Err(LobbyError::GameNotStarted)));
}

#[test]
fn test_no_available_colors() {
    let mut lobby = Lobby::new(LobbyId(1), "Test".to_string());
    lobby.max_players = 10;

    for i in 1..=8 {
        lobby.handle_event(LobbyEvent::PlayerJoined { player_id: i, player_name: format!("Player{}", i) }).unwrap();
    }

    let result = lobby.handle_event(LobbyEvent::PlayerJoined { player_id: 9, player_name: "Player9".to_string() });

    assert!(matches!(result, Err(LobbyError::NoAvailableColors)));
}

#[test]
fn prop_edge_position_validation() {
    for row in 0usize..=7 {
        for col in 0usize..=7 {
            for endpoint in 0usize..=7 {
                let lobby = Lobby::new(LobbyId(1), "Test".to_string());
                let pos = PlayerPos::new(row, col, endpoint);
                let is_valid_edge = (row == 0 || row == 5 || col == 0 || col == 5) && row <= 5 && col <= 5;
                assert_eq!(lobby.is_valid_edge_position(&pos), is_valid_edge);
            }
        }
    }
}

#[test]
fn prop_lobby_id_consistency() {
    for id in [0u64, 1, 42, 999_999, 123_456] {
        let lobby_id = LobbyId(id);
        let lobby = Lobby::new(lobby_id.clone(), "Test".to_string());
        assert_eq!(lobby.id, lobby_id);
    }
}

#[test]
fn prop_player_name_handling() {
    for name in ["a", "Alice", "名前", "with spaces and symbols !?", "x".repeat(50).as_str()] {
        let mut lobby = Lobby::new(LobbyId(1), "Test".to_string());
        let result = lobby.handle_event(LobbyEvent::PlayerJoined { player_id: 1, player_name: name.to_string() });
        assert!(result.is_ok());
        assert_eq!(&lobby.players[&1].name, name);
    }
}

#[test]
fn prop_max_players_limit() {
    for max_players in 2usize..8 {
        let mut lobby = Lobby::new(LobbyId(1), "Test".to_string());
        lobby.max_players = max_players;

        for i in 1..=max_players {
            let result = lobby.handle_event(LobbyEvent::PlayerJoined { player_id: i, player_name: format!("Player{}", i) });
            assert!(result.is_ok());
        }

        let result = lobby.handle_event(LobbyEvent::PlayerJoined {
            player_id: max_players + 1,
            player_name: "ExtraPlayer".to_string(),
        });
        assert!(matches!(result, Err(LobbyError::LobbyFull)));
    }
}

#[test]
fn colors_follow_the_palette_in_order() {
    let mut lobby = Lobby::new(LobbyId(1), "Test".to_string());
    lobby.handle_event(LobbyEvent::PlayerJoined { player_id: 1, player_name: "A".to_string() }).unwrap();
    lobby.handle_event(LobbyEvent::PlayerJoined { player_id: 2, player_name: "B".to_string() }).unwrap();
    assert_eq!(lobby.players[&1].color, (220, 50, 47));
    assert_eq!(lobby.players[&2].color, (133, 153, 0));
    // a freed color is given to the next player to join
    lobby.handle_event(LobbyEvent::PlayerLeft { player_id: 1 }).unwrap();
    lobby.handle_event(LobbyEvent::PlayerJoined { player_id: 3, player_name: "C".to_string() }).unwrap();
    assert_eq!(lobby.players[&3].color, (220, 50, 47));
}

#[test]
fn refused_events_leave_the_lobby_unchanged() {
    let mut lobby = setup_ready_lobby();
    let before = lobby.clone();
    let result = lobby.handle_event(LobbyEvent::PawnPlaced { player_id: 2, position: PlayerPos::new(0, 2, 4) });
    assert!(matches!(result, Err(LobbyError::PositionTaken)));
    assert_eq!(lobby.players.len(), before.players.len());
    assert_eq!(lobby.players[&2].spawn_position, Some(PlayerPos::new(5, 3, 0)));
    assert!(matches!(lobby.handle_event(LobbyEvent::PlayerLeft { player_id: 77 }), Err(LobbyError::PlayerNotFound)));
    assert_eq!(lobby.players.len(), 2);
}

#[test]
fn a_player_may_move_their_own_pawn() {
    let mut lobby = setup_ready_lobby();
    // re-placing on one's own position is not "taken"
    assert!(lobby.handle_event(LobbyEvent::PawnPlaced { player_id: 1, position: PlayerPos::new(0, 2, 4) }).is_ok());
    assert!(lobby.handle_event(LobbyEvent::PawnPlaced { player_id: 1, position: PlayerPos::new(3, 0, 6) }).is_ok());
    assert_eq!(lobby.players[&1].spawn_position, Some(PlayerPos::new(3, 0, 6)));
}

#[test]
fn game_players_sit_by_id_with_their_lobby_colors() {
    let mut lobby = setup_ready_lobby();
    lobby.handle_event(LobbyEvent::StartGame).unwrap();
    let game = lobby.to_game().unwrap();
    let ids: Vec<usize> = game.players.iter().map(|p| p.id).collect();
    assert_eq!(ids, vec![1, 2], "lowest id first");
    assert_eq!(game.current_player_id, 1, "the lowest id moves first");
    for p in &game.players {
        assert!(p.alive);
        assert_eq!(p.color, lobby.players[&p.id].color);
        assert_eq!(p.pos, lobby.players[&p.id].spawn_position.unwrap());
    }
}

#[test]
fn test_complete_create_and_join_flow() {
    // === Create Lobby Flow ===
    let (mut lobby1, creator_id) = Lobby::new_with_creator("Game Room".to_string(), "Alice".to_string());
    assert_eq!(lobby1.name, "Game Room");
    assert_eq!(lobby1.players.len(), 1);
    assert_eq!(creator_id, 1);
    assert_eq!(lobby1.players[&creator_id].name, "Alice");
    assert_eq!(lobby1.players[&creator_id].color, (220, 50, 47)); // Red

    lobby1
        .handle_event(LobbyEvent::PawnPlaced { player_id: creator_id, position: PlayerPos::new(0, 2, 4) })
        .expect("Creator should be able to place pawn");
    assert_eq!(lobby1.players[&creator_id].spawn_position, Some(PlayerPos::new(0, 2, 4)));

    // === Join Lobby Flow ===
    // The room code a joining player types, in any case, is read back as the code.
    let code = new_room_code();
    assert_eq!(code.len(), 4);
    let normalized = normalize_lobby_id(&code.to_lowercase()).expect("Generated ID should be valid");
    assert_eq!(normalized, code);

    lobby1
        .handle_event(LobbyEvent::PlayerJoined { player_id: 2, player_name: "Bob".to_string() })
        .expect("Second player should be able to join");
    assert_eq!(lobby1.players.len(), 2);
    assert_eq!(lobby1.players[&2].name, "Bob");
    assert_eq!(lobby1.players[&2].color, (133, 153, 0)); // Green

    lobby1
        .handle_event(LobbyEvent::PawnPlaced { player_id: 2, position: PlayerPos::new(5, 3, 0) })
        .expect("Second player should be able to place pawn");

    // === Start Game ===
    assert!(lobby1.can_start());
    lobby1.handle_event(LobbyEvent::StartGame).expect("Lobby should be able to start");
    assert!(lobby1.started);

    let game = lobby1.to_game().expect("Should convert to game");
    assert_eq!(game.players.len(), 2);
    assert_eq!(game.players[0].id, 1);
    assert_eq!(game.players[0].pos, PlayerPos::new(0, 2, 4));
    assert_eq!(game.players[0].color, (220, 50, 47));
    assert_eq!(game.players[1].id, 2);
    assert_eq!(game.players[1].pos, PlayerPos::new(5, 3, 0));
    assert_eq!(game.players[1].color, (133, 153, 0));
}

#[test]
fn not_enough_placed_players_to_make_a_game() {
    let mut lobby = setup_ready_lobby();
    lobby.handle_event(LobbyEvent::StartGame).unwrap();
    lobby.handle_event(LobbyEvent::PlayerLeft { player_id: 2 }).unwrap();
    assert!(matches!(lobby.to_game(), Err(LobbyError::NotEnoughPlayers)));
    assert_eq!(LobbyError::NotEnoughPlayers.message(), "not enough players to start");
}

#[test]
fn visibility_defaults_to_private() {
    assert_eq!(Visibility::default(), Visibility::Private);
}
