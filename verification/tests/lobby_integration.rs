use tsurust::board::PlayerPos;
use tsurust::lobby::{Lobby, LobbyError, LobbyEvent, LobbyId};

#[test]
fn lobby_integration_test_full_lobby_to_game_flow() {
    let mut lobby = Lobby::new(LobbyId(42), "Integration Test".to_string());

    for i in 1..=4 {
        lobby.handle_event(LobbyEvent::PlayerJoined { player_id: i, player_name: format!("Player{}", i) }).unwrap();
    }

    let positions = [
        PlayerPos::new(0, 1, 4),
        PlayerPos::new(2, 5, 2),
        PlayerPos::new(5, 3, 0),
        PlayerPos::new(3, 0, 6),
    ];

    for (i, &pos) in positions.iter().enumerate() {
        lobby.handle_event(LobbyEvent::PawnPlaced { player_id: i + 1, position: pos }).unwrap();
    }

    assert!(lobby.can_start());
    lobby.handle_event(LobbyEvent::StartGame).unwrap();

    let game = lobby.to_game().unwrap();
    assert_eq!(game.players.len(), 4);

    for player in &game.players {
        assert!(positions.contains(&player.pos));
        assert_ne!(player.color, (0, 0, 0));
    }

    let player_ids: std::collections::HashSet<_> = game.players.iter().map(|p| p.id).collect();
    for expected_id in 1..=4 {
        assert!(player_ids.contains(&expected_id));
    }
}

#[test]
fn test_lobby_state_transitions() {
    let mut lobby = Lobby::new(LobbyId(1), "State Test".to_string());

    assert!(!lobby.started);
    assert!(!lobby.can_start());

    lobby.handle_event(LobbyEvent::PlayerJoined { player_id: 1, player_name: "Alice".to_string() }).unwrap();
    lobby.handle_event(LobbyEvent::PlayerJoined { player_id: 2, player_name: "Bob".to_string() }).unwrap();

    assert!(!lobby.can_start());

    lobby.handle_event(LobbyEvent::PawnPlaced { player_id: 1, position: PlayerPos::new(0, 2, 4) }).unwrap();
    lobby.handle_event(LobbyEvent::PawnPlaced { player_id: 2, position: PlayerPos::new(5, 3, 0) }).unwrap();

    assert!(lobby.can_start());

    lobby.handle_event(LobbyEvent::StartGame).unwrap();
    assert!(lobby.started);

    let game = lobby.to_game().unwrap();
    assert_eq!(game.players.len(), 2);
}

#[test]
fn test_error_handling_workflow() {
    let mut lobby = Lobby::new(LobbyId(1), "Error Test".to_string());
    lobby.max_players = 2;

    lobby.handle_event(LobbyEvent::PlayerJoined { player_id: 1, player_name: "Alice".to_string() }).unwrap();
    lobby.handle_event(LobbyEvent::PlayerJoined { player_id: 2, player_name: "Bob".to_string() }).unwrap();

    let result = lobby.handle_event(LobbyEvent::PlayerJoined { player_id: 3, player_name: "Charlie".to_string() });
    assert!(matches!(result, Err(LobbyError::LobbyFull)));

    let result = lobby.handle_event(LobbyEvent::PawnPlaced { player_id: 1, position: PlayerPos::new(2, 2, 0) });
    assert!(matches!(result, Err(LobbyError::InvalidSpawnPosition)));

    let edge_pos = PlayerPos::new(0, 2, 4);
    lobby.handle_event(LobbyEvent::PawnPlaced { player_id: 1, position: edge_pos }).unwrap();

    let result = lobby.handle_event(LobbyEvent::PawnPlaced { player_id: 2, position: edge_pos });
    assert!(matches!(result, Err(LobbyError::PositionTaken)));

    let result = lobby.handle_event(LobbyEvent::StartGame);
    assert!(matches!(result, Err(LobbyError::NotReadyToStart)));
}
