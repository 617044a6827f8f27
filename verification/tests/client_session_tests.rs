use tsurust::board::{seg, CellCoord, Player, PlayerPos, Tile};
use tsurust::client_session::{AppState, ClientEffect, ClientState, JoinScreenRequest};
use tsurust::game::Game;
use tsurust::lobby::{Lobby, LobbyEvent, LobbyId, Visibility};
use tsurust::game::TurnResult;
use tsurust::protocol::{ClientMessage, ServerMessage};

/// A straight tile: each entry point runs to the opposite side.
fn straight() -> Tile {
    Tile::new([seg(0, 4), seg(1, 5), seg(2, 6), seg(3, 7)])
}

fn two_player_game() -> Game {
    let mut game = Game::new(vec![Player::new(1, PlayerPos::new(0, 2, 4)), Player::new(2, PlayerPos::new(5, 3, 0))]);
    game.hands.get_mut(&1).unwrap()[0] = straight();
    game.hands.get_mut(&2).unwrap()[0] = straight();
    game
}

fn client_with(app_state: AppState, room: Option<&str>, me: usize) -> ClientState {
    ClientState { app_state, current_room_id: room.map(|r| r.to_string()), current_player_id: me, turn_clock_secs: None }
}

fn online(game: Game, waiting: bool, spectator: bool) -> AppState {
    AppState::OnlineGame {
        game,
        room_id: "ABCD".to_string(),
        lobby_name: "Friday".to_string(),
        waiting_for_server: waiting,
        hand_counts: std::collections::HashMap::new(),
        is_spectator: spectator,
    }
}

fn lobby_of(ids: &[usize]) -> Lobby {
    let mut lobby = Lobby::new(LobbyId(1), "Friday".to_string());
    for &id in ids {
        lobby.handle_event(LobbyEvent::PlayerJoined { player_id: id, player_name: format!("P{id}") }).unwrap();
    }
    lobby
}

fn place(lobby: &mut Lobby, id: usize, pos: PlayerPos) {
    lobby.handle_event(LobbyEvent::PawnPlaced { player_id: id, position: pos }).unwrap();
}

#[test]
fn a_local_tile_is_played_on_the_movers_cell() {
    let mut client = client_with(AppState::Game(two_player_game()), None, 1);
    let effect = client.handle_tile_placed(0);
    assert!(matches!(effect, ClientEffect::TilePlaced { cell: CellCoord { row: 0, col: 2 } }));
    let game = client.visible_game().expect("still in the game");
    assert_eq!(game.board.history.len(), 1);
    assert_eq!(game.board.history[0].tile, straight());
    assert_eq!(game.current_player_id, 2);
}

#[test]
fn an_online_tile_is_sent_in_turn_only() {
    // Out of turn: the player is told.
    let mut client = client_with(online(two_player_game(), false, false), Some("ABCD"), 2);
    match client.handle_tile_placed(0) {
        ClientEffect::ShowError { message } => assert_eq!(message, "It's not your turn yet."),
        _ => panic!("out of turn"),
    }

    // While a move is on its way, or for a spectator: nothing.
    let mut client = client_with(online(two_player_game(), true, false), Some("ABCD"), 1);
    assert!(matches!(client.handle_tile_placed(0), ClientEffect::Nothing));
    let mut client = client_with(online(two_player_game(), false, true), Some("ABCD"), 1);
    assert!(matches!(client.handle_tile_placed(0), ClientEffect::Nothing));

    // A tile that is not in hand: nothing.
    let mut client = client_with(online(two_player_game(), false, false), Some("ABCD"), 1);
    assert!(matches!(client.handle_tile_placed(7), ClientEffect::Nothing));

    // In turn: the move goes to the server and the game waits.
    match client.handle_tile_placed(0) {
        ClientEffect::Send { request: ClientMessage::PlaceTile { room_id, player_id, mov } } => {
            assert_eq!(room_id, "ABCD");
            assert_eq!(player_id, 1);
            assert_eq!(mov.tile, straight());
            assert_eq!(mov.cell, CellCoord { row: 0, col: 2 });
        }
        _ => panic!("the move should be sent"),
    }
    assert!(matches!(client.app_state, AppState::OnlineGame { waiting_for_server: true, .. }));
}

#[test]
fn rotating_turns_the_shown_hand() {
    let asymmetric = Tile::new([seg(0, 2), seg(1, 3), seg(4, 6), seg(5, 7)]);
    let mut game = two_player_game();
    game.hands.get_mut(&1).unwrap()[1] = asymmetric;
    game.hands.get_mut(&2).unwrap()[1] = asymmetric;

    let mut client = client_with(AppState::Game(game.clone()), None, 2);
    assert!(client.handle_tile_rotated(1, true));
    // Locally the hand of the player to move (1) turns.
    assert_eq!(client.visible_game().unwrap().hands[&1][1], asymmetric.rotated(true));
    assert_eq!(client.visible_game().unwrap().hands[&2][1], asymmetric);
    assert!(!client.handle_tile_rotated(5, true));

    // Online the client's own hand (2) turns.
    let mut client = client_with(online(game, false, false), Some("ABCD"), 2);
    assert!(client.handle_tile_rotated(1, false));
    assert_eq!(client.visible_game().unwrap().hands[&2][1], asymmetric.rotated(false));
    assert_eq!(client.visible_game().unwrap().hands[&1][1], asymmetric);
}

#[test]
fn pawns_are_placed_locally_or_sent() {
    let mut client = client_with(AppState::Lobby(lobby_of(&[1])), None, 1);
    assert!(matches!(client.handle_place_pawn(PlayerPos::new(0, 2, 4), false), ClientEffect::Nothing));
    let lobby = client.visible_lobby().unwrap();
    assert_eq!(lobby.players[&1].spawn_position, Some(PlayerPos::new(0, 2, 4)));

    match client.handle_place_pawn(PlayerPos::new(2, 2, 0), false) {
        ClientEffect::ShowError { message } => {
            assert_eq!(message, "Can't place the pawn there: spawn positions must be on the border of the board")
        }
        _ => panic!("an inner position is refused"),
    }

    let mut client = client_with(AppState::Lobby(lobby_of(&[1])), Some("ABCD"), 1);
    match client.handle_place_pawn(PlayerPos::new(0, 2, 4), true) {
        ClientEffect::Send { request: ClientMessage::PlacePawn { room_id, player_id, position } } => {
            assert_eq!(room_id, "ABCD");
            assert_eq!(player_id, 1);
            assert_eq!(position, PlayerPos::new(0, 2, 4));
        }
        _ => panic!("the pawn should be sent"),
    }
    let mut client = client_with(AppState::Lobby(lobby_of(&[1])), None, 1);
    assert!(matches!(client.handle_place_pawn(PlayerPos::new(0, 2, 4), true), ClientEffect::Nothing));

    // Placing for another player, then back to the lobby.
    let mut client = client_with(AppState::LobbyPlacingFor(lobby_of(&[1, 2]), 2), None, 1);
    assert!(matches!(client.handle_place_pawn(PlayerPos::new(5, 3, 0), false), ClientEffect::Nothing));
    match &client.app_state {
        AppState::Lobby(lobby) => assert_eq!(lobby.players[&2].spawn_position, Some(PlayerPos::new(5, 3, 0))),
        _ => panic!("back to the lobby"),
    }
}

#[test]
fn a_local_lobby_starts_once_ready() {
    let mut lobby = lobby_of(&[1, 2]);
    place(&mut lobby, 1, PlayerPos::new(0, 2, 4));
    let mut client = client_with(AppState::Lobby(lobby), None, 1);
    match client.handle_start_game_from_lobby(false) {
        ClientEffect::ShowError { message } => assert_eq!(message, "Can't start the game: the lobby is not ready to start"),
        _ => panic!("not everyone is placed"),
    }
    if let AppState::Lobby(lobby) = &mut client.app_state {
        place(lobby, 2, PlayerPos::new(5, 3, 0));
    }
    assert!(matches!(client.handle_start_game_from_lobby(false), ClientEffect::Nothing));
    let game = client.visible_game().expect("the game should start");
    assert_eq!(game.players.len(), 2);
    assert_eq!(game.deck_count(), 35 - 6);

    let mut client = client_with(AppState::Lobby(lobby_of(&[1])), Some("ABCD"), 1);
    match client.handle_start_game_from_lobby(true) {
        ClientEffect::Send { request: ClientMessage::StartGame { room_id } } => assert_eq!(room_id, "ABCD"),
        _ => panic!("the start should be sent"),
    }
}

#[test]
fn test_players_are_added_and_cycled() {
    let mut client = client_with(AppState::Lobby(lobby_of(&[1, 3])), None, 1);
    client.handle_debug_add_player();
    match &client.app_state {
        AppState::LobbyPlacingFor(lobby, 4) => assert_eq!(lobby.players[&4].name, "Test Player 4"),
        _ => panic!("placing for the new player"),
    }

    let mut lobby = lobby_of(&[1, 2, 3, 4]);
    place(&mut lobby, 1, PlayerPos::new(0, 2, 4));
    place(&mut lobby, 3, PlayerPos::new(5, 3, 0));
    let placing_for = |client: &ClientState| match &client.app_state {
        AppState::LobbyPlacingFor(_, p) => *p,
        _ => panic!("placing"),
    };
    let mut client = client_with(AppState::LobbyPlacingFor(lobby, 2), None, 1);
    client.handle_debug_cycle_player(true);
    assert_eq!(placing_for(&client), 4);
    client.handle_debug_cycle_player(true);
    assert_eq!(placing_for(&client), 2);
    client.handle_debug_cycle_player(false);
    assert_eq!(placing_for(&client), 4);
    // From a placed player the count starts at the first unplaced one.
    if let AppState::LobbyPlacingFor(_, p) = &mut client.app_state {
        *p = 1;
    }
    client.handle_debug_cycle_player(true);
    assert_eq!(placing_for(&client), 4);
}

#[test]
fn created_lobbies_are_online_or_local() {
    let mut client = ClientState::new();
    match client.handle_create_and_join_lobby("Friday".to_string(), "Alice".to_string(), Visibility::Public, Some(60), true) {
        ClientEffect::Send { request: ClientMessage::CreateRoom { room_name, creator_name, visibility, turn_timer_secs } } => {
            assert_eq!(turn_timer_secs, Some(60), "the chosen turn clock is asked for");
            assert_eq!(room_name, "Friday");
            assert_eq!(creator_name, "Alice");
            assert_eq!(visibility, Visibility::Public);
        }
        _ => panic!("the room should be asked for"),
    }
    let lobby = client.visible_lobby().unwrap();
    assert_eq!(lobby.visibility, Visibility::Public);
    assert_eq!(lobby.players[&1].name, "Alice");
    assert_eq!(client.client_player_id(), 1);

    let mut client = ClientState::new();
    match client.handle_create_and_join_lobby("Friday".to_string(), "Alice".to_string(), Visibility::Public, Some(60), false) {
        ClientEffect::ShowError { message } => {
            assert_eq!(message, "Couldn't reach the server, so a local lobby was started instead.")
        }
        _ => panic!("the player should be told"),
    }
    assert_eq!(client.visible_lobby().unwrap().visibility, Visibility::Private);
}

#[test]
fn the_join_form_waits_for_the_server() {
    let mut client = ClientState::new();
    assert!(matches!(
        client.handle_show_join_lobby_form(),
        ClientEffect::Send { request: ClientMessage::ListLobbies }
    ));
    assert!(matches!(client.handle_join_lobby_with_id("ABCD".to_string(), "Alice".to_string(), false), ClientEffect::Nothing));
    assert!(matches!(client.app_state, AppState::JoinLobbyForm { pending: None, .. }));
    match client.handle_join_lobby_with_id("ABCD".to_string(), "Alice".to_string(), true) {
        ClientEffect::Send { request: ClientMessage::JoinRoom { room_id, player_name } } => {
            assert_eq!(room_id, "ABCD");
            assert_eq!(player_name, "Alice");
        }
        _ => panic!("the join should be sent"),
    }
    assert!(matches!(client.app_state, AppState::JoinLobbyForm { pending: Some(JoinScreenRequest::Join), .. }));
    match client.handle_spectate_lobby("WXYZ".to_string(), "Finals".to_string(), true) {
        ClientEffect::Send { request: ClientMessage::SpectateRoom { room_id } } => assert_eq!(room_id, "WXYZ"),
        _ => panic!("the spectating should be sent"),
    }
    match &client.app_state {
        AppState::JoinLobbyForm { pending: Some(JoinScreenRequest::Spectate { room_id, room_name }), .. } => {
            assert_eq!(room_id, "WXYZ");
            assert_eq!(room_name, "Finals");
        }
        _ => panic!("waiting to spectate"),
    }
}

#[test]
fn leaving_goes_back_step_by_step() {
    let mut client = client_with(AppState::LobbyPlacingFor(lobby_of(&[1, 2]), 2), Some("ABCD"), 1);
    assert!(!client.handle_back_to_main_menu());
    assert!(matches!(client.app_state, AppState::Lobby(_)));
    assert_eq!(client.current_room_id(), Some("ABCD"));
    assert!(client.handle_back_to_main_menu());
    assert!(matches!(client.app_state, AppState::MainMenu));
    assert_eq!(client.current_room_id(), None);

    let mut client = client_with(online(two_player_game(), false, false), Some("ABCD"), 1);
    client.disconnect_and_return_to_menu();
    assert!(matches!(client.app_state, AppState::MainMenu));
    assert_eq!(client.current_room_id(), None);
}

#[test]
fn local_games_and_lobbies_start_from_the_menu() {
    let mut client = ClientState::new();
    client.handle_start_lobby();
    let lobby = client.visible_lobby().unwrap();
    assert_eq!(lobby.name, "Main Room");
    assert_eq!(lobby.players[&1].name, "Player");

    client.handle_debug_place_pawn(1);
    assert!(matches!(client.app_state, AppState::LobbyPlacingFor(_, 1)));

    client.handle_show_create_lobby_form();
    match &client.app_state {
        AppState::CreateLobbyForm { lobby_name, player_name, public, turn_timer_secs } => {
            assert_eq!(lobby_name, "Test Lobby");
            assert_eq!(player_name, "Player 1");
            assert!(public);
            assert!(turn_timer_secs.is_none());
        }
        _ => panic!("the form"),
    }

    client.handle_start_sample_game();
    let game = client.visible_game().unwrap();
    assert_eq!(game.players.len(), 4);
    assert_eq!(game.players[0].pos, PlayerPos::new(0, 2, 4));
    client.handle_restart_game();
    let game = client.visible_game().unwrap();
    assert_eq!(game.players[0].pos, PlayerPos::new(0, 2, 5));
    assert!(game.board.history.is_empty());

    let mut client = client_with(AppState::Lobby(lobby_of(&[1])), None, 2);
    client.handle_join_lobby("Bob".to_string());
    assert_eq!(client.visible_lobby().unwrap().players[&2].name, "Bob");
}

#[test]
fn the_create_form_sends_its_turn_clock() {
    let mut client = ClientState::new();
    client.handle_show_create_lobby_form();
    if let AppState::CreateLobbyForm { turn_timer_secs, public, .. } = &mut client.app_state {
        *turn_timer_secs = Some(30);
        *public = false;
    }
    match client.handle_submit_create_lobby_form(true) {
        ClientEffect::Send { request: ClientMessage::CreateRoom { room_name, visibility, turn_timer_secs, .. } } => {
            assert_eq!(room_name, "Test Lobby");
            assert_eq!(visibility, Visibility::Private);
            assert_eq!(turn_timer_secs, Some(30));
        }
        _ => panic!("the room should be asked for"),
    }
    assert!(matches!(client.app_state, AppState::Lobby(_)));

    let mut client = ClientState::new();
    client.handle_show_create_lobby_form();
    if let AppState::CreateLobbyForm { player_name, .. } = &mut client.app_state {
        *player_name = "  ".to_string();
    }
    assert!(matches!(client.handle_submit_create_lobby_form(true), ClientEffect::Nothing), "a blank name sends nothing");
    assert!(matches!(client.app_state, AppState::CreateLobbyForm { .. }));
}

#[test]
fn the_server_clock_and_auto_played_turns_reach_the_player() {
    let game = Game::new(vec![Player::new(1, PlayerPos::new(0, 2, 5)), Player::new(2, PlayerPos::new(5, 3, 0))]);
    let mut client = client_with(online(game.clone(), false, false), Some("ABCD"), 1);
    client.handle_server_message(ServerMessage::GameStateUpdate {
        room_id: "ABCD".to_string(),
        hand_counts: game.hand_counts(),
        deck_count: game.deck_count(),
        state: game.clone(),
        turn_deadline_secs: Some(42),
    });
    assert_eq!(client.turn_clock_secs, Some(42), "the countdown restarts from the server's reading");

    let result = TurnResult::TurnAdvanced { turn_number: 1, next_player: 2, eliminated: Vec::new() };
    match client.handle_server_message(ServerMessage::TurnCompleted { room_id: "ABCD".to_string(), result, auto_played: true }) {
        ClientEffect::ShowError { message } => {
            assert_eq!(message, "The turn clock ran out \u{2014} the server played that turn.")
        }
        _ => panic!("the player should be told"),
    }
    assert_eq!(client.turn_clock_secs, Some(42));

    client.handle_server_message(ServerMessage::GameStateUpdate {
        room_id: "ABCD".to_string(),
        hand_counts: game.hand_counts(),
        deck_count: game.deck_count(),
        state: game,
        turn_deadline_secs: None,
    });
    assert_eq!(client.turn_clock_secs, None, "an untimed state clears the countdown");
}
