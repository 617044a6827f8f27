use tsurust::board::{seg, Board, CellCoord, Move, Player, PlayerPos, Segment, Tile};
use tsurust::game::{Game, GameMetadata, GameMode, PlayerStats, TurnResult};
use tsurust::game_model::MoveError;

fn create_straight_tile() -> Tile {
    // 0-1, 2-3, 4-5, 6-7
    Tile {
        segments: [
            Segment { a: 0, b: 1 },
            Segment { a: 2, b: 3 },
            Segment { a: 4, b: 5 },
            Segment { a: 6, b: 7 },
        ],
    }
}

fn create_curve_tile() -> Tile {
    // 0-2, 1-3, 4-6, 5-7
    Tile {
        segments: [
            Segment { a: 0, b: 2 },
            Segment { a: 1, b: 3 },
            Segment { a: 4, b: 6 },
            Segment { a: 5, b: 7 },
        ],
    }
}

fn player(id: usize, row: usize, col: usize, endpoint: usize, color: (u8, u8, u8)) -> Player {
    Player {
        id,
        pos: PlayerPos { cell: CellCoord { row, col }, endpoint },
        alive: true,
        has_moved: false,
        color,
    }
}

fn trail_entries(game: &Game, cell: CellCoord) -> Option<Vec<(usize, usize)>> {
    game.tile_trails.iter().find(|(c, _)| *c == cell).map(|(_, e)| e.clone())
}

fn visits(stats: &PlayerStats, cell: CellCoord) -> usize {
    stats.cells_visited.iter().find(|(c, _)| *c == cell).map(|(_, n)| *n).unwrap()
}

#[test]
fn test_trail_recording_single_player_single_pass() {
    let players = vec![player(1, 1, 1, 0, (255, 0, 0))];
    let mut game = Game::new(players);

    let tile = create_straight_tile();
    let mov = Move { player_id: 1, cell: CellCoord { row: 1, col: 1 }, tile };

    game.hands.get_mut(&1).unwrap().push(mov.tile);

    let result = game.perform_move(mov);
    assert!(result.is_ok());

    let entries = trail_entries(&game, CellCoord { row: 1, col: 1 }).unwrap();
    // endpoint 0 on segment 0-1: key min(0,1) = 0
    assert_eq!(entries.len(), 1);
    assert_eq!(entries[0], (1, 0));
}

#[test]
fn test_trail_recording_multiple_players_same_tile() {
    let players = vec![player(1, 1, 1, 0, (255, 0, 0)), player(2, 1, 1, 2, (0, 255, 0))];
    let mut game = Game::new(players);

    let tile = create_straight_tile();
    let mov = Move { player_id: 1, cell: CellCoord { row: 1, col: 1 }, tile };
    game.hands.get_mut(&1).unwrap().push(mov.tile);

    let result = game.perform_move(mov);
    assert!(result.is_ok());

    let entries = trail_entries(&game, CellCoord { row: 1, col: 1 }).unwrap();
    assert_eq!(entries.len(), 2);

    let mut found_player1 = false;
    let mut found_player2 = false;
    for &(player_id, segment_key) in &entries {
        if player_id == 1 {
            assert_eq!(segment_key, 0);
            found_player1 = true;
        } else if player_id == 2 {
            assert_eq!(segment_key, 2);
            found_player2 = true;
        }
    }
    assert!(found_player1, "Player 1 trail not found");
    assert!(found_player2, "Player 2 trail not found");
}

#[test]
fn test_trail_recording_multiple_players_pass_through_same_tile_twice() {
    let players = vec![player(1, 1, 1, 3, (255, 0, 0)), player(2, 2, 2, 0, (0, 255, 0))];
    let mut game = Game::new(players);

    let tile1 = create_straight_tile();
    let mov1 = Move { player_id: 1, cell: CellCoord { row: 1, col: 1 }, tile: tile1 };
    game.hands.get_mut(&1).unwrap().push(mov1.tile);
    let result1 = game.perform_move(mov1);
    assert!(result1.is_ok());

    if let Some(entries) = trail_entries(&game, CellCoord { row: 1, col: 1 }) {
        assert!(entries.contains(&(1, 2)));
    }

    let tile2 = create_curve_tile();
    let mov2 = Move { player_id: 2, cell: CellCoord { row: 2, col: 2 }, tile: tile2 };
    game.hands.get_mut(&2).unwrap().push(mov2.tile);
    let result2 = game.perform_move(mov2);
    assert!(result2.is_ok());

    game.players[0].pos = PlayerPos { cell: CellCoord { row: 1, col: 2 }, endpoint: 0 };
    game.players[1].pos = PlayerPos { cell: CellCoord { row: 1, col: 2 }, endpoint: 4 };

    let tile3 = create_straight_tile();
    let mov3 = Move { player_id: 1, cell: CellCoord { row: 1, col: 2 }, tile: tile3 };
    game.hands.get_mut(&1).unwrap().push(mov3.tile);
    let result3 = game.perform_move(mov3);
    assert!(result3.is_ok());

    let entries = trail_entries(&game, CellCoord { row: 1, col: 2 }).unwrap();
    assert!(entries.contains(&(1, 0)));
    assert!(entries.contains(&(2, 4)));
}

fn export_metadata(room_name: Option<String>) -> GameMetadata {
    GameMetadata {
        game_mode: GameMode::Local,
        room_id: None,
        room_name,
        completed: false,
        winner_id: None,
        total_turns: 0,
        player_names: vec![(1, "Player 1".to_string()), (2, "Player 2".to_string())],
    }
}

#[test]
fn test_game_export_serialization() {
    let players = vec![player(1, 0, 2, 4, (255, 0, 0)), player(2, 5, 3, 0, (0, 255, 0))];
    let game = Game::new(players);

    let export = game.export(export_metadata(Some("Test Game".to_string())), Some(1));

    assert_eq!(export.version, "1.0");
    assert_eq!(export.metadata.total_turns, 0);
    assert_eq!(export.game_state.players.len(), 2);
    assert_eq!(export.player_perspective, Some(1));
    assert_eq!(export.hand_counts.get(&1), Some(&3));
    assert_eq!(export.hand_counts.get(&2), Some(&3));
    assert!(!export.timestamp.is_empty());
}

#[test]
fn test_export_hides_other_players_hands() {
    let players = vec![player(1, 0, 2, 4, (255, 0, 0)), player(2, 5, 3, 0, (0, 255, 0))];
    let game = Game::new(players);

    let export = game.export(export_metadata(None), Some(1));

    assert_eq!(export.game_state.hands.get(&1).unwrap().len(), 3);
    assert_eq!(export.game_state.hands.get(&2).unwrap().len(), 0);
    assert_eq!(export.hand_counts.get(&1), Some(&3));
    assert_eq!(export.hand_counts.get(&2), Some(&3));
}

#[test]
fn export_of_a_completed_game_keeps_everything() {
    let game = Game::new(vec![player(1, 0, 2, 4, RED), player(2, 5, 3, 0, RED)]);
    let mut metadata = export_metadata(None);
    metadata.completed = true;
    let export = game.export(metadata, Some(1));
    assert_eq!(export.game_state.hands[&2].len(), 3);
    assert_eq!(export.game_state.deck.remaining(), game.deck.remaining());
    assert_eq!(export.deck_count, 29);
}

#[test]
fn export_without_perspective_hides_only_the_deck() {
    let game = Game::new(vec![player(1, 0, 2, 4, RED), player(2, 5, 3, 0, RED)]);
    let export = game.export(export_metadata(None), None);
    assert_eq!(export.game_state.hands[&1].len(), 3);
    assert_eq!(export.game_state.hands[&2].len(), 3);
    assert_eq!(export.game_state.deck.remaining(), 0);
    assert_eq!(export.deck_count, 29);
}

const RED: (u8, u8, u8) = (255, 0, 0);

#[test]
fn test_view_for_hides_other_hands_and_the_deck() {
    let game = Game::new(vec![Player::new(1, PlayerPos::new(0, 2, 5)), Player::new(2, PlayerPos::new(5, 3, 0))]);
    assert!(game.deck.remaining() > 0, "a fresh game has a stocked deck");

    let view = game.view_for(Some(1));
    assert_eq!(view.hands[&1], game.hands[&1], "the viewer keeps their hand");
    assert!(view.hands[&2].is_empty(), "opponents' tiles are hidden");
    assert_eq!(view.deck.remaining(), 0, "the deck order is hidden");

    assert_eq!(game.hand_counts()[&1], 3);
    assert_eq!(game.hand_counts()[&2], 3);
    assert_eq!(game.deck_count(), game.deck.remaining());

    let spectator = game.view_for(None);
    assert!(spectator.hands.values().all(|h| h.is_empty()), "a spectator sees no tiles");
    assert_eq!(spectator.deck.remaining(), 0);
    assert_eq!(spectator.current_player_id, game.current_player_id);
    assert_eq!(spectator.players.len(), game.players.len());
}

#[test]
fn test_game_rebuild_from_history() {
    let players = vec![player(1, 1, 1, 0, (255, 0, 0)), player(2, 2, 2, 0, (0, 255, 0))];
    let mut game = Game::new(players.clone());

    let tile = create_straight_tile();
    game.hands.get_mut(&1).unwrap().push(tile);

    let mov = Move { tile, cell: CellCoord { row: 1, col: 1 }, player_id: 1 };

    game.perform_move(mov).expect("Move should succeed");

    let rebuilt = Game::rebuild_from_history(players, &game.board.history).expect("Rebuild should succeed");

    assert_eq!(rebuilt.board.history.len(), game.board.history.len());
    assert_eq!(rebuilt.players.len(), game.players.len());
    assert_eq!(rebuilt.board.history[0].player_id, 1);
}

#[test]
fn rebuild_from_history_reports_the_first_refused_move() {
    let players = vec![player(1, 1, 1, 0, RED), player(2, 2, 2, 0, RED)];
    let wrong_turn = Move { tile: create_straight_tile(), cell: CellCoord { row: 2, col: 2 }, player_id: 2 };
    let result = Game::rebuild_from_history(players, &[wrong_turn]);
    assert_eq!(result.err(), Some(MoveError::NotYourTurn));
}

#[test]
fn test_turn_skips_eliminated_player() {
    let mut game = Game::new(vec![
        Player::new(1, PlayerPos::new(2, 2, 0)),
        Player::new(2, PlayerPos::new(5, 3, 0)),
        Player::new(3, PlayerPos::new(2, 0, 6)),
    ]);
    game.players[1].alive = false;

    let tile = create_straight_tile();
    game.hands.get_mut(&1).expect("player 1 has a hand").push(tile);

    let result = game
        .perform_move(Move { tile, cell: CellCoord { row: 2, col: 2 }, player_id: 1 })
        .expect("player 1's move should be legal");

    match result {
        TurnResult::TurnAdvanced { next_player, eliminated, .. } => {
            assert_eq!(next_player, 3, "turn should skip eliminated player 2");
            assert!(eliminated.is_empty(), "player 1 should survive this move");
        }
        other => panic!("expected TurnAdvanced, got {:?}", other),
    }
    assert_eq!(game.current_player_id, 3);
}

#[test]
fn test_last_survivor_wins_when_move_eliminates_the_rest() {
    let mut game = Game::new(vec![
        Player::new(1, PlayerPos::new(0, 2, 5)),
        Player::new(2, PlayerPos::new(5, 3, 0)),
        Player::new(3, PlayerPos::new(2, 0, 6)),
    ]);
    game.players[1].alive = false;

    let tile = create_straight_tile();
    game.hands.insert(1, vec![tile]);

    let result = game
        .perform_move(Move { tile, cell: CellCoord { row: 0, col: 2 }, player_id: 1 })
        .expect("player 1's move should be legal");

    match result {
        TurnResult::PlayerWins { winner, eliminated, .. } => {
            assert_eq!(winner, 3, "player 3 is the last one standing");
            assert_eq!(eliminated, vec![1], "player 1 eliminated themselves");
        }
        other => panic!("expected PlayerWins, got {:?}", other),
    }
    assert!(!game.players.iter().find(|p| p.id == 1).unwrap().alive);
}

#[test]
fn test_extinction_when_final_move_eliminates_all_remaining() {
    let mut game = Game::new(vec![Player::new(1, PlayerPos::new(0, 2, 5)), Player::new(2, PlayerPos::new(0, 2, 4))]);

    let tile = create_straight_tile();
    game.hands.insert(1, vec![tile]);

    let result = game
        .perform_move(Move { tile, cell: CellCoord { row: 0, col: 2 }, player_id: 1 })
        .expect("player 1's move should be legal");

    match result {
        TurnResult::Extinction { eliminated, .. } => {
            assert_eq!(eliminated, vec![1, 2], "both players are eliminated together");
        }
        other => panic!("expected Extinction, got {:?}", other),
    }
    assert!(game.players.iter().all(|p| !p.alive));
}

#[test]
fn test_move_rejected_unless_placed_on_players_cell() {
    let mut game = Game::new(vec![Player::new(1, PlayerPos::new(2, 2, 0)), Player::new(2, PlayerPos::new(5, 3, 0))]);
    let tile = create_straight_tile();
    game.hands.get_mut(&1).expect("player 1 has a hand").push(tile);

    let err = game
        .perform_move(Move { tile, cell: CellCoord { row: 4, col: 4 }, player_id: 1 })
        .expect_err("placing away from the pawn must be rejected");
    assert_eq!(err, MoveError::WrongCell);
    assert!(game.board.history.is_empty(), "rejected move must not reach the board");
    assert_eq!(game.hands[&1].len(), 4, "rejected move must not consume the tile");

    game.perform_move(Move { tile, cell: CellCoord { row: 2, col: 2 }, player_id: 1 })
        .expect("placing on the pawn's cell is legal");
}

#[test]
fn test_stats_count_every_cell_of_a_multi_tile_move() {
    let mut game = Game::new(vec![Player::new(1, PlayerPos::new(1, 1, 7)), Player::new(2, PlayerPos::new(5, 3, 0))]);
    let tile = Tile::new([seg(0, 1), seg(2, 6), seg(3, 7), seg(4, 5)]);

    game.board.place_tile(Move { tile, cell: CellCoord { row: 1, col: 2 }, player_id: 2 });

    game.hands.get_mut(&1).expect("player 1 has a hand").push(tile);
    game.perform_move(Move { tile, cell: CellCoord { row: 1, col: 1 }, player_id: 1 })
        .expect("placing on the pawn's cell is legal");

    assert_eq!(game.players[0].pos.cell, CellCoord { row: 1, col: 3 }, "pawn should traverse both tiles");
    let stats = &game.stats[&1];
    assert_eq!(stats.path_length, 3, "start cell + two cells entered during the move");
    assert_eq!(stats.unique_tiles_visited, 3, "cells (1,1), (1,2), (1,3) all visited");
    assert_eq!(visits(stats, CellCoord { row: 1, col: 2 }), 1);
    assert_eq!(visits(stats, CellCoord { row: 1, col: 3 }), 1);
    assert_eq!(stats.max_visits_to_single_tile, 1);
    assert_eq!(stats.tiles_placed, 1);
    // two crossings, each between opposite sides one row apart: squared length 3*3 + 1*1
    assert_eq!(stats.segment_squares, vec![10, 10]);
}

#[test]
fn test_eliminate_current_player_passes_turn_forward_in_rotation() {
    let mut game = Game::new(vec![
        Player::new(1, PlayerPos::new(2, 2, 0)),
        Player::new(2, PlayerPos::new(5, 3, 0)),
        Player::new(3, PlayerPos::new(2, 0, 6)),
    ]);
    game.current_player_id = 2;
    let deck_before = game.deck.remaining();

    assert!(game.eliminate_player(2));

    assert!(!game.players[1].alive, "player 2 is out");
    assert_eq!(game.current_player_id, 3, "turn continues forward in rotation, not back to player 1");
    assert_eq!(game.deck.remaining(), deck_before + 3, "the eliminated player's hand returns to the deck");
    assert!(game.hands[&2].is_empty(), "hand is emptied");
    assert_eq!(game.stats[&2].elimination_turn, Some(0));
    assert_eq!(game.stats[&2].hand_tiles_remaining, 3);

    assert!(!game.eliminate_player(2));
    assert!(!game.eliminate_player(99));
    assert_eq!(game.current_player_id, 3);
}

#[test]
fn test_eliminate_non_current_player_leaves_turn_untouched() {
    let mut game = Game::new(vec![
        Player::new(1, PlayerPos::new(2, 2, 0)),
        Player::new(2, PlayerPos::new(5, 3, 0)),
        Player::new(3, PlayerPos::new(2, 0, 6)),
    ]);
    assert_eq!(game.current_player_id, 1);

    assert!(game.eliminate_player(3));

    assert_eq!(game.current_player_id, 1, "turn stays with player 1");
    assert!(!game.players[2].alive);
    assert!(!game.is_game_over(), "two players remain, the game continues");

    assert!(game.eliminate_player(2));
    assert!(game.is_game_over(), "one player left means game over");
}

fn suicide_rule_game(hand: Vec<Tile>) -> Game {
    let mut game = Game::new(vec![Player::new(1, PlayerPos::new(0, 2, 5)), Player::new(2, PlayerPos::new(5, 3, 0))]);
    game.hands.insert(1, hand);
    game
}

fn killer_tile() -> Tile {
    Tile::new([seg(4, 5), seg(0, 1), seg(2, 3), seg(6, 7)])
}

fn survivor_tile() -> Tile {
    Tile::new([seg(5, 0), seg(4, 1), seg(2, 3), seg(6, 7)])
}

fn move_of(tile: Tile) -> Move {
    Move { tile, cell: CellCoord { row: 0, col: 2 }, player_id: 1 }
}

#[test]
fn test_simulate_move_reports_eliminations_without_mutating() {
    let game = suicide_rule_game(vec![killer_tile(), survivor_tile()]);

    let eliminated = game.simulate_move(move_of(killer_tile())).expect("the placement itself is valid");
    assert_eq!(eliminated, vec![1], "the killer tile eliminates the mover");

    assert!(game.board.history.is_empty(), "simulation must not mutate");
    assert_eq!(game.current_player_id, 1);
    assert_eq!(game.hands[&1].len(), 2);
}

#[test]
fn test_playable_moves_dedupes_symmetric_rotations() {
    let game = suicide_rule_game(vec![killer_tile(), survivor_tile()]);

    assert_eq!(game.playable_moves(1).len(), 3);

    let survivable = game.survivable_moves(1);
    assert_eq!(survivable.len(), 1, "only the dealt survivor rotation lives");
    assert!(survivable[0].tile.is_same_tile(&survivor_tile()));
}

#[test]
fn test_suicide_rejected_when_a_survivable_move_exists() {
    let mut game = suicide_rule_game(vec![killer_tile(), survivor_tile()]);

    let result = game.perform_move(move_of(killer_tile()));
    assert_eq!(result.unwrap_err(), MoveError::ForcedSuicide);

    assert!(game.board.history.is_empty());
    assert_eq!(game.current_player_id, 1);
    assert_eq!(game.hands[&1].len(), 2);
    assert!(game.players[0].alive);
}

#[test]
fn test_suicide_allowed_when_every_move_is_fatal() {
    let mut game = suicide_rule_game(vec![killer_tile()]);

    let result = game
        .perform_move(move_of(killer_tile()))
        .expect("with no surviving option the fatal placement is legal");

    let TurnResult::PlayerWins { winner, eliminated, .. } = result else {
        panic!("eliminating yourself against one opponent ends the game");
    };
    assert_eq!(winner, 2);
    assert_eq!(eliminated, vec![1]);
    assert!(!game.players[0].alive);
}

#[test]
fn test_random_timeout_move_prefers_survivable() {
    let game = suicide_rule_game(vec![killer_tile(), survivor_tile()]);
    let mov = game.random_timeout_move(1).expect("a player with tiles always has a timeout move");
    assert!(mov.tile.is_same_tile(&survivor_tile()), "with a survivable option the pick never falls on the killer");
    assert!(!game.simulate_move(mov).expect("the pick must be playable").contains(&1), "the picked rotation itself survives");

    let game = suicide_rule_game(vec![killer_tile()]);
    let mov = game.random_timeout_move(1).expect("fatal moves still play");
    assert!(mov.tile.is_same_tile(&killer_tile()));

    let game = suicide_rule_game(vec![]);
    assert!(game.random_timeout_move(1).is_none());
}

#[test]
fn new_game_deals_three_tiles_and_starts_with_the_first_seat() {
    let game = Game::new(vec![Player::new(4, PlayerPos::new(0, 2, 5)), Player::new(7, PlayerPos::new(5, 3, 0))]);
    assert_eq!(game.current_player_id, 4);
    assert_eq!(game.hands[&4].len(), 3);
    assert_eq!(game.hands[&7].len(), 3);
    assert_eq!(game.deck_count(), 29);
    assert_eq!(game.curr_player_hand(), game.hands[&4]);
    assert_eq!(game.player_trails[&7].start_pos, PlayerPos::new(5, 3, 0));
    assert_eq!(game.stats[&4].path_length, 1);
    assert_eq!(game.stats[&4].hand_tiles_remaining, 3);
    assert!(game.board.history.is_empty());
    // nobody seated: player 1 to move
    assert_eq!(Game::new(vec![]).current_player_id, 1);
}

#[test]
fn move_errors_for_wrong_turn_missing_player_occupied_cell_and_missing_tile() {
    let mut game = Game::new(vec![Player::new(1, PlayerPos::new(2, 2, 0)), Player::new(2, PlayerPos::new(3, 3, 0))]);
    let tile = create_straight_tile();
    game.hands.insert(1, vec![tile, create_curve_tile()]);
    game.hands.insert(2, vec![tile]);
    let err = game.perform_move(Move { tile, cell: CellCoord { row: 3, col: 3 }, player_id: 2 }).unwrap_err();
    assert_eq!(err, MoveError::NotYourTurn);
    game.current_player_id = 9;
    let err = game.perform_move(Move { tile, cell: CellCoord { row: 3, col: 3 }, player_id: 9 }).unwrap_err();
    assert_eq!(err, MoveError::PlayerNotInGame);
    game.current_player_id = 1;
    game.board.place_tile(Move { tile, cell: CellCoord { row: 2, col: 2 }, player_id: 2 });
    let err = game.perform_move(Move { tile, cell: CellCoord { row: 2, col: 2 }, player_id: 1 }).unwrap_err();
    assert_eq!(err, MoveError::CellOccupied);
    game.board.history.clear();
    let other = Tile::new([seg(0, 3), seg(1, 2), seg(4, 7), seg(5, 6)]);
    let err = game.perform_move(Move { tile: other, cell: CellCoord { row: 2, col: 2 }, player_id: 1 }).unwrap_err();
    assert_eq!(err, MoveError::TileNotInHand);
    assert_eq!(err.message(), "the player does not have this tile in hand");
}

#[test]
fn a_rotated_hand_tile_can_be_played() {
    let mut game = Game::new(vec![Player::new(1, PlayerPos::new(2, 2, 0)), Player::new(2, PlayerPos::new(3, 3, 0))]);
    let tile = create_curve_tile();
    game.hands.insert(1, vec![tile]);
    let result = game.perform_move(Move { tile: tile.rotated(true), cell: CellCoord { row: 2, col: 2 }, player_id: 1 });
    assert!(result.is_ok());
    assert_eq!(game.board.history.len(), 1);
    // the hand was refilled from the deck after the tile left it
    assert_eq!(game.hands[&1].len(), 3);
    assert_eq!(game.current_player_id, 2);
}

/// Dealing gives every player three tiles, no tile twice, and the deck keeps
/// the rest.
#[test]
fn players_start_with_three_different_tiles_each() {
    let game = Game::new(vec![
        Player::new(1, PlayerPos::new(0, 2, 4)),
        Player::new(2, PlayerPos::new(2, 5, 2)),
        Player::new(3, PlayerPos::new(5, 3, 0)),
        Player::new(4, PlayerPos::new(3, 0, 6)),
    ]);
    let mut dealt: Vec<Tile> = Vec::new();
    for id in 1..=4 {
        assert_eq!(game.hands[&id].len(), 3);
        dealt.extend(game.hands[&id].iter().copied());
    }
    assert_eq!(game.deck_count(), 35 - 12);
    for (i, a) in dealt.iter().enumerate() {
        for b in &dealt[i + 1..] {
            assert_ne!(a, b, "no tile is dealt twice");
        }
    }
}

#[test]
fn a_move_that_closes_a_loop_under_a_pawn_is_found() {
    // three tiles of a loop round the corner of cells (1,1), (1,2), (2,2), (2,1)
    let placed = [
        ((1, 2), Tile::new([seg(0, 7), seg(1, 2), seg(3, 4), seg(5, 6)])),
        ((2, 2), Tile::new([seg(5, 6), seg(0, 1), seg(2, 3), seg(4, 7)])),
        ((2, 1), Tile::new([seg(3, 4), seg(0, 1), seg(2, 5), seg(6, 7)])),
    ];
    let mut game = Game::new(vec![Player::new(1, PlayerPos::new(1, 1, 1)), Player::new(2, PlayerPos::new(5, 3, 0))]);
    game.board = Board::from_history(
        placed.iter().map(|&((row, col), tile)| Move { tile, cell: CellCoord { row, col }, player_id: 2 }).collect(),
    );
    let closing = Move { tile: Tile::new([seg(1, 2), seg(0, 3), seg(4, 5), seg(6, 7)]), cell: CellCoord { row: 1, col: 1 }, player_id: 1 };
    assert!(!game.move_paths_end(closing), "the pawn would go round the loop for ever");
    let leaving = Move { tile: Tile::new([seg(1, 4), seg(0, 3), seg(2, 5), seg(6, 7)]), cell: CellCoord { row: 1, col: 1 }, player_id: 1 };
    assert!(game.move_paths_end(leaving), "the pawn leaves through the top");
}
