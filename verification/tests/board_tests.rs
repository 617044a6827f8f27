use tsurust::board::{seg, Board, CellCoord, Move, PlayerPos, Segment, Tile};

#[test]
fn test_next_pos_edge() {
    let tile = Tile::new([seg(5, 3), seg(6, 7), seg(4, 0), seg(1, 2)]);

    let from = PlayerPos::new(0, 0, 0);
    assert_eq!(Board::traverse_tile(&tile, from), PlayerPos::new(0, 0, 4));
    let from = PlayerPos::new(0, 0, 6);
    assert_eq!(Board::traverse_tile(&tile, from), PlayerPos::new(0, 0, 7));
    let from = PlayerPos::new(0, 0, 7);
    assert_eq!(Board::traverse_tile(&tile, from), PlayerPos::new(0, 0, 6));

    let from = PlayerPos::new(5, 5, 4);
    assert_eq!(Board::traverse_tile(&tile, from), PlayerPos::new(5, 5, 0));
    let from = PlayerPos::new(5, 5, 1);
    assert_eq!(Board::traverse_tile(&tile, from), PlayerPos::new(5, 5, 2));
}

#[test]
fn test_next_pos_not_edge() {
    let tile = Tile::new([seg(5, 3), seg(6, 7), seg(4, 0), seg(1, 2)]);

    let from = PlayerPos::new(0, 0, 1);
    assert_eq!(Board::traverse_tile(&tile, from), PlayerPos::new(0, 1, 7));
}

#[test]
fn test_neighboring_entry() {
    assert_eq!(Board::neighboring_entry(0), 5);
    assert_eq!(Board::neighboring_entry(1), 4);
    assert_eq!(Board::neighboring_entry(2), 7);
    assert_eq!(Board::neighboring_entry(3), 6);
    assert_eq!(Board::neighboring_entry(4), 1);
    assert_eq!(Board::neighboring_entry(5), 0);
    assert_eq!(Board::neighboring_entry(6), 3);
    assert_eq!(Board::neighboring_entry(7), 2);

    assert_eq!(Board::neighboring_entry(5), 0);
    assert_eq!(Board::neighboring_entry(4), 1);
    assert_eq!(Board::neighboring_entry(7), 2);
    assert_eq!(Board::neighboring_entry(6), 3);
    assert_eq!(Board::neighboring_entry(1), 4);
    assert_eq!(Board::neighboring_entry(0), 5);
    assert_eq!(Board::neighboring_entry(3), 6);
    assert_eq!(Board::neighboring_entry(2), 7);
}

#[test]
fn test_traverse_from_chained_tiles() {
    let mut board = Board::new();

    let tile1 = Tile::new([seg(1, 2), seg(0, 3), seg(4, 5), seg(6, 7)]);
    board.place_tile(Move { tile: tile1, cell: CellCoord { row: 0, col: 0 }, player_id: 1 });

    let tile2 = Tile::new([seg(7, 3), seg(0, 1), seg(4, 5), seg(6, 2)]);
    board.place_tile(Move { tile: tile2, cell: CellCoord { row: 0, col: 1 }, player_id: 1 });

    let start_pos = PlayerPos::new(0, 0, 1);

    // (0,0,1) -> (0,0,2) -> (0,1,7) -> (0,1,3) -> (0,2,6)
    let final_pos = board.traverse_from(start_pos);

    assert_eq!(final_pos, PlayerPos::new(0, 2, 6));
}

#[test]
fn test_traverse_from_single_tile_no_infinite_loop() {
    let mut board = Board::new();

    let tile = Tile::new([seg(1, 3), seg(0, 2), seg(4, 5), seg(6, 7)]);
    board.place_tile(Move { tile, cell: CellCoord { row: 0, col: 0 }, player_id: 1 });

    let start_pos = PlayerPos::new(0, 0, 1);

    let final_pos = board.traverse_from(start_pos);

    // exit 3 leads to entry 6 of the cell to the right
    assert_eq!(final_pos, PlayerPos::new(0, 1, 6));
}

#[test]
fn test_traverse_from_circular_path() {
    let mut board = Board::new();

    let tile1 = Tile::new([seg(2, 3), seg(0, 1), seg(4, 5), seg(6, 7)]);
    board.place_tile(Move { tile: tile1, cell: CellCoord { row: 0, col: 0 }, player_id: 1 });

    let tile2 = Tile::new([seg(6, 0), seg(1, 2), seg(3, 4), seg(5, 7)]);
    board.place_tile(Move { tile: tile2, cell: CellCoord { row: 0, col: 1 }, player_id: 1 });

    let tile3 = Tile::new([seg(4, 7), seg(0, 1), seg(2, 3), seg(5, 6)]);
    board.place_tile(Move { tile: tile3, cell: CellCoord { row: 1, col: 1 }, player_id: 1 });

    let tile4 = Tile::new([seg(1, 2), seg(0, 3), seg(4, 5), seg(6, 7)]);
    board.place_tile(Move { tile: tile4, cell: CellCoord { row: 1, col: 0 }, player_id: 1 });

    let start_pos = PlayerPos::new(0, 0, 2);

    let final_pos = board.traverse_from(start_pos);

    println!("Final position: {:?}", final_pos);
}

#[test]
fn test_traverse_from_player_starting_position() {
    let mut board = Board::new();

    let player_pos = PlayerPos::new(0, 0, 7);

    let tile = Tile::new([seg(7, 1), seg(0, 2), seg(3, 4), seg(5, 6)]);
    board.place_tile(Move { tile, cell: CellCoord { row: 0, col: 0 }, player_id: 1 });

    let final_pos = board.traverse_from(player_pos);

    println!("Player moved from {:?} to {:?}", player_pos, final_pos);

    assert_ne!(final_pos, player_pos);
}

#[test]
fn test_traverse_from_board_edge_no_overflow() {
    let mut board = Board::new();

    let tile = Tile::new([seg(2, 3), seg(0, 1), seg(4, 5), seg(6, 7)]);
    board.place_tile(Move { tile, cell: CellCoord { row: 0, col: 5 }, player_id: 1 });

    let start_pos = PlayerPos::new(0, 5, 2);

    let final_pos = board.traverse_from(start_pos);

    assert!(final_pos.on_edge());
    assert_eq!(final_pos.cell, CellCoord { row: 0, col: 5 });
    assert_eq!(final_pos.endpoint, 3);
}

#[test]
fn rotation_of_symmetrical_tile() {
    let tile = Tile::new([seg(0, 5), seg(1, 4), seg(6, 3), seg(7, 2)]);

    assert_eq!(tile.rotated(true), tile);
    assert_eq!(tile.rotated(true).rotated(true), tile);
    assert_eq!(tile.rotated(true).rotated(true).rotated(true), tile);
    assert_eq!(tile.rotated(false), tile);
    assert_eq!(tile.rotated(false).rotated(false), tile);
    assert_eq!(tile.rotated(false).rotated(false).rotated(false), tile);
}

#[test]
fn clockwise_rotation() {
    let tile = Tile::new([seg(7, 5), seg(1, 0), seg(6, 2), seg(3, 4)]);

    assert_eq!(tile.rotated(true), Tile::new([seg(5, 3), seg(6, 7), seg(4, 0), seg(1, 2)]));
    assert_eq!(tile.rotated(true).rotated(true).rotated(true).rotated(true), tile);
}

#[test]
fn counter_clockwise_rotation() {
    let tile = Tile::new([seg(7, 5), seg(1, 0), seg(6, 2), seg(3, 4)]);

    assert_eq!(tile.rotated(false), Tile::new([seg(1, 7), seg(2, 3), seg(0, 4), seg(5, 6)]));
    assert_eq!(tile.rotated(false).rotated(false).rotated(false).rotated(false), tile);
}

#[test]
fn tile_new_sorts_segments_into_one_representation() {
    let a = Tile::new([seg(7, 5), seg(1, 0), seg(6, 2), seg(3, 4)]);
    let b = Tile::new([seg(3, 4), seg(6, 2), seg(0, 1), seg(5, 7)]);
    assert_eq!(a, b);
    assert_eq!(
        a.segments,
        [
            Segment { a: 0, b: 1 },
            Segment { a: 2, b: 6 },
            Segment { a: 3, b: 4 },
            Segment { a: 5, b: 7 }
        ]
    );
}

#[test]
fn segment_new_orders_endpoints() {
    let s = Segment::new(6, 2);
    assert_eq!(s.a(), 2);
    assert_eq!(s.b(), 6);
    assert_eq!(Segment::new(3, 3), Segment { a: 3, b: 3 });
}

#[test]
fn segment_rotation_adds_six_or_two_modulo_eight() {
    assert_eq!(Segment::new(0, 1).rotated(true), Segment::new(6, 7));
    assert_eq!(Segment::new(0, 1).rotated(false), Segment::new(2, 3));
    assert_eq!(Segment::new(3, 7).rotated(true), Segment::new(1, 5));
}

#[test]
fn is_same_tile_accepts_rotations_only() {
    let tile = Tile::new([seg(7, 5), seg(1, 0), seg(6, 2), seg(3, 4)]);
    assert!(tile.is_same_tile(&tile.rotated(true)));
    assert!(tile.is_same_tile(&tile.rotated(false)));
    let other = Tile::new([seg(0, 1), seg(2, 3), seg(4, 5), seg(6, 7)]);
    assert!(!tile.is_same_tile(&other));
}

#[test]
fn on_edge_matches_the_side_of_each_entry_point() {
    assert!(PlayerPos::new(5, 2, 0).on_edge());
    assert!(PlayerPos::new(5, 2, 1).on_edge());
    assert!(!PlayerPos::new(4, 2, 0).on_edge());
    assert!(PlayerPos::new(2, 5, 3).on_edge());
    assert!(PlayerPos::new(0, 3, 4).on_edge());
    assert!(PlayerPos::new(3, 0, 7).on_edge());
    assert!(!PlayerPos::new(3, 0, 2).on_edge());
}

#[test]
fn tile_lookup_and_traversal_of_an_empty_cell() {
    let mut board = Board::new();
    assert!(board.get_tile_at(CellCoord { row: 1, col: 1 }).is_none());
    let tile = Tile::new([seg(0, 1), seg(2, 3), seg(4, 5), seg(6, 7)]);
    board.place_tile(Move { tile, cell: CellCoord { row: 1, col: 1 }, player_id: 1 });
    assert_eq!(board.get_tile_at(CellCoord { row: 1, col: 1 }), Some(&tile));
    // a pawn in a cell without a tile stays where it is
    let p = PlayerPos::new(2, 2, 3);
    assert_eq!(board.traverse_from(p), p);
    let rebuilt = Board::from_history(board.history.clone());
    assert_eq!(rebuilt.history.len(), 1);
}

#[test]
fn trace_from_records_each_tile_crossed() {
    let mut board = Board::new();
    let tile1 = Tile::new([seg(1, 2), seg(0, 3), seg(4, 5), seg(6, 7)]);
    board.place_tile(Move { tile: tile1, cell: CellCoord { row: 0, col: 0 }, player_id: 1 });
    let tile2 = Tile::new([seg(7, 3), seg(0, 1), seg(4, 5), seg(6, 2)]);
    board.place_tile(Move { tile: tile2, cell: CellCoord { row: 0, col: 1 }, player_id: 1 });
    let trail = board.trace_from(PlayerPos::new(0, 0, 1));
    assert_eq!(trail.length(), 2);
    assert_eq!(trail.segments[0].board_pos, (0, 0));
    assert_eq!(trail.segments[0].entry_point, 1);
    assert_eq!(trail.segments[0].exit_point, 2);
    assert_eq!(trail.segments[1].board_pos, (0, 1));
    assert_eq!(trail.end_pos, PlayerPos::new(0, 2, 6));
    assert!(!trail.completed);
}

#[test]
fn tiles_are_written_by_their_segments() {
    let tile = Tile::new([Segment::new(1, 0), Segment::new(2, 3), Segment::new(4, 5), Segment::new(6, 7)]);
    assert_eq!(tile.label(), "Tile(0-1, 2-3, 4-5, 6-7)");
}

#[test]
fn a_tile_has_one_form_whatever_the_segment_order() {
    let a = Tile::new([seg(6, 7), seg(1, 0), seg(4, 5), seg(3, 2)]);
    let b = Tile::new([seg(0, 1), seg(2, 3), seg(4, 5), seg(6, 7)]);
    assert_eq!(a, b);
    assert_eq!(a.segments, [seg(0, 1), seg(2, 3), seg(4, 5), seg(6, 7)]);
}

#[test]
fn a_placed_tile_is_read_back_from_its_cell() {
    let mut board = Board::new();
    let tile = Tile::new([seg(0, 1), seg(2, 3), seg(4, 5), seg(6, 7)]);
    let cell = CellCoord { row: 2, col: 3 };
    assert!(board.get_tile_at(cell).is_none());
    board.place_tile(Move { tile, cell, player_id: 1 });
    assert_eq!(board.get_tile_at(cell), Some(&tile));
    assert!(board.get_tile_at(CellCoord { row: 3, col: 2 }).is_none());
}

#[test]
fn a_bounded_walk_finds_where_a_path_stops() {
    let mut board = Board::new();
    let tile1 = Tile::new([seg(1, 2), seg(0, 3), seg(4, 5), seg(6, 7)]);
    board.place_tile(Move { tile: tile1, cell: CellCoord { row: 0, col: 0 }, player_id: 1 });
    let tile2 = Tile::new([seg(7, 3), seg(0, 1), seg(4, 5), seg(6, 2)]);
    board.place_tile(Move { tile: tile2, cell: CellCoord { row: 0, col: 1 }, player_id: 1 });

    assert_eq!(board.try_traverse_from(PlayerPos::new(0, 0, 1)), Some(PlayerPos::new(0, 2, 6)));
    // an empty cell: the path stops where it is
    assert_eq!(board.try_traverse_from(PlayerPos::new(3, 3, 5)), Some(PlayerPos::new(3, 3, 5)));
}

#[test]
fn a_bounded_walk_reports_a_closed_loop() {
    let mut board = Board::new();
    // four tiles around one corner join into a closed loop:
    // (1,1,1) -> (1,2,7) -> (2,2,5) -> (2,1,3) -> (1,1,1)
    let a = Tile::new([seg(1, 2), seg(0, 3), seg(4, 5), seg(6, 7)]);
    board.place_tile(Move { tile: a, cell: CellCoord { row: 1, col: 1 }, player_id: 1 });
    let b = Tile::new([seg(0, 7), seg(1, 2), seg(3, 4), seg(5, 6)]);
    board.place_tile(Move { tile: b, cell: CellCoord { row: 1, col: 2 }, player_id: 1 });
    let c = Tile::new([seg(5, 6), seg(0, 1), seg(2, 3), seg(4, 7)]);
    board.place_tile(Move { tile: c, cell: CellCoord { row: 2, col: 2 }, player_id: 1 });
    let d = Tile::new([seg(3, 4), seg(0, 1), seg(2, 5), seg(6, 7)]);
    board.place_tile(Move { tile: d, cell: CellCoord { row: 2, col: 1 }, player_id: 1 });

    assert_eq!(board.try_traverse_from(PlayerPos::new(1, 1, 1)), None);
    // the pawn entering the loop's first tile from its top leaves it again
    assert_eq!(board.try_traverse_from(PlayerPos::new(1, 1, 4)), Some(PlayerPos::new(0, 1, 0)));
}

#[test]
fn every_path_from_the_border_stops() {
    let mut board = Board::new();
    // the closed loop around the corner of cells (1,1), (1,2), (2,2), (2,1)
    let loop_tiles = [
        ((1, 1), Tile::new([seg(1, 2), seg(0, 3), seg(4, 5), seg(6, 7)])),
        ((1, 2), Tile::new([seg(0, 7), seg(1, 2), seg(3, 4), seg(5, 6)])),
        ((2, 2), Tile::new([seg(5, 6), seg(0, 1), seg(2, 3), seg(4, 7)])),
        ((2, 1), Tile::new([seg(3, 4), seg(0, 1), seg(2, 5), seg(6, 7)])),
        ((0, 1), Tile::new([seg(0, 5), seg(1, 4), seg(2, 7), seg(3, 6)])),
        ((1, 0), Tile::new([seg(0, 2), seg(1, 3), seg(4, 6), seg(5, 7)])),
        ((0, 0), Tile::new([seg(0, 7), seg(1, 6), seg(2, 5), seg(3, 4)])),
    ];
    for ((row, col), tile) in loop_tiles {
        board.place_tile(Move { tile, cell: CellCoord { row, col }, player_id: 1 });
    }
    assert_eq!(board.try_traverse_from(PlayerPos::new(1, 1, 1)), None, "the loop itself never stops");
    let mut starts = Vec::new();
    for i in 0..6 {
        starts.extend([
            PlayerPos::new(0, i, 4),
            PlayerPos::new(0, i, 5),
            PlayerPos::new(5, i, 0),
            PlayerPos::new(5, i, 1),
            PlayerPos::new(i, 0, 6),
            PlayerPos::new(i, 0, 7),
            PlayerPos::new(i, 5, 2),
            PlayerPos::new(i, 5, 3),
        ]);
    }
    for start in starts {
        assert!(board.try_traverse_from(start).is_some(), "the path from {:?} stops", start);
    }
}
