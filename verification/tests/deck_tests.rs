use tsurust::board::{seg, PlayerPos, Tile};
use tsurust::colors::{get_player_color, BLUE, GREEN, ORANGE, PURPLE, RED, YELLOW};
use tsurust::deck::Deck;
use tsurust::trail::{Trail, TrailSegment};

#[test]
fn take_works() {
    let mut deck = Deck::new();

    assert!(deck.take().is_some());
    assert_eq!(deck.take_up_to(3).len(), 3);
    assert_eq!(deck.take_up_to(50).len(), 31); // the remaining 31 tiles come off
    assert!(deck.take().is_none()); // depleted
}

#[test]
fn new_deck_holds_the_35_distinct_tiles() {
    let mut deck = Deck::new();
    assert_eq!(deck.remaining(), 35);
    let tiles = deck.take_up_to(35);
    assert!(deck.is_empty());
    for i in 0..tiles.len() {
        for j in (i + 1)..tiles.len() {
            assert_ne!(tiles[i], tiles[j]);
        }
    }
    let straight = Tile::new([seg(0, 1), seg(2, 3), seg(4, 5), seg(6, 7)]);
    assert!(tiles.contains(&straight));
}

#[test]
fn put_returns_tiles_to_the_top_of_the_pile() {
    let mut deck = Deck::new_empty();
    assert!(deck.is_empty());
    let a = Tile::new([seg(0, 1), seg(2, 3), seg(4, 5), seg(6, 7)]);
    let b = Tile::new([seg(0, 2), seg(1, 3), seg(4, 6), seg(5, 7)]);
    let mut hand = vec![a, b];
    deck.put(&mut hand);
    assert!(hand.is_empty());
    assert_eq!(deck.remaining(), 2);
    // the last tile put back is the next one drawn
    assert_eq!(deck.take(), Some(b));
    assert_eq!(deck.take(), Some(a));
    assert_eq!(deck.take(), None);
}

#[test]
fn take_up_to_then_put_restores_the_pile() {
    let mut deck = Deck::new();
    let mut copy = deck.clone();
    let mut drawn = deck.take_up_to(5);
    assert_eq!(drawn.len(), 5);
    deck.put(&mut drawn);
    assert_eq!(deck.remaining(), 35);
    for _ in 0..35 {
        assert_eq!(deck.take(), copy.take());
    }
}

#[test]
fn player_colors_cycle_through_six() {
    assert_eq!(get_player_color(0), RED);
    assert_eq!(get_player_color(1), BLUE);
    assert_eq!(get_player_color(2), GREEN);
    assert_eq!(get_player_color(3), YELLOW);
    assert_eq!(get_player_color(4), PURPLE);
    assert_eq!(get_player_color(5), ORANGE);
    assert_eq!(get_player_color(6), RED);
    assert_eq!(get_player_color(13), BLUE);
}

#[test]
fn trail_grows_by_one_segment_at_a_time() {
    let start = PlayerPos::new(1, 1, 0);
    let mut trail = Trail::new(start);
    assert_eq!(trail.length(), 0);
    assert_eq!(trail.start_pos, start);
    assert_eq!(trail.end_pos, start);
    assert!(!trail.completed);
    trail.add_segment(TrailSegment { board_pos: (1, 1), entry_point: 0, exit_point: 1 });
    trail.add_segment(TrailSegment { board_pos: (2, 1), entry_point: 4, exit_point: 0 });
    assert_eq!(trail.length(), 2);
    assert_eq!(trail.segments[1].board_pos, (2, 1));
}
