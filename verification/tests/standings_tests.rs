use tsurust::board::{Player, PlayerPos};
use tsurust::game::Game;
use tsurust::standings::{in_play_first, standings, winner};

fn three_players() -> Game {
    Game::new(vec![
        Player::new(1, PlayerPos::new(0, 2, 4)),
        Player::new(2, PlayerPos::new(2, 5, 2)),
        Player::new(3, PlayerPos::new(5, 3, 0)),
    ])
}

#[test]
fn the_winner_is_the_only_player_left() {
    let mut game = three_players();
    assert_eq!(winner(&game), None);
    game.players[0].alive = false;
    assert_eq!(winner(&game), None);
    game.players[2].alive = false;
    assert_eq!(winner(&game), Some(2));
    game.players[1].alive = false;
    assert_eq!(winner(&game), None);
}

#[test]
fn standings_put_survivors_then_longer_lives_first() {
    let mut game = three_players();
    game.players[0].alive = false;
    game.players[1].alive = false;
    game.stats.get_mut(&1).unwrap().turns_survived = 4;
    game.stats.get_mut(&2).unwrap().turns_survived = 6;
    game.stats.get_mut(&3).unwrap().turns_survived = 1;
    // Player 3 is still in play, then 2 outlived 1.
    assert_eq!(standings(&game), vec![2, 1, 0]);

    // Level on turns: the longer path first; level on both: seat order.
    game.stats.get_mut(&1).unwrap().turns_survived = 6;
    game.stats.get_mut(&1).unwrap().path_length = 9;
    game.stats.get_mut(&2).unwrap().path_length = 3;
    assert_eq!(standings(&game), vec![2, 0, 1]);
    game.stats.get_mut(&2).unwrap().path_length = 9;
    assert_eq!(standings(&game), vec![2, 0, 1]);

    // Players without statistics come after those with them.
    game.stats.remove(&1);
    assert_eq!(standings(&game), vec![2, 1, 0]);
}

#[test]
fn cards_show_players_in_play_first() {
    let mut game = three_players();
    assert_eq!(in_play_first(&game), vec![0, 1, 2]);
    game.players[0].alive = false;
    assert_eq!(in_play_first(&game), vec![1, 2, 0]);
    game.players[2].alive = false;
    assert_eq!(in_play_first(&game), vec![1, 0, 2]);
}
