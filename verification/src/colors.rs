//! Player colors.
use vstd::prelude::*;

verus! {

/// Red, as an RGB tuple.
pub const RED: (u8, u8, u8) = (255, 80, 80);

/// Blue, as an RGB tuple.
pub const BLUE: (u8, u8, u8) = (80, 80, 255);

/// Green, as an RGB tuple.
pub const GREEN: (u8, u8, u8) = (80, 255, 80);

/// Yellow, as an RGB tuple.
pub const YELLOW: (u8, u8, u8) = (255, 255, 80);

/// Purple, as an RGB tuple.
pub const PURPLE: (u8, u8, u8) = (255, 80, 255);

/// Orange, as an RGB tuple.
pub const ORANGE: (u8, u8, u8) = (255, 165, 80);

/// The color of player `player_id`: the six colors in turn, by id modulo 6.
pub open spec fn player_color(player_id: usize) -> (u8, u8, u8) {
    let k = player_id % 6;
    if k == 0 {
        RED
    } else if k == 1 {
        BLUE
    } else if k == 2 {
        GREEN
    } else if k == 3 {
        YELLOW
    } else if k == 4 {
        PURPLE
    } else {
        ORANGE
    }
}

/// Get the color for a player based on their id.
pub fn get_player_color(player_id: usize) -> (r: (u8, u8, u8))
    ensures
        r == player_color(player_id),
{
    match player_id % 6 {
        0 => RED,
        1 => BLUE,
        2 => GREEN,
        3 => YELLOW,
        4 => PURPLE,
        _ => ORANGE,
    }
}

} // verus!
