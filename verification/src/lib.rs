//! # Tsurust
//! The game of Tsuro: players place path tiles on a 6 by 6 board and their
//! pawns follow the paths; a pawn led off the board is out, and the last
//! one standing wins. This library holds the rules, the lobby in which a
//! game is set up, the rooms of the server, and what a client computes of
//! them; each part is specified and proved with Verus.
//!
//! Each cell has 8 entry points (2 on each side), numbered from 0 to 7.
//! Placing a tile in a cell connects its entry points in pairs, and through
//! them the paths of the neighbouring cells.
//!
//! All cell entry points with their number:
//!  ┌ 5 ──── 4 ┐
//!  6          3
//!  │          │
//!  7          2
//!  └ 0 ──── 1 ┘
pub mod board;
pub mod board_laws;
pub mod path_laws;
pub mod segment_buffer;
pub mod colors;
pub mod deck;
pub mod random;
pub mod trail;
pub mod game_model;
pub mod game;
pub mod game_laws;
pub mod lobby;
pub mod protocol;
pub mod text;
pub mod room;
pub mod client;
pub mod client_session;
pub mod client_play;
pub mod standings;
pub mod replay;
pub mod listing;
pub mod session;
pub mod links;
