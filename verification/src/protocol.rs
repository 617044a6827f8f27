//! The messages exchanged between clients and the server.
use std::collections::HashMap;

use vstd::prelude::*;

use crate::board::{Move, PlayerID, PlayerPos};
use crate::game::{Game, TurnResult};
use crate::game_model::GameView;
use crate::lobby::{Lobby, Visibility};

verus! {

/// The code of a room.
pub type RoomId = String;

/// One row of the public lobby directory, as shown in the join screen's
/// browser.
#[derive(Debug, Clone)]
pub struct LobbyListing {
    pub room_id: RoomId,
    pub name: String,
    pub player_count: usize,
    pub max_players: usize,
    /// True once the room's game has started: it can be spectated but no
    /// longer joined.
    pub in_progress: bool,
}

/// A request from a client.
#[derive(Debug, Clone)]
pub enum ClientMessage {
    /// Create a room; `turn_timer_secs` is the clock each player has for a
    /// turn, if turns are timed.
    CreateRoom { room_name: String, creator_name: String, visibility: Visibility, turn_timer_secs: Option<u64> },
    JoinRoom { room_id: RoomId, player_name: String },
    /// Ask for the public lobby directory; answered with `LobbyList`.
    ListLobbies,
    /// Follow an in-progress game's broadcasts without playing.
    SpectateRoom { room_id: RoomId },
    LeaveRoom { room_id: RoomId, player_id: PlayerID },
    PlaceTile { room_id: RoomId, player_id: PlayerID, mov: Move },
    GetGameState { room_id: RoomId },
    PlacePawn { room_id: RoomId, player_id: PlayerID, position: PlayerPos },
    StartGame { room_id: RoomId },
}

/// A message from the server.
#[derive(Debug, Clone)]
pub enum ServerMessage {
    RoomCreated { room_id: RoomId, player_id: PlayerID },
    PlayerJoined { room_id: RoomId, player_id: PlayerID, player_name: String },
    PlayerLeft { room_id: RoomId, player_id: PlayerID },
    /// A game state: `state` as the receiver may see it, every player's
    /// hand size and the deck's size, which survive the hiding of hands, and
    /// the seconds left on the turn clock, if one runs.
    GameStateUpdate {
        room_id: RoomId,
        state: Game,
        hand_counts: HashMap<PlayerID, usize>,
        deck_count: usize,
        turn_deadline_secs: Option<u64>,
    },
    /// A turn was played; `auto_played` when the server played it for a
    /// player whose clock ran out.
    TurnCompleted { room_id: RoomId, result: TurnResult, auto_played: bool },
    Error { message: String },
    /// The public lobby directory, in response to `ListLobbies`.
    LobbyList { lobbies: Vec<LobbyListing> },
    LobbyStateUpdate { room_id: RoomId, lobby: Lobby },
    PawnPlaced { room_id: RoomId, player_id: PlayerID, position: PlayerPos },
    /// The game began: its state, every player's hand size, and the
    /// seconds of the first turn's clock, if turns are timed.
    GameStarted {
        room_id: RoomId,
        game: Game,
        hand_counts: HashMap<PlayerID, usize>,
        turn_deadline_secs: Option<u64>,
    },
}

/// `counts` holds the hand size of every player with a hand in game `g`,
/// and nothing else.
pub open spec fn counts_hands(counts: Map<PlayerID, usize>, g: GameView) -> bool {
    &&& counts.dom() == g.hands.dom()
    &&& forall|id: PlayerID| #[trigger] counts.contains_key(id) ==> counts[id] == g.hands[id].len()
}

/// The turn clock reading a message carries, for a game state or a start.
pub open spec fn clock_told(m: ServerMessage) -> Option<u64> {
    match m {
        ServerMessage::GameStateUpdate { turn_deadline_secs, .. } => turn_deadline_secs,
        ServerMessage::GameStarted { turn_deadline_secs, .. } => turn_deadline_secs,
        _ => None,
    }
}

} // verus!
