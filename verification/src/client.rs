//! What a client shows of players and lobbies, apart from the drawing.
use vstd::prelude::*;
use vstd::string::{StrSliceExecFns, StringSliceAdditionalSpecFns};

use crate::board::{same_tile, tile_rotatable, Player, PlayerID, Tile};
use crate::lobby::Lobby;
use crate::links::{trim_text, trimmed};
use crate::protocol::{ClientMessage, LobbyListing};
use crate::text::joined;

verus! {

/// The state of a client's connection to the server.
#[derive(Debug, Clone)]
pub enum ConnectionStatus {
    Connecting,
    Connected,
    /// The socket closed or failed; there is no reconnection.
    Disconnected { reason: String },
}

/// The lobby's board as a client shows it: the spawn positions of the
/// players, and the free ones on the border.
pub struct LobbyBoard<'a> {
    pub lobby: &'a Lobby,
    pub current_player_id: PlayerID,
}

/// Entry point `endpoint` of cell (`row`, `col`) lies on the outer border of
/// the board.
pub open spec fn outer_endpoint(row: usize, col: usize, endpoint: usize) -> bool {
    ||| row == 0 && (endpoint == 4 || endpoint == 5)
    ||| row == 5 && (endpoint == 0 || endpoint == 1)
    ||| col == 0 && (endpoint == 6 || endpoint == 7)
    ||| col == 5 && (endpoint == 2 || endpoint == 3)
}

impl<'a> LobbyBoard<'a> {
    /// The board of `lobby`, seen by `current_player_id`.
    pub fn new(lobby: &'a Lobby, current_player_id: PlayerID) -> (r: LobbyBoard<'a>)
        ensures
            r.lobby == lobby,
            r.current_player_id == current_player_id,
    {
        LobbyBoard { lobby, current_player_id }
    }

    /// Whether entry point `endpoint` of cell (`row`, `col`) lies on the
    /// outer border of the board: only those are offered as spawn positions.
    pub fn is_outer_endpoint(&self, row: usize, col: usize, endpoint: usize) -> (r: bool)
        ensures
            r == outer_endpoint(row, col, endpoint),
    {
        (row == 0 && (endpoint == 4 || endpoint == 5)) || (row == 5 && (endpoint == 0 || endpoint
            == 1)) || (col == 0 && (endpoint == 6 || endpoint == 7)) || (col == 5 && (endpoint
            == 2 || endpoint == 3))
    }
}

/// A player's card: color, hand size, and whether the player moves now or
/// has won.
pub struct PlayerCard<'a> {
    pub player: &'a Player,
    pub hand_size: usize,
    pub max_hand_size: usize,
    pub is_current: bool,
    pub has_dragon: bool,
    pub is_winner: bool,
}

impl<'a> PlayerCard<'a> {
    /// The card of `player` holding `hand_size` tiles (of at most 3).
    pub fn new(player: &'a Player, hand_size: usize, has_dragon: bool) -> (r: PlayerCard<'a>)
        ensures
            r.player == player,
            r.hand_size == hand_size,
            r.max_hand_size == 3,
            !r.is_current,
            r.has_dragon == has_dragon,
            !r.is_winner,
    {
        PlayerCard { player, hand_size, max_hand_size: 3, is_current: false, has_dragon, is_winner: false }
    }

    /// The same card, marked as the player to move.
    pub fn current_player(self) -> (r: PlayerCard<'a>)
        ensures
            r == (PlayerCard { is_current: true, ..self }),
    {
        let mut card = self;
        card.is_current = true;
        card
    }

    /// The same card, marked as the winner.
    pub fn winner(self) -> (r: PlayerCard<'a>)
        ensures
            r == (PlayerCard { is_winner: true, ..self }),
    {
        let mut card = self;
        card.is_winner = true;
        card
    }
}

/// The name shown for an RGB color.
pub open spec fn color_name(color: (u8, u8, u8)) -> Seq<char> {
    if color == (255u8, 0u8, 0u8) {
        "Red"@
    } else if color == (0u8, 255u8, 0u8) {
        "Green"@
    } else if color == (0u8, 0u8, 255u8) {
        "Blue"@
    } else if color == (255u8, 255u8, 0u8) {
        "Yellow"@
    } else if color == (255u8, 0u8, 255u8) {
        "Magenta"@
    } else if color == (0u8, 255u8, 255u8) {
        "Cyan"@
    } else if color == (255u8, 128u8, 0u8) {
        "Orange"@
    } else if color == (128u8, 0u8, 128u8) {
        "Purple"@
    } else {
        "Unknown"@
    }
}

/// The name shown for an RGB color ("Unknown" for a color without one).
pub fn color_to_name(color: (u8, u8, u8)) -> (r: &'static str)
    ensures
        r@ == color_name(color),
{
    let (red, green, blue) = color;
    if red == 255 && green == 0 && blue == 0 {
        "Red"
    } else if red == 0 && green == 255 && blue == 0 {
        "Green"
    } else if red == 0 && green == 0 && blue == 255 {
        "Blue"
    } else if red == 255 && green == 255 && blue == 0 {
        "Yellow"
    } else if red == 255 && green == 0 && blue == 255 {
        "Magenta"
    } else if red == 0 && green == 255 && blue == 255 {
        "Cyan"
    } else if red == 255 && green == 128 && blue == 0 {
        "Orange"
    } else if red == 128 && green == 0 && blue == 128 {
        "Purple"
    } else {
        "Unknown"
    }
}

/// The label of a turn clock setting.
pub open spec fn timer_label(value: Option<u64>) -> Seq<char> {
    match value {
        None => "No timer"@,
        Some(s) => if s == 30 {
            "30 seconds"@
        } else if s == 60 {
            "1 minute"@
        } else if s == 180 {
            "3 minutes"@
        } else if s == 86_400 {
            "24 hours (correspondence)"@
        } else {
            "Custom"@
        },
    }
}

/// The label of a turn clock setting ("Custom" for any other number of
/// seconds than the offered ones).
pub fn turn_timer_label(value: Option<u64>) -> (r: &'static str)
    ensures
        r@ == timer_label(value),
{
    match value {
        None => "No timer",
        Some(s) => if s == 30 {
            "30 seconds"
        } else if s == 60 {
            "1 minute"
        } else if s == 180 {
            "3 minutes"
        } else if s == 86_400 {
            "24 hours (correspondence)"
        } else {
            "Custom"
        },
    }
}

/// What a client's connection to the server holds apart from the socket:
/// whether it is open, its status, and the messages waiting for it to
/// open.
pub struct ConnectionState {
    pub connected: bool,
    pub status: ConnectionStatus,
    pub pending_messages: Vec<ClientMessage>,
}

/// The connection was lost for `reason`.
pub open spec fn disconnected_because(status: ConnectionStatus, reason: Seq<char>) -> bool {
    match status {
        ConnectionStatus::Disconnected { reason: r } => r@ == reason,
        _ => false,
    }
}

/// The reason given when the socket reports an error.
pub open spec fn error_reason_text(error: Seq<char>) -> Seq<char> {
    "connection error: "@ + error
}

impl ConnectionState {
    /// A connection being opened, with nothing queued.
    pub fn new() -> (r: ConnectionState)
        ensures
            !r.connected,
            r.status is Connecting,
            r.pending_messages@ == Seq::<ClientMessage>::empty(),
    {
        ConnectionState { connected: false, status: ConnectionStatus::Connecting, pending_messages: Vec::new() }
    }

    /// A message to send: returned to be transmitted now when the
    /// connection is open, otherwise queued until it opens.
    pub fn outgoing(&mut self, msg: ClientMessage) -> (r: Option<ClientMessage>)
        ensures
            final(self).connected == old(self).connected,
            final(self).status == old(self).status,
            old(self).connected ==> {
                &&& r == Some(msg)
                &&& final(self).pending_messages@ == old(self).pending_messages@
            },
            !old(self).connected ==> {
                &&& r is None
                &&& final(self).pending_messages@ == old(self).pending_messages@.push(msg)
            },
    {
        if self.connected {
            Some(msg)
        } else {
            self.pending_messages.push(msg);
            None
        }
    }

    /// The socket opened: the connection is up, and the queued messages are
    /// returned, in the order they were queued, to be transmitted.
    pub fn opened(&mut self) -> (r: Vec<ClientMessage>)
        ensures
            final(self).connected,
            final(self).status is Connected,
            final(self).pending_messages@ == Seq::<ClientMessage>::empty(),
            r@ == old(self).pending_messages@,
    {
        self.connected = true;
        self.status = ConnectionStatus::Connected;
        let mut pending: Vec<ClientMessage> = Vec::new();
        std::mem::swap(&mut pending, &mut self.pending_messages);
        pending
    }

    /// The connection is lost for good: it is closed, the queued messages
    /// are dropped, and the status records `reason`. A connection already
    /// lost keeps its first reason.
    pub fn mark_disconnected(&mut self, reason: String)
        ensures
            old(self).status is Disconnected ==> {
                &&& final(self).connected == old(self).connected
                &&& final(self).status == old(self).status
                &&& final(self).pending_messages@ == old(self).pending_messages@
            },
            !(old(self).status is Disconnected) ==> {
                &&& !final(self).connected
                &&& final(self).pending_messages@ == Seq::<ClientMessage>::empty()
                &&& final(self).status == (ConnectionStatus::Disconnected { reason })
            },
    {
        if let ConnectionStatus::Disconnected { .. } = self.status {
            return;
        }
        self.connected = false;
        self.pending_messages.clear();
        self.status = ConnectionStatus::Disconnected { reason };
    }

    /// The socket reported `error`.
    pub fn failed(&mut self, error: &str)
        ensures
            old(self).status is Disconnected ==> final(self).status == old(self).status,
            !(old(self).status is Disconnected) ==> !final(self).connected && disconnected_because(
                final(self).status,
                error_reason_text(error@),
            ),
    {
        let reason = joined("connection error: ", error);
        self.mark_disconnected(reason);
    }

    /// The socket closed.
    pub fn closed(&mut self)
        ensures
            old(self).status is Disconnected ==> final(self).status == old(self).status,
            !(old(self).status is Disconnected) ==> !final(self).connected && disconnected_because(
                final(self).status,
                "connection closed"@,
            ),
    {
        let reason = crate::text::owned_text("connection closed");
        self.mark_disconnected(reason);
    }
}

/// The hand received from the server, each tile replaced by the player's own
/// copy in the same slot when that copy is the same tile up to rotation:
/// rotating a tile in hand is presentation only, and the server's copy would
/// undo it.
pub open spec fn with_local_rotations(local: Seq<Tile>, received: Seq<Tile>) -> Seq<Tile> {
    Seq::new(
        received.len(),
        |i: int|
            if i < local.len() && same_tile(local[i], received[i]) {
                local[i]
            } else {
                received[i]
            },
    )
}

/// Keeps the player's rotations of the tiles in hand across a server update
/// (see [`with_local_rotations`]).
pub fn keep_local_rotations(local: &Vec<Tile>, received: &mut Vec<Tile>)
    requires
        forall|i: int| 0 <= i < local@.len() ==> tile_rotatable(#[trigger] local@[i], true),
    ensures
        final(received)@ == with_local_rotations(local@, old(received)@),
{
    let ghost r0 = received@;
    let mut slot: usize = 0;
    while slot < received.len()
        invariant
            slot <= received@.len(),
            received@.len() == r0.len(),
            forall|i: int| 0 <= i < local@.len() ==> tile_rotatable(#[trigger] local@[i], true),
            forall|i: int| 0 <= i < slot ==> received@[i] == with_local_rotations(local@, r0)[i],
            forall|i: int| slot <= i < r0.len() ==> received@[i] == r0[i],
        decreases received@.len() - slot,
    {
        if slot < local.len() {
            let old_tile = local[slot];
            if old_tile.is_same_tile(&received[slot]) {
                received.set(slot, old_tile);
            }
        }
        slot = slot + 1;
    }
    assert(received@ =~= with_local_rotations(local@, r0));
}

/// Rotations are the player's own business: after an update every tile of
/// the hand is the server's tile, or that tile turned.
pub proof fn law_kept_rotations_hold_the_servers_tiles(local: Seq<Tile>, received: Seq<Tile>)
    ensures
        with_local_rotations(local, received).len() == received.len(),
        forall|i: int|
            0 <= i < received.len() ==> #[trigger] with_local_rotations(local, received)[i]
                == received[i] || same_tile(with_local_rotations(local, received)[i], received[i]),
{
}

/// A player name counts once it is not blank.
pub open spec fn named(player_name: Seq<char>) -> bool {
    trimmed(player_name).len() > 0
}

/// A public lobby of the join screen can be joined: its game has not
/// started, it is not full, the player has a name, and no request is on
/// its way.
pub fn can_join_listing(listing: &LobbyListing, player_name: &String, idle: bool) -> (r: bool)
    ensures
        r == (!listing.in_progress && listing.player_count < listing.max_players && named(
            player_name@,
        ) && idle),
{
    let name = trim_text(player_name);
    !listing.in_progress && listing.player_count < listing.max_players && name.as_str().unicode_len()
        > 0 && idle
}

/// A game of the join screen can be watched: it has started and no request
/// is on its way.
pub fn can_spectate_listing(listing: &LobbyListing, idle: bool) -> (r: bool)
    ensures
        r == (listing.in_progress && idle),
{
    listing.in_progress && idle
}

/// A room code typed on the join screen can be sent: it is four bytes long
/// once trimmed, the player has a name, and no request is on its way.
pub fn can_join_by_code(lobby_id: &String, player_name: &String, idle: bool) -> (r: bool)
    ensures
        r == (vstd::utf8::encode_utf8(trimmed(lobby_id@)).len() == 4 && named(player_name@) && idle),
{
    let code = trim_text(lobby_id);
    let name = trim_text(player_name);
    let bytes = code.as_str().as_bytes();
    bytes.len() == 4 && name.as_str().unicode_len() > 0 && idle
}

} // verus!
