//! A game room on the server: a lobby that turns into a game, and the
//! channel on which its updates are broadcast to the connected clients.
use std::time::{Duration, Instant};

use tokio::sync::broadcast::Sender;
use vstd::prelude::*;

use crate::board::{Move, Player, PlayerID, PlayerPos, Tile};
use crate::game::{Game, TurnResult};
use crate::game_model::{
    alive_count, alive_count_upto, can_perform, eliminate_player, move_error_text, new_game,
    perform_move, playable_moves, playable_moves_terminate, survivable_moves, GameView, MoveError,
    TurnOutcome,
};
use crate::lobby::{
    highest_id, highest_player_id, lobby_colors_first_is_free, all_placed, lemma_placed_order_len, lobby_after, lobby_error_text, placed_order, seated,
    Lobby, LobbyError, LobbyEvent, LobbyId, LobbyView, Visibility,
};
use crate::protocol::{clock_told, counts_hands, RoomId, ServerMessage};
use crate::random::{random_below, thread_rng};
use crate::text::{append_char, append_text, decimal, decimal_text, joined, owned_text};

verus! {

/// `tokio::sync::broadcast::Sender`, the sending half of a broadcast
/// channel.
#[verifier::external_type_specification]
#[verifier::external_body]
#[verifier::reject_recursive_types(T)]
pub struct ExSender<T>(Sender<T>);

/// `std::time::Instant`, a point in time.
#[verifier::external_type_specification]
#[verifier::external_body]
pub struct ExInstant(Instant);

/// `tokio::sync::broadcast::channel` with room for 100 messages; returns
/// the sending half (clients subscribe to it later).
#[verifier::external_body]
fn open_channel() -> Sender<ServerMessage> {
    tokio::sync::broadcast::channel(100).0
}

/// `Sender::send`: hands `message` to every subscribed receiver. Whether
/// it went anywhere (nobody may be subscribed) is not stated.
#[verifier::external_body]
fn send_update(tx: &Sender<ServerMessage>, message: ServerMessage) {
    let _ = tx.send(message);
}

/// `Instant::now`: the current time. Nothing is stated of it.
#[verifier::external_body]
fn now() -> Instant {
    Instant::now()
}

/// `Duration::from_secs`: a span of `secs` whole seconds.
#[verifier::external_body]
fn seconds(secs: u64) -> Duration {
    Duration::from_secs(secs)
}

/// `Instant::checked_add`: the instant `span` after `at`; `None` when that
/// instant cannot be represented. Nothing is stated of the instant itself.
#[verifier::external_body]
fn checked_later(at: Instant, span: Duration) -> Option<Instant> {
    at.checked_add(span)
}

/// `Instant::saturating_duration_since`: the span from `earlier` to `at`,
/// or zero when `earlier` is the later one. Nothing is stated of it.
#[verifier::external_body]
fn span_since(at: Instant, earlier: Instant) -> Duration {
    at.saturating_duration_since(earlier)
}

/// `Duration::as_secs`: the whole seconds of `span`. Nothing is stated of
/// them, as nothing is stated of the spans measured here.
#[verifier::external_body]
fn whole_secs(span: Duration) -> u64 {
    span.as_secs()
}

/// `Sender::receiver_count`: how many receivers are subscribed to the
/// channel now. Nothing is stated of it: connections come and go.
#[verifier::external_body]
fn receiver_count(tx: &Sender<ServerMessage>) -> usize {
    tx.receiver_count()
}

/// The end of a turn clock of `secs` seconds started now; `None` when that
/// instant cannot be represented.
fn deadline_in(secs: u64) -> Option<Instant> {
    checked_later(now(), seconds(secs))
}

/// A room either gathers players in a lobby or runs a game.
pub enum RoomPhase {
    Lobby(Lobby),
    Playing(Game),
}

/// The whole seconds left of a clock that runs out at `deadline`, or 0
/// once it has.
fn secs_left(deadline: Instant) -> u64 {
    whole_secs(span_since(deadline, now()))
}

/// A room can be removed: no client follows it (`receivers`) and it has
/// been idle for `timeout_secs` whole seconds or more (`idle_secs`).
pub open spec fn abandoned(receivers: usize, idle_secs: u64, timeout_secs: u64) -> bool {
    receivers == 0 && idle_secs >= timeout_secs
}

/// Whether a room with `receivers` clients following it, idle for
/// `idle_secs` whole seconds, is to be removed after `timeout_secs` seconds
/// of idleness (see [`abandoned`]).
pub fn is_abandoned(receivers: usize, idle_secs: u64, timeout_secs: u64) -> (r: bool)
    ensures
        r == abandoned(receivers, idle_secs, timeout_secs),
{
    receivers == 0 && idle_secs >= timeout_secs
}

/// A room phase, as views.
pub enum PhaseView {
    Lobby(LobbyView),
    Playing(GameView),
}

impl View for RoomPhase {
    type V = PhaseView;

    open spec fn view(&self) -> PhaseView {
        match self {
            RoomPhase::Lobby(l) => PhaseView::Lobby(l@),
            RoomPhase::Playing(g) => PhaseView::Playing(g@),
        }
    }
}

/// A room of the server.
pub struct GameRoom {
    pub id: RoomId,
    /// The room's name, kept here as well as in the lobby so that it
    /// outlives the lobby.
    pub name: String,
    /// Public rooms appear in the lobby directory; private rooms are
    /// reachable only by their code.
    pub visibility: Visibility,
    pub phase: RoomPhase,
    /// Where updates are pushed to every connected client.
    pub update_tx: Sender<ServerMessage>,
    /// When the room was last created or acted on.
    pub last_activity: Instant,
    /// Seconds each player has for a turn, if turns are timed.
    pub turn_timer_secs: Option<u64>,
    /// When the current turn's clock runs out, if turns are timed and a
    /// turn is awaited.
    pub turn_deadline: Option<Instant>,
    /// The updates the room has handed to its channel, in order.
    pub announced: Ghost<Seq<ServerMessage>>,
}

/// The room's lobby or game is unchanged, and so are its name, code,
/// visibility and timer.
pub open spec fn same_room(a: &GameRoom, b: &GameRoom) -> bool {
    &&& a.id == b.id
    &&& a.name == b.name
    &&& a.visibility == b.visibility
    &&& a.turn_timer_secs == b.turn_timer_secs
}

/// `b` has handed `n` more updates to its channel than `a`, after those of
/// `a`.
pub open spec fn announced_more(a: &GameRoom, b: &GameRoom, n: int) -> bool {
    &&& b.announced@.len() == a.announced@.len() + n
    &&& forall|i: int| 0 <= i < a.announced@.len() ==> b.announced@[i] == a.announced@[i]
}

/// The `i`-th update that `b` handed to its channel after those of `a`.
pub open spec fn newly_announced(a: &GameRoom, b: &GameRoom, i: int) -> ServerMessage {
    b.announced@[a.announced@.len() + i]
}

/// `m` tells the clients of room `room` its game state `g`, with its hand
/// sizes and deck size.
pub open spec fn tells_state(m: ServerMessage, room: RoomId, g: GameView) -> bool {
    m matches ServerMessage::GameStateUpdate { room_id, state, hand_counts, deck_count, .. } && room_id
        == room && state@ == g && counts_hands(hand_counts@, g) && deck_count == g.deck.len()
}

/// The reading of a clock just started: the whole turn, while it runs.
pub open spec fn fresh_secs(room: &GameRoom) -> Option<u64> {
    if room.turn_deadline is Some {
        room.turn_timer_secs
    } else {
        None
    }
}

/// The turn a room awaits, as the number of moves played and the player to
/// move: only while its game is on (two or more players in play).
pub open spec fn awaited_turn(phase: PhaseView) -> Option<(int, PlayerID)> {
    match phase {
        PhaseView::Playing(g) => if alive_count(g.players) > 1 {
            Some((g.history.len() as int, g.current_player_id))
        } else {
            None
        },
        PhaseView::Lobby(_) => None,
    }
}

/// A room's clock runs only for a timed room awaiting a turn.
pub open spec fn clock_in_order(room: &GameRoom) -> bool {
    room.turn_deadline is Some ==> room.turn_timer_secs is Some && awaited_turn(room.phase@) is Some
}

/// A room's clock was set for the turn it awaits: running when the room is
/// timed and awaits a turn (unless the deadline cannot be represented),
/// stopped otherwise.
pub open spec fn clock_reset(room: &GameRoom) -> bool {
    &&& clock_in_order(room)
    &&& (room.turn_timer_secs is None || awaited_turn(room.phase@) is None) ==> room.turn_deadline is None
}

/// The moves a timed-out player `pid` may be given: its survivable moves,
/// or all its playable moves when none survives (see
/// [`Game::random_timeout_move`]).
pub open spec fn timeout_pool(g: GameView, pid: PlayerID) -> Seq<Move> {
    if survivable_moves(g, pid).len() > 0 {
        survivable_moves(g, pid)
    } else {
        playable_moves(g, pid)
    }
}

/// The turn awaited by a game can be played for its player: the game is
/// well formed, its seats countable, and every move that could be given to
/// the player can be played (see [`can_perform`]).
pub open spec fn forced_move_ok(g: &Game) -> bool {
    &&& g.wf()
    &&& g.players@.len() <= usize::MAX / 2
    &&& playable_moves_terminate(g@, g.current_player_id)
    &&& forall|m: Move| #[trigger] timeout_pool(g@, g.current_player_id).contains(m) ==> can_perform(g@, m)
}

/// After a move played for a timed-out player, `b` is room `a` with the game
/// `g2` and the move's outcome `res`: an accepted move is announced as a
/// completed turn and then the new state; a refused one is reported.
pub open spec fn forced_move_result(
    a: &GameRoom,
    b: &GameRoom,
    g2: GameView,
    res: Result<TurnOutcome, MoveError>,
    r: Result<(), String>,
) -> bool {
    &&& b.phase@ == PhaseView::Playing(g2)
    &&& match res {
        Ok(o) => {
            &&& r is Ok
            &&& announced_more(a, b, 2)
            &&& newly_announced(a, b, 0) matches ServerMessage::TurnCompleted { room_id, result, auto_played }
                && room_id == a.id && result@ == o && auto_played
            &&& tells_state(newly_announced(a, b, 1), a.id, g2)
            &&& clock_told(newly_announced(a, b, 1)) == fresh_secs(b)
        },
        Err(e) => r matches Err(msg) && msg@ == invalid_move_text(e),
    }
}

/// `m` tells the clients of room `room` its lobby `l`.
pub open spec fn tells_lobby(m: ServerMessage, room: RoomId, l: LobbyView) -> bool {
    m matches ServerMessage::LobbyStateUpdate { room_id, lobby } && room_id == room && lobby@ == l
}

/// Refused: no game yet.
pub open spec fn not_started_text() -> Seq<char> {
    "Game has not started yet"@
}

/// Refused: another player's turn.
pub open spec fn not_your_turn_text(current: PlayerID, you: PlayerID) -> Seq<char> {
    "Not your turn! Current player is "@ + decimal(current as nat) + ", you are "@ + decimal(
        you as nat,
    )
}

/// Refused: the move names another player than the sender.
pub open spec fn mismatch_text(expected: PlayerID, got: PlayerID) -> Seq<char> {
    "Move player_id mismatch! Expected "@ + decimal(expected as nat) + ", got "@ + decimal(
        got as nat,
    )
}

/// Refused by the rules of the game.
pub open spec fn invalid_move_text(e: MoveError) -> Seq<char> {
    "Invalid move: "@ + move_error_text(e)
}

/// Refused: pawns are placed before the game.
pub open spec fn pawn_after_start_text() -> Seq<char> {
    "Game has already started, cannot place pawns"@
}

/// Refused by the lobby: a pawn placement.
pub open spec fn pawn_refused_text(e: LobbyError) -> Seq<char> {
    "Failed to place pawn: "@ + lobby_error_text(e)
}

/// Refused: the game runs already.
pub open spec fn already_started_text() -> Seq<char> {
    "Game has already started"@
}

/// Refused by the lobby: starting the game.
pub open spec fn start_refused_text(e: LobbyError) -> Seq<char> {
    "Failed to start game: "@ + lobby_error_text(e)
}

fn not_your_turn_message(current: PlayerID, you: PlayerID) -> (r: String)
    ensures
        r@ == not_your_turn_text(current, you),
{
    let mut s = owned_text("Not your turn! Current player is ");
    let c = decimal_text(current);
    append_text(&mut s, c.as_str());
    append_text(&mut s, ", you are ");
    let y = decimal_text(you);
    append_text(&mut s, y.as_str());
    s
}

fn mismatch_message(expected: PlayerID, got: PlayerID) -> (r: String)
    ensures
        r@ == mismatch_text(expected, got),
{
    let mut s = owned_text("Move player_id mismatch! Expected ");
    let e = decimal_text(expected);
    append_text(&mut s, e.as_str());
    append_text(&mut s, ", got ");
    let g = decimal_text(got);
    append_text(&mut s, g.as_str());
    s
}

/// Whether some player is alive.
fn any_alive(players: &Vec<Player>) -> (r: bool)
    ensures
        r == (alive_count(players@) > 0),
        alive_count(players@) >= 0,
{
    let mut i: usize = 0;
    let mut found = false;
    while i < players.len()
        invariant
            i <= players@.len(),
            found == (alive_count_upto(players@, i as int) > 0),
            alive_count_upto(players@, i as int) >= 0,
        decreases players@.len() - i,
    {
        if players[i].alive {
            found = true;
        }
        i = i + 1;
    }
    found
}

impl GameRoom {
    /// A room in its lobby phase: an empty lobby with the room's name and
    /// visibility (numbered 0: the room is known by its code).
    pub fn new(id: RoomId, room_name: String, visibility: Visibility, turn_timer_secs: Option<u64>) -> (r:
        GameRoom)
        ensures
            r.id == id,
            r.name == room_name,
            r.visibility == visibility,
            r.turn_timer_secs == turn_timer_secs,
            r.announced@.len() == 0,
            r.turn_deadline is None,
            r.phase@ == PhaseView::Lobby(
                LobbyView {
                    id: LobbyId(0),
                    name: room_name,
                    players: Map::empty(),
                    started: false,
                    max_players: 8,
                    visibility,
                },
            ),
    {
        let mut lobby = Lobby::new(LobbyId(0), room_name.clone());
        lobby.visibility = visibility;
        GameRoom {
            phase: RoomPhase::Lobby(lobby),
            id,
            name: room_name,
            visibility,
            update_tx: open_channel(),
            last_activity: now(),
            turn_timer_secs,
            turn_deadline: None,
            announced: Ghost(Seq::empty()),
        }
    }

    /// The lobby, while the room has not started its game.
    pub fn lobby(&self) -> (r: Option<&Lobby>)
        ensures
            r is Some <==> self.phase is Lobby,
            r matches Some(l) ==> self.phase@ == PhaseView::Lobby(l@),
    {
        match &self.phase {
            RoomPhase::Lobby(lobby) => Some(lobby),
            RoomPhase::Playing(_) => None,
        }
    }

    /// The game, once started.
    pub fn game(&self) -> (r: Option<&Game>)
        ensures
            r is Some <==> self.phase is Playing,
            r matches Some(g) ==> self.phase@ == PhaseView::Playing(g@),
    {
        match &self.phase {
            RoomPhase::Playing(game) => Some(game),
            RoomPhase::Lobby(_) => None,
        }
    }

    /// The turn the room awaits: the number of moves played and the player
    /// to move, while the game is on (see [`awaited_turn`]). A timer set
    /// for one turn acts only if the room still awaits that turn.
    pub fn turn_generation(&self) -> (r: Option<(usize, PlayerID)>)
        ensures
            match awaited_turn(self.phase@) {
                Some((n, p)) => r == Some((n as usize, p)),
                None => r is None,
            },
    {
        match &self.phase {
            RoomPhase::Playing(game) => {
                if game.is_game_over() {
                    None
                } else {
                    Some((game.board.history.len(), game.current_player_id))
                }
            },
            RoomPhase::Lobby(_) => None,
        }
    }

    /// Seconds left on the turn clock, while it runs.
    pub fn clock_secs(&self) -> (r: Option<u64>)
        ensures
            r is Some <==> self.turn_deadline is Some,
    {
        match self.turn_deadline {
            Some(deadline) => Some(secs_left(deadline)),
            None => None,
        }
    }

    /// How many clients follow the room now, and for how many whole seconds
    /// it has been idle (see [`is_abandoned`]). Nothing is stated of either:
    /// they depend on the connections and on the time.
    pub fn idle_readings(&self) -> (usize, u64) {
        (receiver_count(&self.update_tx), whole_secs(span_since(now(), self.last_activity)))
    }

    /// The reading of a clock just started (see [`fresh_secs`]).
    fn fresh_clock(&self) -> (r: Option<u64>)
        ensures
            r == fresh_secs(self),
    {
        match self.turn_deadline {
            Some(_) => self.turn_timer_secs,
            None => None,
        }
    }

    /// Starts the clock for the turn the room awaits, if it is timed;
    /// stops it otherwise.
    pub fn reset_turn_clock(&mut self)
        ensures
            clock_reset(final(self)),
            final(self).phase == old(self).phase,
            final(self).announced == old(self).announced,
            same_room(old(self), final(self)),
    {
        let awaited = self.turn_generation();
        self.turn_deadline = match (self.turn_timer_secs, awaited) {
            (Some(secs), Some(_)) => deadline_in(secs),
            _ => None,
        };
    }

    /// Sends `message` to every connected client, and records it in the
    /// room's log of updates.
    pub fn broadcast(&mut self, message: ServerMessage)
        ensures
            final(self).announced@ == old(self).announced@.push(message),
            final(self).phase == old(self).phase,
            final(self).turn_deadline == old(self).turn_deadline,
            final(self).id == old(self).id,
            same_room(old(self), final(self)),
    {
        self.announced = Ghost(self.announced@.push(message));
        send_update(&self.update_tx, message);
    }

    /// Plays `player_id`'s move: refused before the game starts, when it is
    /// not that player's turn, when the move names another player, or by the
    /// rules of the game (see [`perform_move`]). An accepted move is
    /// broadcast as the new game state.
    pub fn place_tile(&mut self, player_id: PlayerID, mov: Move) -> (r: Result<TurnResult, String>)
        requires
            old(self).phase matches RoomPhase::Playing(g) ==> (g.current_player_id == player_id
                && mov.player_id == player_id ==> g.wf() && can_perform(g@, mov)),
        ensures
            place_tile_after(old(self), final(self), player_id, mov, r),
    {
        self.last_activity = now();
        let (result, snapshot) = match &mut self.phase {
            RoomPhase::Lobby(_) => {
                return Err(owned_text("Game has not started yet"));
            },
            RoomPhase::Playing(game) => {
                if game.current_player_id != player_id {
                    return Err(not_your_turn_message(game.current_player_id, player_id));
                }
                if mov.player_id != player_id {
                    return Err(mismatch_message(player_id, mov.player_id));
                }
                match game.perform_move(mov) {
                    Ok(t) => (t, game.clone()),
                    Err(e) => {
                        return Err(joined("Invalid move: ", e.message()));
                    },
                }
            },
        };
        self.reset_turn_clock();
        let room_id = self.id.clone();
        let secs = self.fresh_clock();
        self.broadcast(state_update(room_id, snapshot, secs));
        Ok(result)
    }

    /// Places `player_id`'s pawn in the lobby (see [`lobby_after`]), and
    /// broadcasts the placement and the new lobby. Refused once the game has
    /// started.
    pub fn place_pawn(&mut self, player_id: PlayerID, position: PlayerPos) -> (r: Result<(), String>)
        ensures
            place_pawn_after(old(self), final(self), player_id, position, r),
    {
        self.last_activity = now();
        let snapshot = match &mut self.phase {
            RoomPhase::Playing(_) => {
                return Err(owned_text("Game has already started, cannot place pawns"));
            },
            RoomPhase::Lobby(lobby) => {
                match lobby.handle_event(LobbyEvent::PawnPlaced { player_id, position }) {
                    Ok(()) => {},
                    Err(e) => {
                        return Err(joined("Failed to place pawn: ", e.message()));
                    },
                }
                lobby.clone()
            },
        };
        self.broadcast(ServerMessage::PawnPlaced { room_id: self.id.clone(), player_id, position });
        self.broadcast(ServerMessage::LobbyStateUpdate { room_id: self.id.clone(), lobby: snapshot });
        Ok(())
    }

    /// A player's connection is gone. In the lobby the player leaves it; in
    /// a game the player is eliminated as on the board (see
    /// [`eliminate_player`]). Returns whether nobody is left (the room can
    /// be removed); otherwise the new state and the departure are
    /// broadcast.
    pub fn handle_disconnect(&mut self, player_id: PlayerID) -> (r: bool)
        requires
            old(self).phase matches RoomPhase::Playing(g) ==> g.players@.len() <= usize::MAX / 2,
        ensures
            disconnect_after(old(self), final(self), player_id, r),
    {
        let ghost ph0 = self.phase@;
        let before = self.turn_generation();
        self.last_activity = now();
        let update = match &mut self.phase {
            RoomPhase::Lobby(lobby) => {
                let ghost l0 = lobby@;
                let _ = lobby.handle_event(LobbyEvent::PlayerLeft { player_id });
                assert(lobby@ == lobby_after(l0, LobbyEvent::PlayerLeft { player_id }).0);
                assert(lobby.players.len() == lobby@.players.len());
                if lobby.players.len() == 0 {
                    None
                } else {
                    Some(ServerMessage::LobbyStateUpdate { room_id: self.id.clone(), lobby: lobby.clone() })
                }
            },
            RoomPhase::Playing(game) => {
                game.eliminate_player(player_id);
                if !any_alive(&game.players) {
                    None
                } else {
                    Some(ServerMessage::PlayerLeft { room_id: self.id.clone(), player_id })
                }
            },
        };
        proof {
            match ph0 {
                PhaseView::Lobby(l) => {
                    let l2 = lobby_after(l, LobbyEvent::PlayerLeft { player_id }).0;
                    assert(self.phase@ == PhaseView::Lobby(l2));
                    assert(update is None <==> l2.players.len() == 0);
                },
                PhaseView::Playing(g) => {
                    let g2 = eliminate_player(g, player_id).0;
                    assert(self.phase@ == PhaseView::Playing(g2));
                    assert(update is None <==> alive_count(g2.players) == 0);
                },
            }
        }
        let after = self.turn_generation();
        let same_turn = match (before, after) {
            (Some((n1, p1)), Some((n2, p2))) => n1 == n2 && p1 == p2,
            (None, None) => true,
            _ => false,
        };
        if !same_turn {
            self.reset_turn_clock();
        }
        match update {
            None => true,
            Some(u) => {
                let u = match &self.phase {
                    RoomPhase::Playing(game) => state_update(self.id.clone(), game.clone(), self.clock_secs()),
                    RoomPhase::Lobby(_) => u,
                };
                self.broadcast(u);
                self.broadcast(ServerMessage::PlayerLeft { room_id: self.id.clone(), player_id });
                false
            },
        }
    }

    /// Plays the awaited turn for its player when the turn clock ran out: a
    /// move given by [`Game::random_timeout_move`] (a surviving one when
    /// there is one), played under the rules and announced as a completed
    /// turn; a player with no move at all is eliminated instead. The new
    /// state is broadcast and the clock restarted. Refused before the game
    /// starts.
    pub fn force_current_move(&mut self) -> (r: Result<(), String>)
        requires
            old(self).phase matches RoomPhase::Playing(g) ==> forced_move_ok(&g),
        ensures
            same_room(old(self), final(self)),
            r is Ok ==> clock_reset(final(self)),
            r is Err ==> final(self).turn_deadline == old(self).turn_deadline,
            r is Err ==> announced_more(old(self), final(self), 0),
            match old(self).phase@ {
                PhaseView::Lobby(_) => {
                    &&& final(self).phase@ == old(self).phase@
                    &&& r matches Err(m) && m@ == not_started_text()
                },
                PhaseView::Playing(g) => {
                    let pid = g.current_player_id;
                    if timeout_pool(g, pid).len() == 0 {
                        &&& r is Ok
                        &&& final(self).phase@ == PhaseView::Playing(eliminate_player(g, pid).0)
                        &&& announced_more(old(self), final(self), 1)
                        &&& tells_state(newly_announced(old(self), final(self), 0), old(self).id, eliminate_player(g, pid).0)
                        &&& clock_told(newly_announced(old(self), final(self), 0)) == fresh_secs(final(self))
                    } else {
                        exists|m: Move|
                            #[trigger] timeout_pool(g, pid).contains(m) && (perform_move(g, m) matches Some(
                                (g2, res),
                            ) && forced_move_result(old(self), final(self), g2, res, r))
                    }
                },
            },
    {
        self.last_activity = now();
        let ghost ph0 = self.phase@;
        let ghost mut chosen: Move = arbitrary();
        let outcome = match &mut self.phase {
            RoomPhase::Lobby(_) => {
                return Err(owned_text("Game has not started yet"));
            },
            RoomPhase::Playing(game) => {
                let pid = game.current_player_id;
                match game.random_timeout_move(pid) {
                    Some(mov) => {
                        proof {
                            chosen = mov;
                        }
                        match game.perform_move(mov) {
                            Ok(t) => Ok((Some(t), game.clone())),
                            Err(e) => Err(e),
                        }
                    },
                    None => {
                        game.eliminate_player(pid);
                        Ok((None, game.clone()))
                    },
                }
            },
        };
        let (turn, snapshot) = match outcome {
            Ok(x) => x,
            Err(e) => {
                proof {
                    if let PhaseView::Playing(g0) = ph0 {
                        assert(timeout_pool(g0, g0.current_player_id).contains(chosen));
                    }
                }
                return Err(joined("Invalid move: ", e.message()));
            },
        };
        self.reset_turn_clock();
        match turn {
            Some(t) => {
                self.broadcast(ServerMessage::TurnCompleted { room_id: self.id.clone(), result: t, auto_played: true });
            },
            None => {},
        }
        let secs = self.fresh_clock();
        self.broadcast(state_update(self.id.clone(), snapshot, secs));
        Ok(())
    }

    /// Starts the game of a ready lobby (see [`Lobby::to_game`]) and
    /// broadcasts it. A refused start leaves the room in its lobby phase.
    pub fn start_game(&mut self) -> (r: Result<(), String>)
        ensures
            start_game_after(old(self), final(self), r),
    {
        self.last_activity = now();
        let game = match &mut self.phase {
            RoomPhase::Playing(_) => {
                return Err(owned_text("Game has already started"));
            },
            RoomPhase::Lobby(lobby) => {
                let ghost l0 = lobby@;
                match lobby.handle_event(LobbyEvent::StartGame) {
                    Ok(()) => {},
                    Err(e) => {
                        return Err(joined("Failed to start game: ", e.message()));
                    },
                }
                proof {
                    assert(l0.players.len() >= 2 && all_placed(l0.players));
                }
                match lobby.to_game() {
                    Ok(g) => g,
                    Err(e) => {
                        return Err(joined("Failed to start game: ", e.message()));
                    },
                }
            },
        };
        let snapshot = game.clone();
        let hand_counts = game.hand_counts();
        self.phase = RoomPhase::Playing(game);
        self.reset_turn_clock();
        let turn_deadline_secs = self.fresh_clock();
        self.broadcast(ServerMessage::GameStarted { room_id: self.id.clone(), game: snapshot, hand_counts, turn_deadline_secs });
        Ok(())
    }
}

/// Refused: a game has no seat for a newcomer.
pub open spec fn join_after_start_text(room: Seq<char>) -> Seq<char> {
    "Room '"@ + room + "' has already started its game"@
}

/// Refused: the next player id would not fit.
pub open spec fn no_player_id_text(room: Seq<char>) -> Seq<char> {
    "Room '"@ + room + "' has no player id left"@
}

/// Refused by the lobby: a join.
pub open spec fn join_refused_text(room: Seq<char>, e: LobbyError) -> Seq<char> {
    "Failed to join room '"@ + room + "': "@ + lobby_error_text(e)
}

/// Refused by the lobby: the creator's own join.
pub open spec fn creator_refused_text(e: LobbyError) -> Seq<char> {
    "Failed to add creator to lobby: "@ + lobby_error_text(e)
}

fn quoted_room_message(prefix: &str, room: &String, suffix: &str) -> (r: String)
    ensures
        r@ == prefix@ + room@ + suffix@,
{
    let mut m = owned_text(prefix);
    append_text(&mut m, room.as_str());
    append_text(&mut m, suffix);
    m
}

impl GameRoom {
    /// A new player named `player_name` joins the room's lobby under the
    /// next player id (one more than the largest, 1 in an empty lobby); the
    /// join and the new lobby are broadcast. Refused once the game has
    /// started, or by the lobby (see [`lobby_after`]).
    pub fn join_room(&mut self, player_name: String) -> (r: Result<PlayerID, String>)
        ensures
            join_room_after(old(self), final(self), player_name, r),
    {
        self.last_activity = now();
        let (player_id, snapshot) = match &mut self.phase {
            RoomPhase::Playing(_) => {
                return Err(quoted_room_message("Room '", &self.id, "' has already started its game"));
            },
            RoomPhase::Lobby(lobby) => {
                let top = highest_player_id(&lobby.players);
                if top == usize::MAX {
                    return Err(quoted_room_message("Room '", &self.id, "' has no player id left"));
                }
                let player_id = top + 1;
                match lobby.handle_event(
                    LobbyEvent::PlayerJoined { player_id, player_name: player_name.clone() },
                ) {
                    Ok(()) => {},
                    Err(e) => {
                        let mut m = quoted_room_message("Failed to join room '", &self.id, "': ");
                        append_text(&mut m, e.message());
                        return Err(m);
                    },
                }
                (player_id, lobby.clone())
            },
        };
        self.broadcast(ServerMessage::PlayerJoined { room_id: self.id.clone(), player_id, player_name });
        self.broadcast(ServerMessage::LobbyStateUpdate { room_id: self.id.clone(), lobby: snapshot });
        Ok(player_id)
    }

    /// A new room (see [`GameRoom::new`]) whose creator has joined its lobby
    /// as player 1.
    pub fn with_creator(
        id: RoomId,
        room_name: String,
        visibility: Visibility,
        turn_timer_secs: Option<u64>,
        creator_name: String,
    ) -> (r: Result<(GameRoom, PlayerID), String>)
        ensures
            match r {
                Ok((room, pid)) => pid == 1 && created_room(
                    &room,
                    id,
                    room_name,
                    visibility,
                    turn_timer_secs,
                    creator_name,
                ),
                Err(_) => false,
            },
    {
        let player_id: PlayerID = 1;
        let mut room = GameRoom::new(id, room_name, visibility, turn_timer_secs);
        let ghost l0 = match room.phase@ {
            PhaseView::Lobby(l) => l,
            PhaseView::Playing(_) => arbitrary(),
        };
        match &mut room.phase {
            RoomPhase::Lobby(lobby) => {
                match lobby.handle_event(LobbyEvent::PlayerJoined { player_id, player_name: creator_name }) {
                    Ok(()) => {},
                    Err(e) => {
                        return Err(joined("Failed to add creator to lobby: ", e.message()));
                    },
                }
            },
            RoomPhase::Playing(_) => {},
        }
        proof {
            assert(l0.players.len() == 0);
            lobby_colors_first_is_free(l0.players);
        }
        Ok((room, player_id))
    }
}

/// A room code: four capital letters.
pub open spec fn is_room_code(code: Seq<char>) -> bool {
    code.len() == 4 && forall|i: int| 0 <= i < 4 ==> 'A' <= #[trigger] code[i] <= 'Z'
}

/// A random room code of four capital letters (see [`is_room_code`]).
pub fn new_room_code() -> (r: String)
    ensures
        is_room_code(r@),
{
    let mut rng = thread_rng();
    let mut code = String::new();
    let mut i: usize = 0;
    while i < 4
        invariant
            i <= 4,
            code@.len() == i,
            forall|j: int| 0 <= j < i ==> 'A' <= #[trigger] code@[j] <= 'Z',
        decreases 4 - i,
    {
        let k = random_below(&mut rng, 26);
        let c = (65u8 + k) as char;
        append_char(&mut code, c);
        i = i + 1;
    }
    code
}

/// `b` is room `a` after [`GameRoom::place_tile`] for `player_id` and `mov` gave `r`.
pub open spec fn place_tile_after(a: &GameRoom, b: &GameRoom, player_id: PlayerID, mov: Move, r: Result<TurnResult, String>) -> bool {
    &&& r is Ok ==> clock_reset(b)
    &&& r is Err ==> b.turn_deadline == a.turn_deadline
    &&& r is Err ==> announced_more(a, b, 0)
    &&& r is Ok ==> announced_more(a, b, 1)
    &&& r is Ok ==> (b.phase@ matches PhaseView::Playing(g) && tells_state(
        newly_announced(a, b, 0),
        a.id,
        g,
    ))
    &&& r is Ok ==> clock_told(newly_announced(a, b, 0)) == fresh_secs(b)
    &&& same_room(a, b)
    &&& match a.phase@ {
        PhaseView::Lobby(_) => {
            &&& b.phase@ == a.phase@
            &&& r matches Err(m) && m@ == not_started_text()
        },
        PhaseView::Playing(g) => if g.current_player_id != player_id {
            &&& b.phase@ == a.phase@
            &&& r matches Err(m) && m@ == not_your_turn_text(g.current_player_id, player_id)
        } else if mov.player_id != player_id {
            &&& b.phase@ == a.phase@
            &&& r matches Err(m) && m@ == mismatch_text(player_id, mov.player_id)
        } else {
            match perform_move(g, mov) {
                Some((g2, Ok(o))) => {
                    &&& b.phase@ == PhaseView::Playing(g2)
                    &&& r matches Ok(t) && t@ == o
                },
                Some((g2, Err(e))) => {
                    &&& b.phase@ == PhaseView::Playing(g2)
                    &&& r matches Err(m) && m@ == invalid_move_text(e)
                },
                None => false,
            }
        },
    }
}

/// `b` is room `a` after [`GameRoom::place_pawn`] for `player_id` at `position` gave `r`.
pub open spec fn place_pawn_after(a: &GameRoom, b: &GameRoom, player_id: PlayerID, position: PlayerPos, r: Result<(), String>) -> bool {
    &&& r is Err ==> announced_more(a, b, 0)
    &&& r is Ok ==> announced_more(a, b, 2)
    &&& r is Ok ==> newly_announced(a, b, 0) == (ServerMessage::PawnPlaced {
        room_id: a.id,
        player_id,
        position,
    })
    &&& r is Ok ==> (b.phase@ matches PhaseView::Lobby(l) && tells_lobby(
        newly_announced(a, b, 1),
        a.id,
        l,
    ))
    &&& same_room(a, b)
    &&& match a.phase@ {
        PhaseView::Playing(_) => {
            &&& b.phase@ == a.phase@
            &&& r matches Err(m) && m@ == pawn_after_start_text()
        },
        PhaseView::Lobby(l) => {
            let (l2, res) = lobby_after(
                l,
                LobbyEvent::PawnPlaced { player_id, position },
            );
            &&& b.phase@ == PhaseView::Lobby(l2)
            &&& match res {
                Ok(_) => r is Ok,
                Err(e) => r matches Err(m) && m@ == pawn_refused_text(e),
            }
        },
    }
}

/// `b` is room `a` after [`GameRoom::handle_disconnect`] of `player_id` gave `r`.
pub open spec fn disconnect_after(a: &GameRoom, b: &GameRoom, player_id: PlayerID, r: bool) -> bool {
    &&& awaited_turn(b.phase@) == awaited_turn(a.phase@) ==> b.turn_deadline
        == a.turn_deadline
    &&& awaited_turn(b.phase@) != awaited_turn(a.phase@) ==> clock_reset(b)
    &&& r ==> announced_more(a, b, 0)
    &&& !r ==> announced_more(a, b, 2)
    &&& !r ==> match b.phase@ {
        PhaseView::Lobby(l) => tells_lobby(newly_announced(a, b, 0), a.id, l),
        PhaseView::Playing(g) => tells_state(newly_announced(a, b, 0), a.id, g),
    }
    &&& !r ==> newly_announced(a, b, 1) == (ServerMessage::PlayerLeft {
        room_id: a.id,
        player_id,
    })
    &&& !r && b.phase@ is Playing ==> (clock_told(newly_announced(a, b, 0)) is Some <==> b.turn_deadline
        is Some)
    &&& same_room(a, b)
    &&& match a.phase@ {
        PhaseView::Lobby(l) => {
            let l2 = lobby_after(l, LobbyEvent::PlayerLeft { player_id }).0;
            b.phase@ == PhaseView::Lobby(l2) && r == (l2.players.len() == 0)
        },
        PhaseView::Playing(g) => {
            let g2 = eliminate_player(g, player_id).0;
            b.phase@ == PhaseView::Playing(g2) && r == (alive_count(g2.players)
                == 0)
        },
    }
}

/// `b` is room `a` after [`GameRoom::start_game`] gave `r`.
pub open spec fn start_game_after(a: &GameRoom, b: &GameRoom, r: Result<(), String>) -> bool {
    &&& r is Ok ==> clock_reset(b)
    &&& r is Err ==> b.turn_deadline == a.turn_deadline
    &&& r is Err ==> announced_more(a, b, 0)
    &&& r is Ok ==> announced_more(a, b, 1)
    &&& r is Ok ==> (b.phase@ matches PhaseView::Playing(g) && newly_announced(
        a,
        b,
        0,
    ) matches ServerMessage::GameStarted { room_id, game, hand_counts, turn_deadline_secs } && room_id
        == a.id && game@ == g && counts_hands(hand_counts@, g) && turn_deadline_secs == fresh_secs(b))
    &&& same_room(a, b)
    &&& match a.phase@ {
        PhaseView::Playing(_) => {
            &&& b.phase@ == a.phase@
            &&& r matches Err(m) && m@ == already_started_text()
        },
        PhaseView::Lobby(l) => match lobby_after(l, LobbyEvent::StartGame) {
            (l2, Err(e)) => {
                &&& b.phase@ == PhaseView::Lobby(l2)
                &&& r matches Err(m) && m@ == start_refused_text(e)
            },
            (_, Ok(_)) => {
                &&& r is Ok
                &&& b.phase matches RoomPhase::Playing(g) && exists|
                    ks: Seq<PlayerID>,
                    d: Seq<Tile>,
                |
                    placed_order(l.players, ks) && d.len() == 35 && d.to_multiset()
                        == crate::deck::standard_tiles().to_multiset() && #[trigger] new_game(
                        seated(l.players, ks),
                        d,
                    ) == g@
            },
        },
    }
}

/// `b` is room `a` after [`GameRoom::join_room`] for `player_name` gave `r`.
pub open spec fn join_room_after(a: &GameRoom, b: &GameRoom, player_name: String, r: Result<PlayerID, String>) -> bool {
    &&& r is Err ==> announced_more(a, b, 0)
    &&& r is Ok ==> announced_more(a, b, 2)
    &&& r matches Ok(pid) ==> newly_announced(a, b, 0) == (ServerMessage::PlayerJoined {
        room_id: a.id,
        player_id: pid,
        player_name,
    })
    &&& r is Ok ==> (b.phase@ matches PhaseView::Lobby(l) && tells_lobby(
        newly_announced(a, b, 1),
        a.id,
        l,
    ))
    &&& same_room(a, b)
    &&& match a.phase@ {
        PhaseView::Playing(_) => {
            &&& b.phase@ == a.phase@
            &&& r matches Err(m) && m@ == join_after_start_text(a.id@)
        },
        PhaseView::Lobby(l) => if highest_id(l.players) == usize::MAX {
            &&& b.phase@ == a.phase@
            &&& r matches Err(m) && m@ == no_player_id_text(a.id@)
        } else {
            let pid = (highest_id(l.players) + 1) as PlayerID;
            let (l2, res) = lobby_after(
                l,
                LobbyEvent::PlayerJoined { player_id: pid, player_name },
            );
            &&& b.phase@ == PhaseView::Lobby(l2)
            &&& match res {
                Ok(_) => r == Ok::<PlayerID, String>(pid),
                Err(e) => r matches Err(m) && m@ == join_refused_text(a.id@, e),
            }
        },
    }
}

/// `room` is a new room with code `id`, name `room_name`, the given
/// visibility and turn timer, and a lobby that `creator_name` has joined as
/// player 1; it has announced nothing yet.
pub open spec fn created_room(
    room: &GameRoom,
    id: RoomId,
    room_name: String,
    visibility: Visibility,
    turn_timer_secs: Option<u64>,
    creator_name: String,
) -> bool {
    &&& room.announced@.len() == 0
    &&& room.id == id
    &&& room.name == room_name
    &&& room.visibility == visibility
    &&& room.turn_timer_secs == turn_timer_secs
    &&& room.phase@ == PhaseView::Lobby(
        lobby_after(
            LobbyView {
                id: LobbyId(0),
                name: room_name,
                players: Map::empty(),
                started: false,
                max_players: 8,
                visibility,
            },
            LobbyEvent::PlayerJoined { player_id: 1, player_name: creator_name },
        ).0,
    )
}

/// Game state `state` as an update to the clients of room `room_id`, with
/// its hand sizes and deck size and the clock reading `secs`.
pub(crate) fn state_update(room_id: RoomId, state: Game, secs: Option<u64>) -> (r: ServerMessage)
    ensures
        tells_state(r, room_id, state@),
        r matches ServerMessage::GameStateUpdate { state: s, .. } && s == state,
        clock_told(r) == secs,
{
    let hand_counts = state.hand_counts();
    let deck_count = state.deck_count();
    ServerMessage::GameStateUpdate { room_id, state, hand_counts, deck_count, turn_deadline_secs: secs }
}

} // verus!
