//! What the player does on a client: play and turn the tiles of a game,
//! place pawns and start the game of a lobby, add and cycle test players,
//! start games on this machine, and step through a replay (see
//! [`crate::client_session`] for the client's state).
use vstd::prelude::*;

use crate::board::{
    new_player, tile_rotatable, tile_rotated, CellCoord, Move, Player, PlayerID, PlayerPos, Tile,
};
use crate::client_session::{
    fresh_lobby, same_identity, shown_lobby, with_lobby, AppState, ClientEffect, ClientState,
};
use crate::game::{lemma_first_alive, Game, GameExport};
use crate::game_model::{
    can_perform, first_alive, lemma_map_values_insert, lemma_map_values_remove, move_error_text,
    new_game, perform_move, GameView,
};
use crate::lobby::{
    ids_with_spawn, increasing, lemma_increasing_unique, sorted_ids_with_spawn,
    highest_id, highest_player_id, lobby_after, lobby_error_text, next_color, placed_order, seated,
    Lobby, LobbyEvent, LobbyId, LobbyView, Visibility,
};
use crate::client::named;
use crate::links::trim_text;
use crate::protocol::ClientMessage;
use crate::replay::{replay_defined, replayed, PlaybackStatus, ReplayState};
use crate::text::{append_text, decimal, decimal_text, joined, owned_text};

verus! {

broadcast use {lemma_map_values_insert, lemma_map_values_remove};

/// The move of placing tile `tile_index` of `player`'s hand in `g`: on the
/// cell of the player's pawn.
pub open spec fn hand_move(g: GameView, player: PlayerID, tile_index: int) -> Move {
    Move {
        tile: g.hands[player][tile_index],
        cell: g.players[first_alive(g.players, player)].pos.cell,
        player_id: player,
    }
}

/// `player` is alive in `g` and holds a hand.
pub open spec fn seated_with_hand(g: GameView, player: PlayerID) -> bool {
    first_alive(g.players, player) < g.players.len() && g.hands.contains_key(player)
}

/// Placing tile `tile_index` from the game shown can be worked out: in a
/// game played here, the player to move is seated with that tile in hand and
/// the move can be played (see [`can_perform`]); in a game on the server,
/// this client's player is seated with a hand when it is to move.
pub open spec fn tile_placement_ok(c: ClientState, tile_index: int) -> bool {
    match c.app_state {
        AppState::Game(g) => {
            &&& g.wf()
            &&& seated_with_hand(g@, g.current_player_id)
            &&& 0 <= tile_index < g@.hands[g.current_player_id].len()
            &&& can_perform(g@, hand_move(g@, g.current_player_id, tile_index))
        },
        AppState::OnlineGame { game, waiting_for_server, is_spectator, .. } => (!is_spectator
            && !waiting_for_server && game.current_player_id == c.current_player_id)
            ==> seated_with_hand(game@, c.current_player_id),
        _ => true,
    }
}

/// `g` with tile `i` of `owner`'s hand, where there is one, turned a
/// quarter.
pub open spec fn rotated_in_hand(g: GameView, owner: PlayerID, i: int, clockwise: bool) -> GameView {
    if g.hands.contains_key(owner) && 0 <= i < g.hands[owner].len() {
        GameView {
            hands: g.hands.insert(
                owner,
                g.hands[owner].update(i, tile_rotated(g.hands[owner][i], clockwise)),
            ),
            ..g
        }
    } else {
        g
    }
}

/// The hand shown holds a tile `i` that can be turned: the hand of the
/// player to move in a game played here, the client's own in a game on the
/// server.
pub open spec fn rotation_ok(c: ClientState, i: int, clockwise: bool) -> bool {
    match c.app_state {
        AppState::Game(g) => g@.hands.contains_key(g.current_player_id) && 0 <= i
            < g@.hands[g.current_player_id].len() ==> tile_rotatable(
            g@.hands[g.current_player_id][i],
            clockwise,
        ),
        AppState::OnlineGame { game, .. } => game@.hands.contains_key(c.current_player_id) && 0
            <= i < game@.hands[c.current_player_id].len() ==> tile_rotatable(
            game@.hands[c.current_player_id][i],
            clockwise,
        ),
        _ => true,
    }
}

/// `r` asks the server to place `player_id`'s pawn on `position` in the
/// client's room; nothing when the client is in no room.
pub open spec fn pawn_request(c: ClientState, player_id: PlayerID, position: PlayerPos, r: ClientEffect) -> bool {
    match c.current_room_id {
        Some(room) => r matches ClientEffect::Send {
            request: ClientMessage::PlacePawn { room_id, player_id: p, position: q },
        } && room_id@ == room@ && p == player_id && q == position,
        None => r == ClientEffect::Nothing,
    }
}

/// `r` shows `prefix` followed by the reason for `e`.
pub open spec fn shows_lobby_error(r: ClientEffect, prefix: Seq<char>, e: crate::lobby::LobbyError) -> bool {
    r matches ClientEffect::ShowError { message } && message@ == prefix + lobby_error_text(e)
}

/// `g` is a game started from the lobby players `players`: the placed
/// players seated in some order, with a shuffled standard deck (see
/// [`Lobby::to_game`]).
pub open spec fn started_from(players: Map<PlayerID, crate::lobby::LobbyPlayer>, g: GameView) -> bool {
    exists|ks: Seq<PlayerID>, d: Seq<Tile>|
        #[trigger] placed_order(players, ks) && d.len() == 35 && d.to_multiset()
            == crate::deck::standard_tiles().to_multiset() && #[trigger] new_game(seated(players, ks), d)
            == g
}

/// Turns tile `i` of `owner`'s hand in `game`, when there is one; returns
/// whether there was.
fn rotate_hand_tile(game: &mut Game, owner: PlayerID, i: usize, clockwise: bool) -> (r: bool)
    requires
        old(game)@.hands.contains_key(owner) && i < old(game)@.hands[owner].len() ==> tile_rotatable(
            old(game)@.hands[owner][i as int],
            clockwise,
        ),
    ensures
        final(game)@ == rotated_in_hand(old(game)@, owner, i as int, clockwise),
        r == (old(game)@.hands.contains_key(owner) && i < old(game)@.hands[owner].len()),
{
    let ghost g0 = game@;
    match game.hands.remove(&owner) {
        Some(mut hand) => {
            assert(hand@ == g0.hands[owner]);
            let ok = i < hand.len();
            if ok {
                let t = hand[i].rotated(clockwise);
                hand.set(i, t);
            }
            game.hands.insert(owner, hand);
            assert(game@.hands =~= g0.hands.insert(owner, hand@));
            proof {
                if !ok {
                    assert(hand@ =~= g0.hands[owner]);
                    assert(game@.hands =~= g0.hands);
                }
            }
            assert(game@ == rotated_in_hand(g0, owner, i as int, clockwise));
            ok
        },
        None => {
            assert(game@.hands =~= g0.hands);
            assert(game@ == g0);
            false
        },
    }
}

impl ClientState {
    /// Plays tile `tile_index` of the hand of the player to move in `game`,
    /// on the cell of its pawn, under the rules (see [`perform_move`]).
    /// Returns the game after it, and the cell played or why the move was
    /// refused.
    pub fn perform_local_tile_placement(game: Game, tile_index: usize) -> (r: (Game, Result<CellCoord, String>))
        requires
            game.wf(),
            seated_with_hand(game@, game.current_player_id),
            tile_index < game@.hands[game.current_player_id].len(),
            can_perform(game@, hand_move(game@, game.current_player_id, tile_index as int)),
        ensures
            ({
                let mv = hand_move(game@, game.current_player_id, tile_index as int);
                perform_move(game@, mv) matches Some((g2, res)) && r.0@ == g2 && match res {
                    Ok(_) => r.1 == Ok::<CellCoord, String>(mv.cell),
                    Err(e) => r.1 matches Err(m) && m@ == move_error_text(e),
                }
            }),
    {
        let mut game = game;
        let me = game.current_player_id;
        let seat = game.find_alive_index(me);
        proof {
            lemma_first_alive(game@.players, me, 0);
        }
        let cell = game.players[seat].pos.cell;
        let tile = game.hands.get(&me).unwrap()[tile_index];
        let mov = Move { tile, cell, player_id: me };
        match game.perform_move(mov) {
            Ok(_) => (game, Ok(cell)),
            Err(e) => (game, Err(owned_text(e.message()))),
        }
    }

    /// Places tile `tile_index` of the hand shown. In a game played here the
    /// player to move plays it on its pawn's cell under the rules (see
    /// [`perform_move`]); a refused move is shown. In a game on the server
    /// the client's own move is sent and the game waits for the answer;
    /// nothing happens for a spectator, while a move is on its way, or for a
    /// tile that is not there, and out of turn the player is told so.
    pub fn handle_tile_placed(&mut self, tile_index: usize) -> (r: ClientEffect)
        requires
            tile_placement_ok(*old(self), tile_index as int),
        ensures
            same_identity(*old(self), *final(self)),
            match old(self).app_state {
                AppState::Game(g0) => {
                    let mv = hand_move(g0@, g0.current_player_id, tile_index as int);
                    final(self).app_state matches AppState::Game(g) && perform_move(g0@, mv) matches Some(
                        (g2, res),
                    ) && g@ == g2 && match res {
                        Ok(_) => r == ClientEffect::TilePlaced { cell: mv.cell },
                        Err(e) => r matches ClientEffect::ShowError { message } && message@
                            == "Can't place that tile: "@ + move_error_text(e),
                    }
                },
                AppState::OnlineGame { game, room_id, lobby_name, waiting_for_server, hand_counts, is_spectator } => {
                    let me = old(self).current_player_id;
                    if is_spectator || waiting_for_server || (game.current_player_id == me
                        && tile_index >= game@.hands[me].len()) {
                        *final(self) == *old(self) && r == ClientEffect::Nothing
                    } else if game.current_player_id != me {
                        *final(self) == *old(self) && (r matches ClientEffect::ShowError { message }
                            && message@ == "It's not your turn yet."@)
                    } else {
                        &&& final(self).app_state == AppState::OnlineGame {
                            game,
                            room_id,
                            lobby_name,
                            waiting_for_server: true,
                            hand_counts,
                            is_spectator,
                        }
                        &&& r matches ClientEffect::Send {
                            request: ClientMessage::PlaceTile { room_id: rid, player_id, mov },
                        } && rid@ == room_id@ && player_id == me && mov == hand_move(
                            game@,
                            me,
                            tile_index as int,
                        )
                    }
                },
                _ => *final(self) == *old(self) && r == ClientEffect::Nothing,
            },
    {
        let mut st = AppState::MainMenu;
        std::mem::swap(&mut st, &mut self.app_state);
        match st {
            AppState::Game(game) => {
                let (game, placed) = Self::perform_local_tile_placement(game, tile_index);
                self.app_state = AppState::Game(game);
                match placed {
                    Ok(cell) => ClientEffect::TilePlaced { cell },
                    Err(m) => ClientEffect::ShowError { message: joined("Can't place that tile: ", m.as_str()) },
                }
            },
            AppState::OnlineGame { game, room_id, lobby_name, waiting_for_server, hand_counts, is_spectator } => {
                let me = self.current_player_id;
                if is_spectator || waiting_for_server {
                    self.app_state = AppState::OnlineGame { game, room_id, lobby_name, waiting_for_server, hand_counts, is_spectator };
                    return ClientEffect::Nothing;
                }
                if game.current_player_id != me {
                    self.app_state = AppState::OnlineGame { game, room_id, lobby_name, waiting_for_server, hand_counts, is_spectator };
                    return ClientEffect::ShowError { message: owned_text("It's not your turn yet.") };
                }
                let seat = game.find_alive_index(me);
                proof {
                    lemma_first_alive(game@.players, me, 0);
                }
                let cell = game.players[seat].pos.cell;
                let hand = game.hands.get(&me).unwrap();
                if tile_index >= hand.len() {
                    self.app_state = AppState::OnlineGame { game, room_id, lobby_name, waiting_for_server, hand_counts, is_spectator };
                    return ClientEffect::Nothing;
                }
                let mov = Move { tile: hand[tile_index], cell, player_id: me };
                let request = ClientMessage::PlaceTile { room_id: room_id.clone(), player_id: me, mov };
                self.app_state = AppState::OnlineGame {
                    game,
                    room_id,
                    lobby_name,
                    waiting_for_server: true,
                    hand_counts,
                    is_spectator,
                };
                ClientEffect::Send { request }
            },
            other => {
                self.app_state = other;
                ClientEffect::Nothing
            },
        }
    }

    /// Turns tile `tile_index` of the hand shown a quarter (the hand of the
    /// player to move in a game played here, the client's own in a game on
    /// the server); returns whether there was such a tile.
    pub fn handle_tile_rotated(&mut self, tile_index: usize, clockwise: bool) -> (r: bool)
        requires
            rotation_ok(*old(self), tile_index as int, clockwise),
        ensures
            same_identity(*old(self), *final(self)),
            match old(self).app_state {
                AppState::Game(g0) => final(self).app_state matches AppState::Game(g) && g@
                    == rotated_in_hand(g0@, g0.current_player_id, tile_index as int, clockwise)
                    && r == (g0@.hands.contains_key(g0.current_player_id) && tile_index
                    < g0@.hands[g0.current_player_id].len()),
                AppState::OnlineGame { game: g0, room_id, lobby_name, waiting_for_server, hand_counts, is_spectator } => {
                    let me = old(self).current_player_id;
                    &&& final(self).app_state matches AppState::OnlineGame {
                        game: g,
                        room_id: r2,
                        lobby_name: n2,
                        waiting_for_server: w2,
                        hand_counts: c2,
                        is_spectator: s2,
                    } && g@ == rotated_in_hand(g0@, me, tile_index as int, clockwise) && r2 == room_id
                        && n2 == lobby_name && w2 == waiting_for_server && c2 == hand_counts && s2 == is_spectator
                    &&& r == (g0@.hands.contains_key(me) && tile_index < g0@.hands[me].len())
                },
                _ => *final(self) == *old(self) && !r,
            },
    {
        let mut st = AppState::MainMenu;
        std::mem::swap(&mut st, &mut self.app_state);
        match st {
            AppState::Game(mut game) => {
                let owner = game.current_player_id;
                let r = rotate_hand_tile(&mut game, owner, tile_index, clockwise);
                self.app_state = AppState::Game(game);
                r
            },
            AppState::OnlineGame { mut game, room_id, lobby_name, waiting_for_server, hand_counts, is_spectator } => {
                let r = rotate_hand_tile(&mut game, self.current_player_id, tile_index, clockwise);
                self.app_state = AppState::OnlineGame { game, room_id, lobby_name, waiting_for_server, hand_counts, is_spectator };
                r
            },
            other => {
                self.app_state = other;
                false
            },
        }
    }
}

/// A lobby `l` takes one more player: it is not full and a color is free.
pub open spec fn takes_a_player(l: LobbyView) -> bool {
    l.players.len() < l.max_players && next_color(l.players) is Some
}

/// The players of the sample game.
pub open spec fn sample_players() -> Seq<Player> {
    seq![
        new_player(1, PlayerPos { cell: CellCoord { row: 0, col: 2 }, endpoint: 4 }),
        new_player(2, PlayerPos { cell: CellCoord { row: 2, col: 5 }, endpoint: 2 }),
        new_player(3, PlayerPos { cell: CellCoord { row: 5, col: 3 }, endpoint: 0 }),
        new_player(4, PlayerPos { cell: CellCoord { row: 3, col: 0 }, endpoint: 6 }),
    ]
}

/// The players of a restarted game.
pub open spec fn restart_players() -> Seq<Player> {
    seq![
        new_player(1, PlayerPos { cell: CellCoord { row: 0, col: 2 }, endpoint: 5 }),
        new_player(2, PlayerPos { cell: CellCoord { row: 2, col: 5 }, endpoint: 2 }),
        new_player(3, PlayerPos { cell: CellCoord { row: 5, col: 3 }, endpoint: 0 }),
        new_player(4, PlayerPos { cell: CellCoord { row: 3, col: 0 }, endpoint: 6 }),
    ]
}

/// `g` is a new game of `players`, with a shuffled standard deck.
pub open spec fn fresh_game(players: Seq<Player>, g: GameView) -> bool {
    exists|d: Seq<Tile>|
        d.len() == 35 && d.to_multiset() == crate::deck::standard_tiles().to_multiset()
            && #[trigger] new_game(players, d) == g
}

/// Four players, each with its pawn at `a`, `b`, `c` and `d`.
fn four_players(a: PlayerPos, b: PlayerPos, c: PlayerPos, d: PlayerPos) -> (r: Vec<Player>)
    ensures
        r@ == seq![new_player(1, a), new_player(2, b), new_player(3, c), new_player(4, d)],
{
    let mut v: Vec<Player> = Vec::new();
    v.push(Player::new(1, a));
    v.push(Player::new(2, b));
    v.push(Player::new(3, c));
    v.push(Player::new(4, d));
    assert(v@ =~= seq![new_player(1, a), new_player(2, b), new_player(3, c), new_player(4, d)]);
    v
}

impl ClientState {
    /// Places a pawn on `position` in the lobby shown: this client's own, or
    /// that of the player it places for, whom it then leaves. Online the
    /// request goes to the server (when the client is in a room); here the
    /// lobby takes it at once, and a refusal is shown.
    pub fn handle_place_pawn(&mut self, position: PlayerPos, online: bool) -> (r: ClientEffect)
        ensures
            same_identity(*old(self), *final(self)),
            match old(self).app_state {
                AppState::Lobby(l0) => {
                    let me = old(self).current_player_id;
                    if online {
                        *final(self) == *old(self) && pawn_request(*old(self), me, position, r)
                    } else {
                        let (l1, res) = lobby_after(l0@, LobbyEvent::PawnPlaced { player_id: me, position });
                        &&& final(self).app_state matches AppState::Lobby(l) && l@ == l1
                        &&& match res {
                            Ok(_) => r == ClientEffect::Nothing,
                            Err(e) => shows_lobby_error(r, "Can't place the pawn there: "@, e),
                        }
                    }
                },
                AppState::LobbyPlacingFor(l0, p) => if online {
                    &&& pawn_request(*old(self), p, position, r)
                    &&& old(self).current_room_id is Some ==> (final(self).app_state matches AppState::Lobby(l) && l@ == l0@)
                    &&& old(self).current_room_id is None ==> *final(self) == *old(self)
                } else {
                    let (l1, res) = lobby_after(l0@, LobbyEvent::PawnPlaced { player_id: p, position });
                    match res {
                        Ok(_) => (final(self).app_state matches AppState::Lobby(l) && l@ == l1) && r
                            == ClientEffect::Nothing,
                        Err(e) => (final(self).app_state matches AppState::LobbyPlacingFor(l, q) && l@
                            == l1 && q == p) && shows_lobby_error(r, "Can't place the pawn there: "@, e),
                    }
                },
                _ => *final(self) == *old(self) && r == ClientEffect::Nothing,
            },
    {
        let mut st = AppState::MainMenu;
        std::mem::swap(&mut st, &mut self.app_state);
        match st {
            AppState::Lobby(mut lobby) => {
                let me = self.current_player_id;
                if online {
                    self.app_state = AppState::Lobby(lobby);
                    return match &self.current_room_id {
                        Some(room) => ClientEffect::Send {
                            request: ClientMessage::PlacePawn { room_id: room.clone(), player_id: me, position },
                        },
                        None => ClientEffect::Nothing,
                    };
                }
                let res = lobby.handle_event(LobbyEvent::PawnPlaced { player_id: me, position });
                self.app_state = AppState::Lobby(lobby);
                match res {
                    Ok(()) => ClientEffect::Nothing,
                    Err(e) => ClientEffect::ShowError { message: joined("Can't place the pawn there: ", e.message()) },
                }
            },
            AppState::LobbyPlacingFor(mut lobby, p) => {
                if online {
                    match &self.current_room_id {
                        Some(room) => {
                            let request = ClientMessage::PlacePawn { room_id: room.clone(), player_id: p, position };
                            self.app_state = AppState::Lobby(lobby);
                            ClientEffect::Send { request }
                        },
                        None => {
                            self.app_state = AppState::LobbyPlacingFor(lobby, p);
                            ClientEffect::Nothing
                        },
                    }
                } else {
                    match lobby.handle_event(LobbyEvent::PawnPlaced { player_id: p, position }) {
                        Ok(()) => {
                            self.app_state = AppState::Lobby(lobby);
                            ClientEffect::Nothing
                        },
                        Err(e) => {
                            self.app_state = AppState::LobbyPlacingFor(lobby, p);
                            ClientEffect::ShowError { message: joined("Can't place the pawn there: ", e.message()) }
                        },
                    }
                }
            },
            other => {
                self.app_state = other;
                ClientEffect::Nothing
            },
        }
    }

    /// Starts the game of the lobby shown (not while placing another
    /// player's pawn). Online the request goes to the server (when the
    /// client is in a room). Here the lobby starts once all its players are
    /// placed, and the game of its placed players is shown; a refusal is
    /// shown.
    pub fn handle_start_game_from_lobby(&mut self, online: bool) -> (r: ClientEffect)
        ensures
            same_identity(*old(self), *final(self)),
            match old(self).app_state {
                AppState::Lobby(l0) => if online {
                    &&& *final(self) == *old(self)
                    &&& match old(self).current_room_id {
                        Some(room) => r matches ClientEffect::Send {
                            request: ClientMessage::StartGame { room_id },
                        } && room_id@ == room@,
                        None => r == ClientEffect::Nothing,
                    }
                } else {
                    match lobby_after(l0@, LobbyEvent::StartGame) {
                        (l1, Ok(_)) => (final(self).app_state matches AppState::Game(g) && started_from(
                            l1.players,
                            g@,
                        )) && r == ClientEffect::Nothing,
                        (_, Err(e)) => (final(self).app_state matches AppState::Lobby(l) && l@ == l0@)
                            && shows_lobby_error(r, "Can't start the game: "@, e),
                    }
                },
                _ => *final(self) == *old(self) && r == ClientEffect::Nothing,
            },
    {
        let mut st = AppState::MainMenu;
        std::mem::swap(&mut st, &mut self.app_state);
        match st {
            AppState::Lobby(mut lobby) => {
                if online {
                    self.app_state = AppState::Lobby(lobby);
                    return match &self.current_room_id {
                        Some(room) => ClientEffect::Send {
                            request: ClientMessage::StartGame { room_id: room.clone() },
                        },
                        None => ClientEffect::Nothing,
                    };
                }
                let ghost l0 = lobby@;
                match lobby.handle_event(LobbyEvent::StartGame) {
                    Ok(()) => {},
                    Err(e) => {
                        self.app_state = AppState::Lobby(lobby);
                        return ClientEffect::ShowError { message: joined("Can't start the game: ", e.message()) };
                    },
                }
                proof {
                    crate::lobby::law_start_only_when_ready(l0, LobbyEvent::StartGame);
                }
                match lobby.to_game() {
                    Ok(game) => {
                        self.app_state = AppState::Game(game);
                        ClientEffect::Nothing
                    },
                    Err(e) => {
                        self.app_state = AppState::Lobby(lobby);
                        ClientEffect::ShowError { message: joined("Can't start the game: ", e.message()) }
                    },
                }
            },
            other => {
                self.app_state = other;
                ClientEffect::Nothing
            },
        }
    }
}

/// The lobby shown, if any, leaves room for one more player id above its
/// highest.
pub open spec fn next_id_fits(c: ClientState) -> bool {
    shown_lobby(c.app_state) matches Some(l) ==> highest_id(l.players) < usize::MAX
}

impl ClientState {
    /// Adds a test player to the lobby shown, with the next id above the
    /// highest and the name "Test Player <id>", and then places its pawn; a
    /// lobby that takes no more players stays as it is.
    pub fn handle_debug_add_player(&mut self)
        requires
            next_id_fits(*old(self)),
        ensures
            same_identity(*old(self), *final(self)),
            match shown_lobby(old(self).app_state) {
                None => *final(self) == *old(self),
                Some(l0) => {
                    let id = (highest_id(l0.players) + 1) as PlayerID;
                    if takes_a_player(l0) {
                        final(self).app_state matches AppState::LobbyPlacingFor(l, q) && q == id
                            && l@.players.contains_key(id) && l@.players[id].name@ == "Test Player "@
                            + decimal(id as nat) && l@ == lobby_after(
                            l0,
                            LobbyEvent::PlayerJoined { player_id: id, player_name: l@.players[id].name },
                        ).0
                    } else {
                        with_lobby(old(self).app_state, final(self).app_state, l0)
                    }
                },
            },
    {
        let mut st = AppState::MainMenu;
        std::mem::swap(&mut st, &mut self.app_state);
        let (mut lobby, placing) = match st {
            AppState::Lobby(lobby) => (lobby, None),
            AppState::LobbyPlacingFor(lobby, p) => (lobby, Some(p)),
            other => {
                self.app_state = other;
                return;
            },
        };
        let id = highest_player_id(&lobby.players) + 1;
        let mut name = owned_text("Test Player ");
        let digits = decimal_text(id);
        append_text(&mut name, digits.as_str());
        match lobby.handle_event(LobbyEvent::PlayerJoined { player_id: id, player_name: name }) {
            Ok(()) => {
                self.app_state = AppState::LobbyPlacingFor(lobby, id);
            },
            Err(_) => {
                self.app_state = match placing {
                    None => AppState::Lobby(lobby),
                    Some(p) => AppState::LobbyPlacingFor(lobby, p),
                };
            },
        }
    }

    /// Creates a lobby named `lobby_name` with this client's player, named
    /// `player_name`, as its first player (id 1). Connected, the room is
    /// asked of the server, with the given visibility and turn clock, and
    /// the lobby has that visibility; otherwise the lobby stays on this
    /// machine (private) and the player is told.
    pub fn handle_create_and_join_lobby(
        &mut self,
        lobby_name: String,
        player_name: String,
        visibility: Visibility,
        turn_timer_secs: Option<u64>,
        connected: bool,
    ) -> (r: ClientEffect)
        ensures
            lobby_created(*old(self), *final(self), lobby_name, player_name, visibility, turn_timer_secs, connected, r),
    {
        let effect = if connected {
            ClientEffect::Send {
                request: ClientMessage::CreateRoom {
                    room_name: lobby_name.clone(),
                    creator_name: player_name.clone(),
                    visibility,
                    turn_timer_secs,
                },
            }
        } else {
            ClientEffect::ShowError {
                message: owned_text("Couldn't reach the server, so a local lobby was started instead."),
            }
        };
        let (mut lobby, _) = Lobby::new_with_creator(lobby_name, player_name);
        if connected {
            lobby.visibility = visibility;
        }
        self.current_player_id = 1;
        self.app_state = AppState::Lobby(lobby);
        effect
    }

    /// Submits the create form: with a lobby name and a player name (not
    /// blank once trimmed), creates the lobby with the form's visibility and
    /// turn clock (see [`ClientState::handle_create_and_join_lobby`]);
    /// otherwise nothing happens.
    pub fn handle_submit_create_lobby_form(&mut self, connected: bool) -> (r: ClientEffect)
        ensures
            match old(self).app_state {
                AppState::CreateLobbyForm { lobby_name, player_name, public, turn_timer_secs } => if named(
                    lobby_name@,
                ) && named(player_name@) {
                    lobby_created(
                        *old(self),
                        *final(self),
                        lobby_name,
                        player_name,
                        if public {
                            Visibility::Public
                        } else {
                            Visibility::Private
                        },
                        turn_timer_secs,
                        connected,
                        r,
                    )
                } else {
                    *final(self) == *old(self) && r == ClientEffect::Nothing
                },
                _ => *final(self) == *old(self) && r == ClientEffect::Nothing,
            },
    {
        let (lobby_name, player_name, public, turn_timer_secs) = match &self.app_state {
            AppState::CreateLobbyForm { lobby_name, player_name, public, turn_timer_secs } => (
                lobby_name.clone(),
                player_name.clone(),
                *public,
                *turn_timer_secs,
            ),
            _ => {
                return ClientEffect::Nothing;
            },
        };
        let lobby_trimmed = trim_text(&lobby_name);
        let player_trimmed = trim_text(&player_name);
        if lobby_trimmed.as_str().unicode_len() == 0 || player_trimmed.as_str().unicode_len() == 0 {
            return ClientEffect::Nothing;
        }
        let visibility = if public {
            Visibility::Public
        } else {
            Visibility::Private
        };
        self.handle_create_and_join_lobby(lobby_name, player_name, visibility, turn_timer_secs, connected)
    }

    /// Starts a game of four players on this machine.
    pub fn handle_start_sample_game(&mut self)
        ensures
            same_identity(*old(self), *final(self)),
            final(self).app_state matches AppState::Game(g) && fresh_game(sample_players(), g@),
            final(self).app_state matches AppState::Game(g) && g.wf(),
    {
        let players = four_players(
            PlayerPos::new(0, 2, 4),
            PlayerPos::new(2, 5, 2),
            PlayerPos::new(5, 3, 0),
            PlayerPos::new(3, 0, 6),
        );
        assert(players@ == sample_players());
        self.app_state = AppState::Game(Game::new(players));
    }

    /// Starts the game played on this machine again, with four players.
    pub fn handle_restart_game(&mut self)
        ensures
            same_identity(*old(self), *final(self)),
            old(self).app_state is Game ==> (final(self).app_state matches AppState::Game(g)
                && fresh_game(restart_players(), g@) && g.wf()),
            !(old(self).app_state is Game) ==> *final(self) == *old(self),
    {
        if let AppState::Game(_) = &self.app_state {
            let players = four_players(
                PlayerPos::new(0, 2, 5),
                PlayerPos::new(2, 5, 2),
                PlayerPos::new(5, 3, 0),
                PlayerPos::new(3, 0, 6),
            );
            assert(players@ == restart_players());
            self.app_state = AppState::Game(Game::new(players));
        }
    }
}

/// The players of `players` whose pawn is not placed yet.
pub open spec fn unplaced_ids(players: Map<PlayerID, crate::lobby::LobbyPlayer>) -> Set<PlayerID> {
    ids_with_spawn(players, false)
}

/// The index of the first `x` in `s` from `i` on (`s.len()` if none).
pub open spec fn index_from(s: Seq<PlayerID>, x: PlayerID, i: int) -> int
    decreases s.len() - i,
{
    if i < 0 || i >= s.len() {
        s.len() as int
    } else if s[i] == x {
        i
    } else {
        index_from(s, x, i + 1)
    }
}

/// The id after (or before) `current` in the non-empty `s`, going round;
/// where `current` is not in `s`, counted from the first.
pub open spec fn cycled(s: Seq<PlayerID>, current: PlayerID, next: bool) -> PlayerID {
    let found = index_from(s, current, 0);
    let idx = if found < s.len() {
        found
    } else {
        0
    };
    let k = if next {
        (idx + 1) % (s.len() as int)
    } else if idx == 0 {
        s.len() - 1
    } else {
        idx - 1
    };
    s[k]
}

impl ClientState {
    /// While placing pawns for the players of a lobby, goes on to the next
    /// (or previous) player without a placed pawn, in order of id and going
    /// round; from a player already placed, counts from the first. Nothing
    /// changes when every pawn is placed.
    pub fn handle_debug_cycle_player(&mut self, next: bool)
        ensures
            same_identity(*old(self), *final(self)),
            match old(self).app_state {
                AppState::LobbyPlacingFor(l0, current) => {
                    &&& exists|s: Seq<PlayerID>| increasing(s) && s.to_set() == unplaced_ids(l0@.players)
                    &&& forall|s: Seq<PlayerID>|
                        increasing(s) && s.to_set() == unplaced_ids(l0@.players) ==> if s.len() == 0 {
                            *final(self) == *old(self)
                        } else {
                            final(self).app_state == AppState::LobbyPlacingFor(l0, cycled(s, current, next))
                        }
                },
                _ => *final(self) == *old(self),
            },
    {
        let mut st = AppState::MainMenu;
        std::mem::swap(&mut st, &mut self.app_state);
        match st {
            AppState::LobbyPlacingFor(lobby, current) => {
                let ids = sorted_ids_with_spawn(&lobby.players, false);
                let n = ids.len();
                if n == 0 {
                    self.app_state = AppState::LobbyPlacingFor(lobby, current);
                    proof {
                        assert forall|s: Seq<PlayerID>|
                            increasing(s) && s.to_set() == unplaced_ids(lobby@.players) implies s.len() == 0 by {
                            lemma_increasing_unique(s, ids@);
                        }
                    }
                    return;
                }
                let mut i: usize = 0;
                while i < n && ids[i] != current
                    invariant
                        i <= n == ids@.len(),
                        index_from(ids@, current, 0) == index_from(ids@, current, i as int),
                    decreases n - i,
                {
                    i = i + 1;
                }
                let idx = if i < n {
                    i
                } else {
                    0
                };
                let k = if next {
                    (idx + 1) % n
                } else if idx == 0 {
                    n - 1
                } else {
                    idx - 1
                };
                let chosen = ids[k];
                proof {
                    assert(chosen == cycled(ids@, current, next));
                    assert forall|s: Seq<PlayerID>|
                        increasing(s) && s.to_set() == unplaced_ids(lobby@.players) implies s == ids@ by {
                        lemma_increasing_unique(s, ids@);
                    }
                }
                self.app_state = AppState::LobbyPlacingFor(lobby, chosen);
            },
            other => {
                self.app_state = other;
            },
        }
    }
}

/// The replay shown, if any, is at a move whose next one can be replayed.
pub open spec fn replay_forward_ok(c: ClientState) -> bool {
    c.app_state matches AppState::ReplayViewer { replay_state: r, .. } ==> (r.current_move_index
        < r.export.game_state@.history.len() ==> replay_defined(
        r.export.game_state@,
        r.current_move_index + 1,
    ))
}

/// The replay shown, if any, is at a move whose previous one can be
/// replayed.
pub open spec fn replay_backward_ok(c: ClientState) -> bool {
    c.app_state matches AppState::ReplayViewer { replay_state: r, .. } ==> (r.current_move_index > 0
        ==> replay_defined(r.export.game_state@, r.current_move_index - 1))
}

/// The replay shown, if any, can be replayed up to move `index` (when its
/// game has that many).
pub open spec fn replay_index_ok(c: ClientState, index: int) -> bool {
    c.app_state matches AppState::ReplayViewer { replay_state: r, .. } ==> (index
        <= r.export.game_state@.history.len() ==> replay_defined(r.export.game_state@, index))
}

/// The replay shown, if any, can be replayed to its end.
pub open spec fn replay_end_ok(c: ClientState) -> bool {
    c.app_state matches AppState::ReplayViewer { replay_state: r, .. } ==> replay_defined(
        r.export.game_state@,
        r.export.game_state@.history.len() as int,
    )
}

/// `after` is the replay `before` at move `index` (when it has that many),
/// showing the game then; otherwise `before` unchanged.
pub open spec fn replay_moved_to(before: AppState, after: AppState, index: int) -> bool {
    match before {
        AppState::ReplayViewer { replay_state: r0, current_game: g0 } => after matches AppState::ReplayViewer {
            replay_state: r1,
            current_game: g1,
        } && r1.export == r0.export && r1.playback_status == r0.playback_status && if 0 <= index
            <= r0.export.game_state@.history.len() {
            r1.current_move_index == index && replayed(r0.export.game_state@, index, g1@)
        } else {
            r1.current_move_index == r0.current_move_index && g1 == g0
        },
        _ => after == before,
    }
}

/// `after` is the replay `before` with its playback now `status`.
pub open spec fn replay_status_set(before: AppState, after: AppState, status: PlaybackStatus) -> bool {
    match before {
        AppState::ReplayViewer { replay_state: r0, current_game: g0 } => after matches AppState::ReplayViewer {
            replay_state: r1,
            current_game: g1,
        } && r1.export == r0.export && r1.current_move_index == r0.current_move_index
            && r1.playback_status == status && g1 == g0,
        _ => after == before,
    }
}

impl ClientState {
    /// Opens the replay of `export` at its start, showing the game before
    /// the first move.
    pub fn open_replay(&mut self, export: GameExport)
        requires
            replay_defined(export.game_state@, 0),
        ensures
            same_identity(*old(self), *final(self)),
            final(self).app_state matches AppState::ReplayViewer { replay_state, current_game }
                && replay_state.export == export && replay_state.current_move_index == 0
                && replay_state.playback_status == PlaybackStatus::Paused && replayed(
                export.game_state@,
                0,
                current_game@,
            ),
    {
        let replay_state = ReplayState::new(export);
        let current_game = replay_state.current_game_state();
        self.app_state = AppState::ReplayViewer { replay_state, current_game };
    }

    /// Starts playing the replay shown.
    pub fn handle_replay_play(&mut self)
        ensures
            same_identity(*old(self), *final(self)),
            replay_status_set(old(self).app_state, final(self).app_state, PlaybackStatus::Playing),
    {
        let mut st = AppState::MainMenu;
        std::mem::swap(&mut st, &mut self.app_state);
        self.app_state = match st {
            AppState::ReplayViewer { mut replay_state, current_game } => {
                replay_state.play();
                AppState::ReplayViewer { replay_state, current_game }
            },
            other => other,
        };
    }

    /// Pauses the replay shown.
    pub fn handle_replay_pause(&mut self)
        ensures
            same_identity(*old(self), *final(self)),
            replay_status_set(old(self).app_state, final(self).app_state, PlaybackStatus::Paused),
    {
        let mut st = AppState::MainMenu;
        std::mem::swap(&mut st, &mut self.app_state);
        self.app_state = match st {
            AppState::ReplayViewer { mut replay_state, current_game } => {
                replay_state.pause();
                AppState::ReplayViewer { replay_state, current_game }
            },
            other => other,
        };
    }

    /// Moves the replay shown one move on, when one is left.
    pub fn handle_replay_step_forward(&mut self)
        requires
            replay_forward_ok(*old(self)),
        ensures
            same_identity(*old(self), *final(self)),
            match old(self).app_state {
                AppState::ReplayViewer { replay_state: r0, .. } => replay_moved_to(
                    old(self).app_state,
                    final(self).app_state,
                    r0.current_move_index + 1,
                ),
                _ => *final(self) == *old(self),
            },
    {
        let mut st = AppState::MainMenu;
        std::mem::swap(&mut st, &mut self.app_state);
        self.app_state = match st {
            AppState::ReplayViewer { mut replay_state, current_game } => {
                match replay_state.step_forward() {
                    Some(g) => AppState::ReplayViewer { replay_state, current_game: g },
                    None => AppState::ReplayViewer { replay_state, current_game },
                }
            },
            other => other,
        };
    }

    /// Moves the replay shown one move back, unless at the start.
    pub fn handle_replay_step_backward(&mut self)
        requires
            replay_backward_ok(*old(self)),
        ensures
            same_identity(*old(self), *final(self)),
            match old(self).app_state {
                AppState::ReplayViewer { replay_state: r0, .. } => replay_moved_to(
                    old(self).app_state,
                    final(self).app_state,
                    r0.current_move_index - 1,
                ),
                _ => *final(self) == *old(self),
            },
    {
        let mut st = AppState::MainMenu;
        std::mem::swap(&mut st, &mut self.app_state);
        self.app_state = match st {
            AppState::ReplayViewer { mut replay_state, current_game } => {
                match replay_state.step_backward() {
                    Some(g) => AppState::ReplayViewer { replay_state, current_game: g },
                    None => AppState::ReplayViewer { replay_state, current_game },
                }
            },
            other => other,
        };
    }

    /// Moves the replay shown to move `index`, when its game has that many.
    pub fn handle_replay_jump_to_move(&mut self, index: usize)
        requires
            replay_index_ok(*old(self), index as int),
        ensures
            same_identity(*old(self), *final(self)),
            replay_moved_to(old(self).app_state, final(self).app_state, index as int),
    {
        let mut st = AppState::MainMenu;
        std::mem::swap(&mut st, &mut self.app_state);
        self.app_state = match st {
            AppState::ReplayViewer { mut replay_state, current_game } => {
                match replay_state.set_move_index(index) {
                    Some(g) => AppState::ReplayViewer { replay_state, current_game: g },
                    None => AppState::ReplayViewer { replay_state, current_game },
                }
            },
            other => other,
        };
    }

    /// Moves the replay shown back to its start.
    pub fn handle_replay_jump_to_start(&mut self)
        requires
            replay_index_ok(*old(self), 0),
        ensures
            same_identity(*old(self), *final(self)),
            replay_moved_to(old(self).app_state, final(self).app_state, 0),
    {
        let mut st = AppState::MainMenu;
        std::mem::swap(&mut st, &mut self.app_state);
        self.app_state = match st {
            AppState::ReplayViewer { mut replay_state, current_game } => {
                match replay_state.jump_to_start() {
                    Some(g) => AppState::ReplayViewer { replay_state, current_game: g },
                    None => AppState::ReplayViewer { replay_state, current_game },
                }
            },
            other => other,
        };
    }

    /// Moves the replay shown to its end.
    pub fn handle_replay_jump_to_end(&mut self)
        requires
            replay_end_ok(*old(self)),
        ensures
            same_identity(*old(self), *final(self)),
            match old(self).app_state {
                AppState::ReplayViewer { replay_state: r0, .. } => replay_moved_to(
                    old(self).app_state,
                    final(self).app_state,
                    r0.export.game_state@.history.len() as int,
                ),
                _ => *final(self) == *old(self),
            },
    {
        let mut st = AppState::MainMenu;
        std::mem::swap(&mut st, &mut self.app_state);
        self.app_state = match st {
            AppState::ReplayViewer { mut replay_state, current_game } => {
                match replay_state.jump_to_end() {
                    Some(g) => AppState::ReplayViewer { replay_state, current_game: g },
                    None => AppState::ReplayViewer { replay_state, current_game },
                }
            },
            other => other,
        };
    }

    /// Leaves the replay for the main menu.
    pub fn handle_exit_replay(&mut self)
        ensures
            same_identity(*old(self), *final(self)),
            final(self).app_state == AppState::MainMenu,
    {
        self.app_state = AppState::MainMenu;
    }
}

/// `b` is client `a` after it created a lobby named `lobby_name` for
/// `player_name` (see [`ClientState::handle_create_and_join_lobby`]),
/// answering `r`.
pub open spec fn lobby_created(
    a: ClientState,
    b: ClientState,
    lobby_name: String,
    player_name: String,
    visibility: Visibility,
    turn_timer_secs: Option<u64>,
    connected: bool,
    r: ClientEffect,
) -> bool {
    &&& b.current_room_id == a.current_room_id
    &&& b.current_player_id == 1
    &&& connected ==> (b.app_state matches AppState::Lobby(l) && l@ == fresh_lobby(
        lobby_name,
        visibility,
        1,
        player_name,
    ))
    &&& connected ==> (r matches ClientEffect::Send {
        request: ClientMessage::CreateRoom { room_name, creator_name, visibility: v, turn_timer_secs: t },
    } && room_name@ == lobby_name@ && creator_name@ == player_name@ && v == visibility
        && t == turn_timer_secs)
    &&& !connected ==> (b.app_state matches AppState::Lobby(l) && l@ == fresh_lobby(
        lobby_name,
        Visibility::Private,
        1,
        player_name,
    ))
    &&& !connected ==> (r matches ClientEffect::ShowError { message } && message@
        == "Couldn't reach the server, so a local lobby was started instead."@)
}

} // verus!
