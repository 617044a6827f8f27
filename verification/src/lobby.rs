//! The lobby of a room: players join and are given colors, place their
//! pawns on the border of the board, and start the game.
use std::collections::HashMap;

use vstd::prelude::*;
use vstd::std_specs::iter::IteratorSpec;
use vstd::string::{StrSliceExecFns, StringSliceAdditionalSpecFns};

use crate::board::{CellCoord, Player, PlayerID, PlayerPos, Tile};
use crate::game::Game;
use crate::game_model::new_game;
use crate::text::append_char;

verus! {

/// The identifier of a lobby.
#[derive(Debug, Clone, Copy, PartialEq, Eq, Structural)]
pub struct LobbyId(pub u64);

/// Whether a room is listed in the public lobby directory or reachable only
/// by its code.
#[derive(Debug, Clone, Copy, PartialEq, Eq, Structural)]
pub enum Visibility {
    Public,
    Private,
}

impl Default for Visibility {
    /// Rooms are private unless made public.
    fn default() -> (r: Visibility)
        ensures
            r == Visibility::Private,
    {
        Visibility::Private
    }
}

/// A player waiting in a lobby; ready once a spawn position is chosen.
#[derive(Debug)]
pub struct LobbyPlayer {
    pub id: PlayerID,
    pub name: String,
    pub color: (u8, u8, u8),
    /// A position on the border of the board; `None` until placed.
    pub spawn_position: Option<PlayerPos>,
}

impl Clone for LobbyPlayer {
    fn clone(&self) -> (r: LobbyPlayer)
        ensures
            r == *self,
    {
        LobbyPlayer {
            id: self.id,
            name: self.name.clone(),
            color: self.color,
            spawn_position: self.spawn_position,
        }
    }
}

/// Something that happens in a lobby.
#[derive(Debug)]
pub enum LobbyEvent {
    PlayerJoined { player_id: PlayerID, player_name: String },
    /// The position must be on the border of the board.
    PawnPlaced { player_id: PlayerID, position: PlayerPos },
    StartGame,
    PlayerLeft { player_id: PlayerID },
}

impl Clone for LobbyEvent {
    fn clone(&self) -> (r: LobbyEvent)
        ensures
            r == *self,
    {
        match self {
            LobbyEvent::PlayerJoined { player_id, player_name } => LobbyEvent::PlayerJoined {
                player_id: *player_id,
                player_name: player_name.clone(),
            },
            LobbyEvent::PawnPlaced { player_id, position } => LobbyEvent::PawnPlaced {
                player_id: *player_id,
                position: *position,
            },
            LobbyEvent::StartGame => LobbyEvent::StartGame,
            LobbyEvent::PlayerLeft { player_id } => LobbyEvent::PlayerLeft { player_id: *player_id },
        }
    }
}

/// Why a lobby refused an event.
#[derive(Debug, Clone, Copy, PartialEq, Eq, Structural)]
pub enum LobbyError {
    LobbyFull,
    PlayerNotFound,
    InvalidSpawnPosition,
    PositionTaken,
    NotReadyToStart,
    GameNotStarted,
    NotEnoughPlayers,
    NoAvailableColors,
}

/// The text shown for each lobby error.
pub open spec fn lobby_error_text(e: LobbyError) -> Seq<char> {
    match e {
        LobbyError::LobbyFull => "the lobby is full"@,
        LobbyError::PlayerNotFound => "no such player in the lobby"@,
        LobbyError::InvalidSpawnPosition => "spawn positions must be on the border of the board"@,
        LobbyError::PositionTaken => "that spawn position is taken"@,
        LobbyError::NotReadyToStart => "the lobby is not ready to start"@,
        LobbyError::GameNotStarted => "the game has not started"@,
        LobbyError::NotEnoughPlayers => "not enough players to start"@,
        LobbyError::NoAvailableColors => "no player color is left"@,
    }
}

impl LobbyError {
    /// What went wrong, in words.
    pub fn message(&self) -> (r: &'static str)
        ensures
            r@ == lobby_error_text(*self),
    {
        match self {
            LobbyError::LobbyFull => "the lobby is full",
            LobbyError::PlayerNotFound => "no such player in the lobby",
            LobbyError::InvalidSpawnPosition => "spawn positions must be on the border of the board",
            LobbyError::PositionTaken => "that spawn position is taken",
            LobbyError::NotReadyToStart => "the lobby is not ready to start",
            LobbyError::GameNotStarted => "the game has not started",
            LobbyError::NotEnoughPlayers => "not enough players to start",
            LobbyError::NoAvailableColors => "no player color is left",
        }
    }
}

/// Players gathering before a game.
#[derive(Debug)]
pub struct Lobby {
    pub id: LobbyId,
    pub name: String,
    pub players: HashMap<PlayerID, LobbyPlayer>,
    pub started: bool,
    /// 8 unless changed; at least 2 make sense.
    pub max_players: usize,
    pub visibility: Visibility,
}

/// A lobby, its players as a map.
pub struct LobbyView {
    pub id: LobbyId,
    pub name: String,
    pub players: Map<PlayerID, LobbyPlayer>,
    pub started: bool,
    pub max_players: usize,
    pub visibility: Visibility,
}

impl View for Lobby {
    type V = LobbyView;

    open spec fn view(&self) -> LobbyView {
        LobbyView {
            id: self.id,
            name: self.name,
            players: self.players@,
            started: self.started,
            max_players: self.max_players,
            visibility: self.visibility,
        }
    }
}

impl Clone for Lobby {
    fn clone(&self) -> (r: Lobby)
        ensures
            r@ == self@,
    {
        Lobby {
            id: self.id,
            name: self.name.clone(),
            players: self.players.clone(),
            started: self.started,
            max_players: self.max_players,
            visibility: self.visibility,
        }
    }
}

/// The colors given to players as they join, in order (Solarized red,
/// green, blue, yellow, magenta, cyan, orange, violet).
pub open spec fn lobby_colors() -> Seq<(u8, u8, u8)> {
    seq![
        (220u8, 50u8, 47u8),
        (133u8, 153u8, 0u8),
        (38u8, 139u8, 210u8),
        (181u8, 137u8, 0u8),
        (211u8, 54u8, 130u8),
        (42u8, 161u8, 152u8),
        (203u8, 75u8, 22u8),
        (108u8, 113u8, 196u8),
    ]
}

/// Some player of the lobby has color `c`.
pub open spec fn color_used(players: Map<PlayerID, LobbyPlayer>, c: (u8, u8, u8)) -> bool {
    exists|id: PlayerID| #[trigger] players.contains_key(id) && players[id].color == c
}

/// The first color of [`lobby_colors`], from the `i`-th on, that no player
/// has.
pub open spec fn free_color_from(players: Map<PlayerID, LobbyPlayer>, i: int) -> Option<
    (u8, u8, u8),
>
    decreases 8 - i,
{
    if i < 0 || i >= 8 {
        None
    } else if !color_used(players, lobby_colors()[i]) {
        Some(lobby_colors()[i])
    } else {
        free_color_from(players, i + 1)
    }
}

/// The color the next player to join gets.
pub open spec fn next_color(players: Map<PlayerID, LobbyPlayer>) -> Option<(u8, u8, u8)> {
    free_color_from(players, 0)
}

/// A spawn position must be in a cell on the border of the 6 by 6 board.
pub open spec fn is_edge_spawn(pos: PlayerPos) -> bool {
    let row = pos.cell.row;
    let col = pos.cell.col;
    (row == 0 || row == 5 || col == 0 || col == 5) && row <= 5 && col <= 5
}

/// A player other than `requester` has already chosen `pos`.
pub open spec fn position_taken(
    players: Map<PlayerID, LobbyPlayer>,
    pos: PlayerPos,
    requester: PlayerID,
) -> bool {
    exists|id: PlayerID|
        #[trigger] players.contains_key(id) && players[id].id != requester
            && players[id].spawn_position == Some(pos)
}

/// Every player of the lobby has chosen a spawn position.
pub open spec fn all_placed(players: Map<PlayerID, LobbyPlayer>) -> bool {
    forall|id: PlayerID| #[trigger] players.contains_key(id) ==> players[id].spawn_position is Some
}

/// At least two players, all of them placed.
pub open spec fn ready_to_start(players: Map<PlayerID, LobbyPlayer>) -> bool {
    players.len() >= 2 && all_placed(players)
}

/// The lobby after `e`, and whether `e` was accepted. A refused event
/// changes nothing.
pub open spec fn lobby_after(l: LobbyView, e: LobbyEvent) -> (LobbyView, Result<(), LobbyError>) {
    match e {
        LobbyEvent::PlayerJoined { player_id, player_name } => {
            if l.players.len() >= l.max_players {
                (l, Err(LobbyError::LobbyFull))
            } else {
                match next_color(l.players) {
                    None => (l, Err(LobbyError::NoAvailableColors)),
                    Some(c) => (
                        LobbyView {
                            players: l.players.insert(
                                player_id,
                                LobbyPlayer {
                                    id: player_id,
                                    name: player_name,
                                    color: c,
                                    spawn_position: None,
                                },
                            ),
                            ..l
                        },
                        Ok(()),
                    ),
                }
            }
        },
        LobbyEvent::PawnPlaced { player_id, position } => {
            if !is_edge_spawn(position) {
                (l, Err(LobbyError::InvalidSpawnPosition))
            } else if position_taken(l.players, position, player_id) {
                (l, Err(LobbyError::PositionTaken))
            } else if !l.players.contains_key(player_id) {
                (l, Err(LobbyError::PlayerNotFound))
            } else {
                (
                    LobbyView {
                        players: l.players.insert(
                            player_id,
                            LobbyPlayer { spawn_position: Some(position), ..l.players[player_id] },
                        ),
                        ..l
                    },
                    Ok(()),
                )
            }
        },
        LobbyEvent::StartGame => {
            if !ready_to_start(l.players) {
                (l, Err(LobbyError::NotReadyToStart))
            } else {
                (LobbyView { started: true, ..l }, Ok(()))
            }
        },
        LobbyEvent::PlayerLeft { player_id } => {
            if !l.players.contains_key(player_id) {
                (l, Err(LobbyError::PlayerNotFound))
            } else {
                (LobbyView { players: l.players.remove(player_id), ..l }, Ok(()))
            }
        },
    }
}

/// `ks` lists each placed player of the lobby once, in some order.
pub open spec fn placed_order(players: Map<PlayerID, LobbyPlayer>, ks: Seq<PlayerID>) -> bool {
    &&& ks.no_duplicates()
    &&& forall|i: int|
        0 <= i < ks.len() ==> players.contains_key(#[trigger] ks[i])
            && players[ks[i]].spawn_position is Some
    &&& forall|k: PlayerID|
        #[trigger] players.contains_key(k) && players[k].spawn_position is Some ==> ks.contains(k)
}

/// The game player made of lobby player `p`: its id, its spawn position and
/// the color the lobby gave it, alive and not yet moved.
pub open spec fn seat_of(p: LobbyPlayer) -> Player {
    Player { id: p.id, pos: p.spawn_position.unwrap(), alive: true, has_moved: false, color: p.color }
}

/// The game players made of the lobby players `ks`, in that order (see
/// [`seat_of`]).
pub open spec fn seated(players: Map<PlayerID, LobbyPlayer>, ks: Seq<PlayerID>) -> Seq<Player> {
    ks.map_values(|k: PlayerID| seat_of(players[k]))
}

/// The ids of `players` whose pawn is placed (or, for `placed` false, not
/// placed yet).
pub open spec fn ids_with_spawn(players: Map<PlayerID, LobbyPlayer>, placed: bool) -> Set<PlayerID> {
    Set::new(|id: PlayerID| players.contains_key(id) && (players[id].spawn_position is Some) == placed)
}

/// `s` is strictly increasing.
pub open spec fn increasing(s: Seq<PlayerID>) -> bool {
    forall|i: int, j: int| 0 <= i < j < s.len() ==> s[i] < s[j]
}

/// Two increasing sequences of the same ids are one.
pub proof fn lemma_increasing_unique(s: Seq<PlayerID>, t: Seq<PlayerID>)
    requires
        increasing(s),
        increasing(t),
        s.to_set() == t.to_set(),
    ensures
        s == t,
    decreases s.len(),
{
    if s.len() == 0 {
        if t.len() > 0 {
            assert(t.to_set().contains(t[0]));
            assert(false);
        }
        assert(s =~= t);
    } else {
        if t.len() == 0 {
            assert(s.to_set().contains(s[0]));
            assert(false);
        }
        assert(s.to_set().contains(s[0]));
        assert(t.contains(s[0]));
        let k = choose|k: int| 0 <= k < t.len() && t[k] == s[0];
        assert(t.to_set().contains(t[0]));
        assert(s.contains(t[0]));
        let m = choose|m: int| 0 <= m < s.len() && s[m] == t[0];
        assert(s[0] <= s[m]);
        assert(t[0] <= t[k]);
        assert(s[0] == t[0]);
        let s1 = s.drop_first();
        let t1 = t.drop_first();
        assert forall|x: PlayerID| s1.to_set().contains(x) <==> t1.to_set().contains(x) by {
            if s1.to_set().contains(x) {
                assert(s1.contains(x));
                let i = choose|i: int| 0 <= i < s1.len() && s1[i] == x;
                assert(s[i + 1] == x);
                assert(s.contains(x));
                assert(t.to_set().contains(x));
                assert(t.contains(x));
                let j = choose|j: int| 0 <= j < t.len() && t[j] == x;
                assert(j != 0);
                assert(t1[j - 1] == x);
                assert(t1.contains(x));
            }
            if t1.to_set().contains(x) {
                assert(t1.contains(x));
                let i = choose|i: int| 0 <= i < t1.len() && t1[i] == x;
                assert(t[i + 1] == x);
                assert(t.contains(x));
                assert(s.to_set().contains(x));
                assert(s.contains(x));
                let j = choose|j: int| 0 <= j < s.len() && s[j] == x;
                assert(j != 0);
                assert(s1[j - 1] == x);
                assert(s1.contains(x));
            }
        }
        assert(s1.to_set() =~= t1.to_set());
        lemma_increasing_unique(s1, t1);
        assert(s =~= t) by {
            assert forall|i: int| 0 <= i < s.len() implies s[i] == t[i] by {
                if i > 0 {
                    assert(s[i] == s1[i - 1]);
                    assert(t[i] == t1[i - 1]);
                }
            }
        }
    }
}

/// Adds `k` to the increasing `ids`, in its place, unless it is there.
pub(crate) fn insert_sorted(ids: &mut Vec<PlayerID>, k: PlayerID)
    requires
        increasing(old(ids)@),
    ensures
        increasing(final(ids)@),
        final(ids)@.to_set() == old(ids)@.to_set().insert(k),
{
    let ghost s = ids@;
    let mut p: usize = 0;
    while p < ids.len() && ids[p] < k
        invariant
            ids@ == s,
            p <= s.len(),
            forall|j: int| 0 <= j < p ==> s[j] < k,
        decreases s.len() - p,
    {
        p = p + 1;
    }
    if p < ids.len() && ids[p] == k {
        assert(s.to_set().contains(k)) by {
            assert(s.contains(k));
        }
        assert(s.to_set().insert(k) =~= s.to_set());
        return;
    }
    ids.insert(p, k);
    proof {
        let n = s.insert(p as int, k);
        s.insert_ensures(p as int, k);
        assert forall|i: int, j: int| 0 <= i < j < n.len() implies n[i] < n[j] by {
            if j < p {
            } else if j == p {
            } else if i < p {
                assert(s[i] < k);
                assert(p < s.len() ==> s[p as int] > k);
                assert(n[j] == s[j - 1]);
                assert(s[p as int] <= s[j - 1]);
            } else if i == p {
                assert(n[j] == s[j - 1]);
                assert(s[p as int] > k);
                assert(s[p as int] <= s[j - 1]);
            } else {
                assert(n[i] == s[i - 1]);
                assert(n[j] == s[j - 1]);
            }
        }
        assert forall|x: PlayerID| n.to_set().contains(x) <==> s.to_set().insert(k).contains(x) by {
            if n.to_set().contains(x) {
                assert(n.contains(x));
                let i = choose|i: int| 0 <= i < n.len() && n[i] == x;
                if i < p {
                    assert(s[i] == x);
                    assert(s.contains(x));
                } else if i > p {
                    assert(s[i - 1] == x);
                    assert(s.contains(x));
                }
            }
            if s.to_set().insert(k).contains(x) {
                if x == k {
                    assert(n[p as int] == k);
                    assert(n.contains(x));
                } else {
                    assert(s.contains(x));
                    let i = choose|i: int| 0 <= i < s.len() && s[i] == x;
                    if i < p {
                        assert(n[i] == x);
                    } else {
                        assert(n[i + 1] == x);
                    }
                    assert(n.contains(x));
                }
            }
        }
        assert(n.to_set() =~= s.to_set().insert(k));
    }
}

/// The ids of the players of `players` whose pawn is placed (or, for
/// `placed` false, not placed yet), in increasing order.
pub(crate) fn sorted_ids_with_spawn(players: &HashMap<PlayerID, LobbyPlayer>, placed: bool) -> (r: Vec<PlayerID>)
    ensures
        increasing(r@),
        r@.to_set() == ids_with_spawn(players@, placed),
{
    let ghost all = vstd::std_specs::hash::spec_hash_map_iter(players).remaining();
    let mut ids: Vec<PlayerID> = Vec::new();
    assert(ids@.to_set() =~= Set::<PlayerID>::empty());
    for (k, v) in it: players.iter()
        invariant
            it.seq() == all,
            forall|j: int|
                0 <= j < all.len() ==> players@.contains_key(*all[j].0) && players@[*all[j].0]
                    == *all[j].1,
            increasing(ids@),
            ids@.to_set() == Set::new(
                |id: PlayerID|
                    exists|j: int|
                        0 <= j < it.index() && *all[j].0 == id && ((*all[j].1).spawn_position is Some)
                            == placed,
            ),
    {
        if v.spawn_position.is_some() == placed {
            insert_sorted(&mut ids, *k);
        }
        proof {
            let i = it.index();
            let upto_next = Set::new(
                |id: PlayerID|
                    exists|j: int|
                        0 <= j < i + 1 && *all[j].0 == id && ((*all[j].1).spawn_position is Some)
                            == placed,
            );
            let upto = Set::new(
                |id: PlayerID|
                    exists|j: int|
                        0 <= j < i && *all[j].0 == id && ((*all[j].1).spawn_position is Some) == placed,
            );
            assert(*all[i].0 == *k && *all[i].1 == *v);
            assert forall|id: PlayerID| #[trigger] ids@.to_set().contains(id) <==> upto_next.contains(id) by {
                if upto.contains(id) {
                    let j = choose|j: int|
                        0 <= j < i && *all[j].0 == id && ((*all[j].1).spawn_position is Some) == placed;
                    assert(0 <= j < i + 1 && *all[j].0 == id && ((*all[j].1).spawn_position is Some)
                        == placed);
                }
                if upto_next.contains(id) {
                    let j = choose|j: int|
                        0 <= j < i + 1 && *all[j].0 == id && ((*all[j].1).spawn_position is Some)
                            == placed;
                    if j < i {
                        assert(upto.contains(id));
                    }
                }
            }
            assert(ids@.to_set() =~= upto_next);
        }
    }
    proof {
        assert forall|id: PlayerID| #[trigger] ids@.to_set().contains(id) <==> ids_with_spawn(
            players@,
            placed,
        ).contains(id) by {
            if ids_with_spawn(players@, placed).contains(id) {
                assert(all.contains((&id, &players@[id])));
                let j = choose|j: int| 0 <= j < all.len() && all[j] == (&id, &players@[id]);
                assert(*all[j].0 == id && ((*all[j].1).spawn_position is Some) == placed);
            }
        }
        assert(ids@.to_set() =~= ids_with_spawn(players@, placed));
    }
    ids
}

/// The color in position `i` of [`lobby_colors`].
fn lobby_color(i: usize) -> (r: (u8, u8, u8))
    requires
        i < 8,
    ensures
        r == lobby_colors()[i as int],
{
    match i {
        0 => (220, 50, 47),
        1 => (133, 153, 0),
        2 => (38, 139, 210),
        3 => (181, 137, 0),
        4 => (211, 54, 130),
        5 => (42, 161, 152),
        6 => (203, 75, 22),
        _ => (108, 113, 196),
    }
}

/// Whether some player has color `c`.
fn color_in_use(players: &HashMap<PlayerID, LobbyPlayer>, c: (u8, u8, u8)) -> (r: bool)
    ensures
        r == color_used(players@, c),
{
    let ghost all = vstd::std_specs::hash::spec_hash_map_iter(players).remaining();
    let mut found = false;
    for (k, v) in it: players.iter()
        invariant
            it.seq() == all,
            forall|j: int|
                0 <= j < all.len() ==> players@.contains_key(*all[j].0) && players@[*all[j].0]
                    == *all[j].1,
            found ==> color_used(players@, c),
            !found ==> forall|j: int| 0 <= j < it.index() ==> (*all[j].1).color != c,
    {
        if v.color.0 == c.0 && v.color.1 == c.1 && v.color.2 == c.2 {
            found = true;
        }
    }
    proof {
        if !found {
            assert forall|id: PlayerID| #[trigger] players@.contains_key(id) implies players@[id].color
                != c by {
                assert(all.contains((&id, &players@[id])));
            }
        }
    }
    found
}

/// Whether a player other than `requester` has chosen `pos`.
fn taken_by_other(players: &HashMap<PlayerID, LobbyPlayer>, pos: PlayerPos, requester: PlayerID) -> (r:
    bool)
    ensures
        r == position_taken(players@, pos, requester),
{
    let ghost all = vstd::std_specs::hash::spec_hash_map_iter(players).remaining();
    let mut found = false;
    for (k, v) in it: players.iter()
        invariant
            it.seq() == all,
            forall|j: int|
                0 <= j < all.len() ==> players@.contains_key(*all[j].0) && players@[*all[j].0]
                    == *all[j].1,
            found ==> position_taken(players@, pos, requester),
            !found ==> forall|j: int|
                0 <= j < it.index() ==> !((*all[j].1).id != requester && (*all[j].1).spawn_position
                    == Some(pos)),
    {
        let here = match v.spawn_position {
            Some(sp) => sp == pos,
            None => false,
        };
        if v.id != requester && here {
            found = true;
        }
    }
    proof {
        if !found {
            assert forall|id: PlayerID| #[trigger] players@.contains_key(id) implies !(
            players@[id].id != requester && players@[id].spawn_position == Some(pos)) by {
                assert(all.contains((&id, &players@[id])));
            }
        }
    }
    found
}

/// Whether every player has chosen a spawn position.
fn every_player_placed(players: &HashMap<PlayerID, LobbyPlayer>) -> (r: bool)
    ensures
        r == all_placed(players@),
{
    let ghost all = vstd::std_specs::hash::spec_hash_map_iter(players).remaining();
    let mut ok = true;
    for (k, v) in it: players.iter()
        invariant
            it.seq() == all,
            forall|j: int|
                0 <= j < all.len() ==> players@.contains_key(*all[j].0) && players@[*all[j].0]
                    == *all[j].1,
            !ok ==> !all_placed(players@),
            ok ==> forall|j: int| 0 <= j < it.index() ==> (*all[j].1).spawn_position is Some,
    {
        if v.spawn_position.is_none() {
            ok = false;
        }
    }
    proof {
        if ok {
            assert forall|id: PlayerID| #[trigger] players@.contains_key(id) implies players@[id].spawn_position is Some by {
                assert(all.contains((&id, &players@[id])));
            }
        }
    }
    ok
}

impl Lobby {
    /// An empty private lobby for 8 players, not started.
    pub fn new(id: LobbyId, name: String) -> (r: Lobby)
        ensures
            r@ == (LobbyView {
                id,
                name,
                players: Map::empty(),
                started: false,
                max_players: 8,
                visibility: Visibility::Private,
            }),
    {
        Lobby {
            id,
            name,
            players: HashMap::new(),
            started: false,
            max_players: 8,
            visibility: Visibility::Private,
        }
    }

    /// A lobby named `name` whose creator, named `creator_name`, has joined
    /// as player 1 (and has the first color).
    pub fn new_with_creator(name: String, creator_name: String) -> (r: (Lobby, PlayerID))
        ensures
            r.1 == 1,
            r.0@ == lobby_after(
                LobbyView {
                    id: LobbyId(0),
                    name,
                    players: Map::empty(),
                    started: false,
                    max_players: 8,
                    visibility: Visibility::Private,
                },
                LobbyEvent::PlayerJoined { player_id: 1, player_name: creator_name },
            ).0,
            r.0@.players.contains_key(1),
            r.0@.players[1].color == lobby_colors()[0],
    {
        let mut lobby = Lobby::new(LobbyId(0), name);
        let ghost l0 = lobby@;
        proof {
            lobby_colors_first_is_free(l0.players);
        }
        let _ = lobby.handle_event(LobbyEvent::PlayerJoined { player_id: 1, player_name: creator_name });
        (lobby, 1)
    }

    /// Applies `event` (see [`lobby_after`]): a player joins and gets the
    /// first free color, a pawn is placed on the border, the game is
    /// started, or a player leaves. A refused event changes nothing.
    pub fn handle_event(&mut self, event: LobbyEvent) -> (r: Result<(), LobbyError>)
        ensures
            (final(self)@, r) == lobby_after(old(self)@, event),
    {
        let ghost l0 = self@;
        match event {
            LobbyEvent::PlayerJoined { player_id, player_name } => {
                assert(self.players.len() == l0.players.len());
                if self.players.len() >= self.max_players {
                    return Err(LobbyError::LobbyFull);
                }
                let color = match self.assign_next_color() {
                    Ok(c) => c,
                    Err(e) => {
                        return Err(e);
                    },
                };
                let lobby_player = LobbyPlayer {
                    id: player_id,
                    name: player_name,
                    color,
                    spawn_position: None,
                };
                self.players.insert(player_id, lobby_player);
                assert(self@ == (LobbyView {
                    players: l0.players.insert(
                        player_id,
                        LobbyPlayer { id: player_id, name: player_name, color, spawn_position: None },
                    ),
                    ..l0
                }));
                Ok(())
            },
            LobbyEvent::PawnPlaced { player_id, position } => {
                if !self.is_valid_edge_position(&position) {
                    return Err(LobbyError::InvalidSpawnPosition);
                }
                if self.is_position_taken(&position, player_id) {
                    return Err(LobbyError::PositionTaken);
                }
                match self.players.remove(&player_id) {
                    Some(mut player) => {
                        player.spawn_position = Some(position);
                        self.players.insert(player_id, player);
                        assert(self@.players =~= l0.players.insert(
                            player_id,
                            LobbyPlayer { spawn_position: Some(position), ..l0.players[player_id] },
                        ));
                        Ok(())
                    },
                    None => {
                        assert(self@.players =~= l0.players);
                        Err(LobbyError::PlayerNotFound)
                    },
                }
            },
            LobbyEvent::StartGame => {
                if !self.can_start() {
                    return Err(LobbyError::NotReadyToStart);
                }
                self.started = true;
                Ok(())
            },
            LobbyEvent::PlayerLeft { player_id } => {
                match self.players.remove(&player_id) {
                    Some(_) => Ok(()),
                    None => {
                        assert(self@.players =~= l0.players);
                        Err(LobbyError::PlayerNotFound)
                    },
                }
            },
        }
    }

    /// At least two players, every one of them placed.
    pub fn can_start(&self) -> (r: bool)
        ensures
            r == ready_to_start(self@.players),
    {
        self.players.len() >= 2 && every_player_placed(&self.players)
    }

    /// The game of the placed players, once the lobby has started (see
    /// [`Game::new`]): seated lowest id first, so that the lowest id moves
    /// first, each at its spawn position and in the color the lobby gave it.
    pub fn to_game(&self) -> (r: Result<Game, LobbyError>)
        ensures
            !self.started ==> r == Err::<Game, LobbyError>(LobbyError::GameNotStarted),
            self.started ==> exists|ks: Seq<PlayerID>|
                #[trigger] placed_order(self@.players, ks) && increasing(ks) && (ks.len() < 2
                    ==> r == Err::<Game, LobbyError>(LobbyError::NotEnoughPlayers)) && (ks.len() >= 2
                    ==> (r matches Ok(g) && exists|d: Seq<Tile>|
                    d.len() == 35 && d.to_multiset() == crate::deck::standard_tiles().to_multiset()
                        && #[trigger] new_game(seated(self@.players, ks), d) == g@)),
            self.started && ready_to_start(self@.players) ==> r is Ok,
    {
        if !self.started {
            return Err(LobbyError::GameNotStarted);
        }
        let ghost m = self.players@;
        let ids = sorted_ids_with_spawn(&self.players, true);
        let ghost ks = ids@;
        proof {
            assert forall|i: int, j: int| 0 <= i < ks.len() && 0 <= j < ks.len() && i != j implies ks[i]
                != ks[j] by {
                if i < j {
                } else {
                }
            }
            assert forall|i: int| 0 <= i < ks.len() implies m.contains_key(#[trigger] ks[i])
                && m[ks[i]].spawn_position is Some by {
                assert(ks.to_set().contains(ks[i]));
            }
            assert forall|k: PlayerID| #[trigger] m.contains_key(k) && m[k].spawn_position is Some implies ks.contains(k) by {
                assert(ids_with_spawn(m, true).contains(k));
                assert(ks.to_set().contains(k));
            }
            assert(placed_order(m, ks));
            if ready_to_start(m) {
                lemma_placed_order_len(m, ks);
            }
        }
        let mut players: Vec<Player> = Vec::new();
        let mut i: usize = 0;
        while i < ids.len()
            invariant
                m == self.players@,
                ks == ids@,
                placed_order(m, ks),
                i <= ids@.len(),
                players@ == seated(m, ks.take(i as int)),
            decreases ids@.len() - i,
        {
            let k = ids[i];
            assert(m.contains_key(ks[i as int]));
            let lp = self.players.get(&k).unwrap();
            let pos = lp.spawn_position.unwrap();
            players.push(Player { id: lp.id, pos, alive: true, has_moved: false, color: lp.color });
            i = i + 1;
            assert(players@ =~= seated(m, ks.take(i as int)));
        }
        assert(ks.take(ks.len() as int) =~= ks);
        assert(players@.len() == ks.len());
        assert(placed_order(self@.players, ks) && increasing(ks));
        if players.len() < 2 {
            return Err(LobbyError::NotEnoughPlayers);
        }
        let ghost pv = players@;
        let g = Game::new(players);
        proof {
            let d = choose|d: Seq<Tile>|
                d.len() == 35 && d.to_multiset() == crate::deck::standard_tiles().to_multiset()
                    && g@ == new_game(pv, d);
            assert(new_game(seated(self@.players, ks), d) == g@);
        }
        Ok(g)
    }

    /// Whether `pos` is in a cell on the border of the board.
    pub fn is_valid_edge_position(&self, pos: &PlayerPos) -> (r: bool)
        ensures
            r == is_edge_spawn(*pos),
    {
        let CellCoord { row, col } = pos.cell;
        (row == 0 || row == 5 || col == 0 || col == 5) && row <= 5 && col <= 5
    }

    /// Whether a player other than `requesting_player` has chosen `pos`.
    fn is_position_taken(&self, pos: &PlayerPos, requesting_player: PlayerID) -> (r: bool)
        ensures
            r == position_taken(self@.players, *pos, requesting_player),
    {
        taken_by_other(&self.players, *pos, requesting_player)
    }

    /// The first color of the palette that no player has.
    fn assign_next_color(&self) -> (r: Result<(u8, u8, u8), LobbyError>)
        ensures
            match next_color(self@.players) {
                Some(c) => r == Ok::<(u8, u8, u8), LobbyError>(c),
                None => r == Err::<(u8, u8, u8), LobbyError>(LobbyError::NoAvailableColors),
            },
    {
        let mut i: usize = 0;
        while i < 8
            invariant
                i <= 8,
                free_color_from(self@.players, 0) == free_color_from(self@.players, i as int),
            decreases 8 - i,
        {
            let c = lobby_color(i);
            if !color_in_use(&self.players, c) {
                return Ok(c);
            }
            i = i + 1;
        }
        Err(LobbyError::NoAvailableColors)
    }
}

/// A lobby in order: each player is filed under its own id, players have
/// distinct colors from the palette, and spawn positions are on the border
/// and distinct.
pub open spec fn lobby_wf(l: LobbyView) -> bool {
    &&& forall|k: PlayerID| #[trigger] l.players.contains_key(k) ==> l.players[k].id == k
    &&& forall|k: PlayerID| #[trigger] l.players.contains_key(k) ==> lobby_colors().contains(l.players[k].color)
    &&& forall|a: PlayerID, b: PlayerID|
        #[trigger] l.players.contains_key(a) && #[trigger] l.players.contains_key(b) && a != b
            ==> l.players[a].color != l.players[b].color
    &&& forall|k: PlayerID|
        #[trigger] l.players.contains_key(k) && l.players[k].spawn_position is Some
            ==> is_edge_spawn(l.players[k].spawn_position.unwrap())
    &&& forall|a: PlayerID, b: PlayerID|
        #[trigger] l.players.contains_key(a) && #[trigger] l.players.contains_key(b) && a != b
            && l.players[a].spawn_position is Some ==> l.players[a].spawn_position
            != l.players[b].spawn_position
}

proof fn lemma_free_color(players: Map<PlayerID, LobbyPlayer>, i: int)
    requires
        0 <= i,
    ensures
        free_color_from(players, i) matches Some(c) ==> !color_used(players, c)
            && lobby_colors().contains(c),
    decreases 8 - i,
{
    if 0 <= i < 8 && color_used(players, lobby_colors()[i]) {
        lemma_free_color(players, i + 1);
    }
}

/// Every event keeps a lobby in order (see [`lobby_wf`]): colors stay
/// distinct, spawn positions stay on the border and distinct.
pub proof fn law_lobby_event_keeps_wf(l: LobbyView, e: LobbyEvent)
    requires
        lobby_wf(l),
    ensures
        lobby_wf(lobby_after(l, e).0),
{
    lemma_free_color(l.players, 0);
    let l2 = lobby_after(l, e).0;
    match e {
        LobbyEvent::PlayerJoined { player_id, player_name } => {
            if l2 != l {
                let c = next_color(l.players).unwrap();
                assert forall|a: PlayerID, b: PlayerID|
                    #[trigger] l2.players.contains_key(a) && #[trigger] l2.players.contains_key(b)
                        && a != b implies l2.players[a].color != l2.players[b].color by {
                    if a == player_id {
                        assert(l.players.contains_key(b));
                    } else if b == player_id {
                        assert(l.players.contains_key(a));
                    }
                }
            }
        },
        LobbyEvent::PawnPlaced { player_id, position } => {
            if l2 != l {
                assert forall|a: PlayerID, b: PlayerID|
                    #[trigger] l2.players.contains_key(a) && #[trigger] l2.players.contains_key(b)
                        && a != b && l2.players[a].spawn_position is Some implies l2.players[a].spawn_position
                    != l2.players[b].spawn_position by {
                    if a == player_id {
                        assert(l.players[b].id == b);
                    } else if b == player_id {
                        assert(l.players[a].id == a);
                    }
                }
            }
        },
        _ => {},
    }
}

/// An event the lobby refuses leaves it exactly as it was.
pub proof fn law_refused_event_changes_nothing(l: LobbyView, e: LobbyEvent)
    requires
        lobby_after(l, e).1 is Err,
    ensures
        lobby_after(l, e).0 == l,
{
}

/// A lobby starts only when at least two players are all placed, and once
/// started no event stops it.
pub proof fn law_start_only_when_ready(l: LobbyView, e: LobbyEvent)
    ensures
        lobby_after(l, e).0.started && !l.started ==> ready_to_start(l.players),
        l.started ==> lobby_after(l, e).0.started,
{
}

/// A new lobby is in order.
pub proof fn law_new_lobby_wf(id: LobbyId, name: String)
    ensures
        lobby_wf(LobbyView {
            id,
            name,
            players: Map::empty(),
            started: false,
            max_players: 8,
            visibility: Visibility::Private,
        }),
{
}

/// When every player is placed, an order of the placed players lists them
/// all.
pub proof fn lemma_placed_order_len(players: Map<PlayerID, LobbyPlayer>, ks: Seq<PlayerID>)
    requires
        placed_order(players, ks),
        all_placed(players),
    ensures
        ks.len() == players.len(),
{
    assert(ks.to_set() =~= players.dom()) by {
        assert forall|k: PlayerID| ks.to_set().contains(k) implies players.dom().contains(k) by {
            let i = ks.index_of(k);
            assert(players.contains_key(ks[i]));
        }
    }
    ks.unique_seq_to_set();
}

/// `k` is the largest player id of the lobby.
pub open spec fn is_highest_id(players: Map<PlayerID, LobbyPlayer>, k: PlayerID) -> bool {
    players.contains_key(k) && forall|k2: PlayerID| #[trigger] players.contains_key(k2) ==> k2 <= k
}

/// The largest player id of the lobby, 0 when it is empty.
pub open spec fn highest_id(players: Map<PlayerID, LobbyPlayer>) -> PlayerID {
    if exists|k: PlayerID| is_highest_id(players, k) {
        choose|k: PlayerID| is_highest_id(players, k)
    } else {
        0
    }
}

/// The largest player id in `players`, 0 when there is none.
pub fn highest_player_id(players: &HashMap<PlayerID, LobbyPlayer>) -> (r: PlayerID)
    ensures
        r == highest_id(players@),
{
    let ghost all = vstd::std_specs::hash::spec_hash_map_iter(players).remaining();
    let mut best: Option<PlayerID> = None;
    for (k, v) in it: players.iter()
        invariant
            it.seq() == all,
            forall|j: int|
                0 <= j < all.len() ==> players@.contains_key(*all[j].0) && players@[*all[j].0]
                    == *all[j].1,
            best is None ==> it.index() == 0,
            best matches Some(b) ==> players@.contains_key(b) && forall|j: int|
                0 <= j < it.index() ==> *all[j].0 <= b,
    {
        best = match best {
            None => Some(*k),
            Some(b) => if *k > b {
                Some(*k)
            } else {
                Some(b)
            },
        };
    }
    match best {
        None => {
            proof {
                assert forall|k: PlayerID| !is_highest_id(players@, k) by {
                    if players@.contains_key(k) {
                        assert(all.contains((&k, &players@[k])));
                    }
                }
            }
            0
        },
        Some(b) => {
            proof {
                assert forall|k2: PlayerID| #[trigger] players@.contains_key(k2) implies k2 <= b by {
                    assert(all.contains((&k2, &players@[k2])));
                }
                assert(is_highest_id(players@, b));
                let c = choose|k: PlayerID| is_highest_id(players@, k);
                assert(c <= b && b <= c);
            }
            b
        },
    }
}

/// In an empty lobby the first palette color is free.
pub proof fn lobby_colors_first_is_free(players: Map<PlayerID, LobbyPlayer>)
    requires
        players.len() == 0,
        players.dom().finite(),
    ensures
        next_color(players) == Some(lobby_colors()[0]),
{
    assert(players.dom() =~= Set::empty());
}

/// A join is accepted only below the lobby's limit, so joins never take a
/// lobby past it.
pub proof fn law_join_respects_capacity(l: LobbyView, player_id: PlayerID, player_name: String)
    requires
        l.players.dom().finite(),
        lobby_after(l, LobbyEvent::PlayerJoined { player_id, player_name }).1 is Ok,
    ensures
        lobby_after(l, LobbyEvent::PlayerJoined { player_id, player_name }).0.players.len()
            <= l.max_players,
{
    let l2 = lobby_after(l, LobbyEvent::PlayerJoined { player_id, player_name }).0;
    assert(l2.players.dom() == l.players.dom().insert(player_id));
}

/// Whether `b` is the byte of an ASCII letter.
pub open spec fn ascii_letter(b: u8) -> bool {
    (65 <= b <= 90) || (97 <= b <= 122)
}

/// The capital form of an ASCII letter; other bytes are kept.
pub open spec fn ascii_upper(b: u8) -> u8 {
    if 97 <= b <= 122 {
        (b - 32) as u8
    } else {
        b
    }
}

/// The lobby id that `b` names: four ASCII letters, in capitals (the form in
/// which room codes are handed out); `None` for anything else.
pub open spec fn lobby_id_of(b: Seq<u8>) -> Option<Seq<char>> {
    if b.len() == 4 && forall|i: int| 0 <= i < 4 ==> ascii_letter(#[trigger] b[i]) {
        Some(Seq::new(4, |i: int| ascii_upper(b[i]) as char))
    } else {
        None
    }
}

/// The lobby id named by the bytes of `b` from `from` to `to`.
pub(crate) fn lobby_id_in(b: &[u8], from: usize, to: usize) -> (r: Option<String>)
    requires
        from <= to <= b@.len(),
    ensures
        match lobby_id_of(b@.subrange(from as int, to as int)) {
            Some(v) => r matches Some(s) && s@ == v,
            None => r is None,
        },
{
    let ghost w = b@.subrange(from as int, to as int);
    if to - from != 4 {
        return None;
    }
    let mut code = String::new();
    let mut i: usize = from;
    while i < to
        invariant
            from <= i <= to <= b@.len(),
            to - from == 4,
            w == b@.subrange(from as int, to as int),
            code@.len() == i - from,
            forall|k: int| 0 <= k < i - from ==> ascii_letter(#[trigger] w[k]),
            forall|k: int| 0 <= k < i - from ==> #[trigger] code@[k] == ascii_upper(w[k]) as char,
        decreases to - i,
    {
        let c = b[i];
        if 65 <= c && c <= 90 {
            append_char(&mut code, c as char);
        } else if 97 <= c && c <= 122 {
            append_char(&mut code, (c - 32) as char);
        } else {
            assert(!ascii_letter(w[i - from]));
            return None;
        }
        i = i + 1;
    }
    proof {
        if let Some(v) = lobby_id_of(w) {
            assert(code@ =~= v);
        }
    }
    Some(code)
}

/// Reads a lobby id typed or linked by a player: four ASCII letters, in
/// either case, give the id in capitals; anything else gives `None`.
pub fn normalize_lobby_id(candidate: &str) -> (r: Option<String>)
    ensures
        match lobby_id_of(candidate.spec_bytes()) {
            Some(v) => r matches Some(s) && s@ == v,
            None => r is None,
        },
{
    let b = candidate.as_bytes();
    proof {
        assert(b@.subrange(0, b@.len() as int) =~= b@);
    }
    lobby_id_in(b, 0, b.len())
}

/// A started game has one seat order: the placed players by increasing id
/// (see [`Lobby::to_game`]), so the lowest id moves first.
pub proof fn law_one_seat_order(players: Map<PlayerID, LobbyPlayer>, ks: Seq<PlayerID>, js: Seq<PlayerID>)
    requires
        placed_order(players, ks),
        placed_order(players, js),
        increasing(ks),
        increasing(js),
    ensures
        ks == js,
{
    assert forall|k: PlayerID| ks.to_set().contains(k) <==> js.to_set().contains(k) by {
        if ks.to_set().contains(k) {
            assert(ks.contains(k));
            let i = choose|i: int| 0 <= i < ks.len() && ks[i] == k;
            assert(players.contains_key(ks[i]));
            assert(js.contains(k));
        }
        if js.to_set().contains(k) {
            assert(js.contains(k));
            let i = choose|i: int| 0 <= i < js.len() && js[i] == k;
            assert(players.contains_key(js[i]));
            assert(ks.contains(k));
        }
    }
    assert(ks.to_set() =~= js.to_set());
    lemma_increasing_unique(ks, js);
}

/// Placing a pawn on a border position is refused as taken exactly when
/// another player of the lobby has chosen that very position, the same cell
/// and the same entry point: another entry point of the same border cell
/// is another starting position. A player of the lobby whose placement is
/// not refused as taken gets its pawn there.
pub proof fn law_taken_means_same_position(l: LobbyView, player_id: PlayerID, position: PlayerPos)
    requires
        is_edge_spawn(position),
    ensures
        (lobby_after(l, LobbyEvent::PawnPlaced { player_id, position }).1 == Err::<(), LobbyError>(
            LobbyError::PositionTaken,
        )) <==> exists|id: PlayerID|
            #[trigger] l.players.contains_key(id) && l.players[id].id != player_id
                && l.players[id].spawn_position == Some(position),
        l.players.contains_key(player_id) && !(exists|id: PlayerID|
            #[trigger] l.players.contains_key(id) && l.players[id].id != player_id
                && l.players[id].spawn_position == Some(position)) ==> {
            let (l2, r) = lobby_after(l, LobbyEvent::PawnPlaced { player_id, position });
            &&& r is Ok
            &&& l2.players.contains_key(player_id)
            &&& l2.players[player_id].spawn_position == Some(position)
        },
{
}

} // verus!
