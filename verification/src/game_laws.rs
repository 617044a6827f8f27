//! Laws of the game rules: what every move and every elimination keeps,
//! and what a refused move leaves behind; among them, that every pawn in
//! play waits where a path from the board's border led it, so that a tile
//! placed in its cell sends it along a path that stops.
use vstd::prelude::*;

use crate::game::lemma_first_alive;
use crate::board::{
    path_end, path_ends, spec_on_edge, tile_endpoints_in_range, tile_rotatable, CellCoord, Move, Player,
    PlayerID, PlayerPos, Tile, MAX,
};
use crate::path_laws::{
    board_proper, from_border, goes_on, law_placed_tile_path_ends, lemma_from_border_follow,
    lemma_from_border_push, pos_after, tile_pairs,
};
use crate::game_model::{
    apply_move, first_same_tile_from, close_stats_upto, complete_turn, count_survivors_upto, eliminate_player,
    fill_hands, fill_hands_upto, game_wf, perform_move, player_step, players_step_upto,
    record_tile_trail, refill, tiles_rotatable, GameView, MoveError, TurnOutcome, deal_upto,
    start_stats_upto, new_game, stats_fit, initial_stats, replay_upto, replay_step,
    add_rotations, placements_upto, playable_moves, survivable_moves, first_alive, can_perform,
    outcome_eliminated, survives,
};

verus! {

/// The seats, the hands and the deck are in order: every seated player has a
/// hand, and every tile in the deck and in the hands can be rotated.
pub open spec fn seats_ok(g: GameView) -> bool {
    &&& forall|i: int| 0 <= i < g.players.len() ==> g.hands.contains_key(#[trigger] g.players[i].id)
    &&& tiles_rotatable(g.deck)
    &&& forall|id: PlayerID| #[trigger] g.hands.contains_key(id) ==> tiles_rotatable(g.hands[id])
}

/// The same number of seats, each with the same player id.
pub open spec fn same_seats(a: Seq<Player>, b: Seq<Player>) -> bool {
    &&& a.len() == b.len()
    &&& forall|i: int| 0 <= i < a.len() ==> (#[trigger] a[i]).id == b[i].id
}

/// Recording a tile trail changes nothing but the tile trails.
pub broadcast proof fn lemma_record_tile_trail_fields(g: GameView, id: PlayerID, from: PlayerPos)
    ensures
        #[trigger] record_tile_trail(g, id, from) == (GameView {
            tile_trails: record_tile_trail(g, id, from).tile_trails,
            ..g
        }),
{
}

proof fn lemma_rotatable_concat(a: Seq<Tile>, b: Seq<Tile>)
    requires
        tiles_rotatable(a),
        tiles_rotatable(b),
    ensures
        tiles_rotatable(a + b),
{
    assert forall|i: int| 0 <= i < (a + b).len() implies tile_rotatable(#[trigger] (a + b)[i], true) by {
        if i < a.len() {
            assert((a + b)[i] == a[i]);
        } else {
            assert((a + b)[i] == b[i - a.len()]);
        }
    }
}

proof fn lemma_rotatable_remove(h: Seq<Tile>, k: int)
    requires
        tiles_rotatable(h),
        0 <= k < h.len(),
    ensures
        tiles_rotatable(h.remove(k)),
{
    let r = h.remove(k);
    assert forall|i: int| 0 <= i < r.len() implies tile_rotatable(#[trigger] r[i], true) by {
        if i < k {
            assert(r[i] == h[i]);
        } else {
            assert(r[i] == h[i + 1]);
        }
    }
}

proof fn lemma_refill_rotatable(h: Seq<Tile>, d: Seq<Tile>)
    requires
        tiles_rotatable(h),
        tiles_rotatable(d),
    ensures
        tiles_rotatable(refill(h, d).0),
        tiles_rotatable(refill(h, d).1),
    decreases d.len(),
{
    if h.len() < 3 && d.len() > 0 {
        let h2 = h.push(d.last());
        let d2 = d.drop_last();
        assert(tile_rotatable(d[d.len() - 1], true));
        assert forall|i: int| 0 <= i < h2.len() implies tile_rotatable(#[trigger] h2[i], true) by {
            if i < h.len() {
                assert(h2[i] == h[i]);
            }
        }
        assert forall|i: int| 0 <= i < d2.len() implies tile_rotatable(#[trigger] d2[i], true) by {
            assert(d2[i] == d[i]);
        }
        lemma_refill_rotatable(h2, d2);
    }
}

/// Where `first_same_tile_from` points.
proof fn lemma_first_same_tile(hand: Seq<Tile>, t: Tile, i: int)
    requires
        0 <= i <= hand.len(),
    ensures
        i <= first_same_tile_from(hand, t, i) <= hand.len(),
    decreases hand.len() - i,
{
    if i < hand.len() && !crate::board::same_tile(hand[i], t) {
        lemma_first_same_tile(hand, t, i + 1);
    }
}

/// One player's step keeps the seats and the tiles in order.
proof fn lemma_player_step(g: GameView, i: int, cell: CellCoord)
    requires
        seats_ok(g),
        0 <= i < g.players.len(),
        player_step(g, i, cell) is Some,
    ensures
        seats_ok(player_step(g, i, cell).unwrap().0),
        same_seats(player_step(g, i, cell).unwrap().0.players, g.players),
{
    broadcast use lemma_record_tile_trail_fields;

    let g2 = player_step(g, i, cell).unwrap().0;
    let p = g.players[i];
    assert(g.hands.contains_key(p.id));
    if p.alive && p.pos.cell == cell && g2.deck != g.deck {
        lemma_rotatable_concat(g.deck, g.hands[p.id]);
    }
    assert forall|j: int| 0 <= j < g2.players.len() implies g2.hands.contains_key(
        #[trigger] g2.players[j].id,
    ) by {
        assert(g.hands.contains_key(g.players[j].id));
    }
    assert forall|id: PlayerID| #[trigger] g2.hands.contains_key(id) implies tiles_rotatable(
        g2.hands[id],
    ) by {
        if g2.hands[id] != g.hands[id] {
            assert(g2.hands[id] =~= Seq::<Tile>::empty());
        }
    }
}

/// The steps of the players after a placement keep the seats and the tiles
/// in order.
proof fn lemma_players_step(g: GameView, cell: CellCoord, n: int)
    requires
        seats_ok(g),
        0 <= n <= g.players.len(),
        players_step_upto(g, cell, n) is Some,
    ensures
        seats_ok(players_step_upto(g, cell, n).unwrap().0),
        same_seats(players_step_upto(g, cell, n).unwrap().0.players, g.players),
    decreases n,
{
    if n > 0 {
        lemma_players_step(g, cell, n - 1);
        let g1 = players_step_upto(g, cell, n - 1).unwrap().0;
        lemma_player_step(g1, n - 1, cell);
    }
}

/// Refilling hands keeps the seats and the tiles in order.
proof fn lemma_fill_hands(g: GameView, n: int)
    requires
        seats_ok(g),
    ensures
        seats_ok(fill_hands_upto(g, n)),
        fill_hands_upto(g, n).players == g.players,
        fill_hands_upto(g, n).stats == g.stats,
    decreases n,
{
    if n > 0 {
        lemma_fill_hands(g, n - 1);
        let g1 = fill_hands_upto(g, n - 1);
        let p = g1.players[n - 1];
        if p.alive && g1.hands.contains_key(p.id) {
            lemma_refill_rotatable(g1.hands[p.id], g1.deck);
        }
    }
}

/// Closing statistics changes only statistics.
proof fn lemma_close_stats(g: GameView, elim: Seq<PlayerID>, turn: int, n: int)
    ensures
        close_stats_upto(g, elim, turn, n) == (GameView {
            stats: close_stats_upto(g, elim, turn, n).stats,
            ..g
        }),
    decreases n,
{
    if n > 0 {
        lemma_close_stats(g, elim, turn, n - 1);
    }
}

/// Counting survivors changes only statistics.
proof fn lemma_count_survivors(g: GameView, n: int)
    ensures
        count_survivors_upto(g, n) == (GameView { stats: count_survivors_upto(g, n).stats, ..g }),
    decreases n,
{
    if n > 0 {
        lemma_count_survivors(g, n - 1);
    }
}

/// Completing a turn changes only statistics and whose turn it is.
proof fn lemma_complete_turn(g: GameView, elim: Seq<PlayerID>)
    ensures
        ({
            let g2 = complete_turn(g, elim).0;
            g2 == GameView { stats: g2.stats, current_player_id: g2.current_player_id, ..g }
        }),
{
    let turn = g.history.len() as int;
    lemma_close_stats(g, elim, turn, elim.len() as int);
    let g1 = close_stats_upto(g, elim, turn, elim.len() as int);
    lemma_count_survivors(g1, g1.players.len() as int);
}

/// A played move keeps a game well formed.
pub proof fn law_apply_move_keeps_wf(g: GameView, mov: Move)
    requires
        game_wf(g),
        apply_move(g, mov) is Some,
    ensures
        game_wf(apply_move(g, mov).unwrap().0),
{
    let pid = mov.player_id;
    let g5 = apply_move(g, mov).unwrap().0;
    let k = first_same_tile_from(g.hands[pid], mov.tile, 0);
    let i = crate::game_model::first_alive(g.players, pid);
    lemma_first_same_tile(g.hands[pid], mov.tile, 0);
    if pid == g.current_player_id && i < g.players.len() && g.players[i].pos.cell == mov.cell
        && crate::board::tile_at(g.history, mov.cell) is None && k < g.hands[pid].len() {
        lemma_rotatable_remove(g.hands[pid], k);
        let stats1 = if g.stats.contains_key(pid) {
            g.stats.insert(
                pid,
                crate::game_model::StatsView {
                    tiles_placed: g.stats[pid].tiles_placed + 1,
                    ..g.stats[pid]
                },
            )
        } else {
            g.stats
        };
        let g1 = GameView {
            hands: g.hands.insert(pid, g.hands[pid].remove(k)),
            stats: stats1,
            history: g.history.push(mov),
            ..g
        };
        assert(seats_ok(g1));
        lemma_players_step(g1, mov.cell, g1.players.len() as int);
        let (g2, elim) = players_step_upto(g1, mov.cell, g1.players.len() as int).unwrap();
        let credited = elim.len() > 0 && g2.stats.contains_key(pid);
        let g3 = if credited {
            GameView {
                stats: g2.stats.insert(
                    pid,
                    crate::game_model::StatsView {
                        players_eliminated: g2.stats[pid].players_eliminated + elim.len()
                            - crate::game_model::occurrences(elim, pid),
                        ..g2.stats[pid]
                    },
                ),
                ..g2
            }
        } else {
            g2
        };
        assert(seats_ok(g3));
        lemma_fill_hands(g3, g3.players.len() as int);
        let g4 = fill_hands(g3);
        lemma_complete_turn(g4, elim);
        assert(g5 == complete_turn(g4, elim).0);
        assert(seats_ok(g5));
    }
}

/// A move refused by the rules leaves the game exactly as it was.
pub proof fn law_refused_move_changes_nothing(g: GameView, mov: Move)
    requires
        perform_move(g, mov) matches Some((_, Err(_))),
    ensures
        perform_move(g, mov).unwrap().0 == g,
{
}

/// A move played under the forced-suicide rule keeps a game well formed,
/// whether it is accepted or refused.
pub proof fn law_perform_move_keeps_wf(g: GameView, mov: Move)
    requires
        game_wf(g),
        perform_move(g, mov) is Some,
    ensures
        game_wf(perform_move(g, mov).unwrap().0),
{
    if perform_move(g, mov).unwrap().0 != g {
        law_apply_move_keeps_wf(g, mov);
    }
}

/// The lengths of the history and of the hands fit in a `usize`, as those
/// of any game held in memory do.
pub open spec fn lengths_fit(g: GameView) -> bool {
    &&& g.history.len() <= usize::MAX
    &&& forall|id: PlayerID| #[trigger] g.hands.contains_key(id) ==> g.hands[id].len() <= usize::MAX
}

/// Removing a player from play keeps a game well formed.
pub proof fn law_eliminate_player_keeps_wf(g: GameView, pid: PlayerID)
    requires
        game_wf(g),
        lengths_fit(g),
    ensures
        game_wf(eliminate_player(g, pid).0),
{
    let g4 = eliminate_player(g, pid).0;
    lemma_first_alive(g.players, pid, 0);
    if g.hands.contains_key(pid) {
        lemma_rotatable_concat(g.deck, g.hands[pid]);
    }
    assert forall|j: int| 0 <= j < g4.players.len() implies g4.hands.contains_key(
        #[trigger] g4.players[j].id,
    ) by {
        assert(g4.players[j].id == g.players[j].id);
        assert(g.hands.contains_key(g.players[j].id));
    }
    assert forall|id: PlayerID| #[trigger] g4.hands.contains_key(id) implies tiles_rotatable(
        g4.hands[id],
    ) by {
        if id == pid && crate::game_model::first_alive(g.players, pid) < g.players.len() {
            assert(g4.hands[id] =~= Seq::<Tile>::empty());
        }
    }
    if g.hands.contains_key(pid) {
        assert(g.hands[pid].len() <= usize::MAX);
    }
}

/// A tile whose endpoints are entry points can be rotated.
pub proof fn lemma_in_range_rotatable(t: Tile)
    requires
        tile_endpoints_in_range(t),
    ensures
        tile_rotatable(t, true),
{
    assert forall|i: int| 0 <= i < 4 implies crate::board::seg_rotatable(
        #[trigger] t.segments[i],
        true,
    ) by {
        assert(t.segments[i].a < 8 && t.segments[i].b < 8);
    }
}

proof fn lemma_rotatable_subrange(s: Seq<Tile>, a: int, b: int)
    requires
        tiles_rotatable(s),
        0 <= a <= b <= s.len(),
    ensures
        tiles_rotatable(s.subrange(a, b)),
{
    assert forall|i: int| 0 <= i < b - a implies tile_rotatable(#[trigger] s.subrange(a, b)[i], true) by {
        assert(s.subrange(a, b)[i] == s[a + i]);
    }
}

/// Dealing keeps the tiles rotatable and gives each dealt player a hand.
proof fn lemma_deal(players: Seq<Player>, deck: Seq<Tile>, n: int)
    requires
        tiles_rotatable(deck),
        0 <= n <= players.len(),
    ensures
        tiles_rotatable(deal_upto(players, deck, n).1),
        forall|id: PlayerID| #[trigger] deal_upto(players, deck, n).0.contains_key(id)
            ==> tiles_rotatable(deal_upto(players, deck, n).0[id]),
        forall|j: int| 0 <= j < n ==> deal_upto(players, deck, n).0.contains_key(#[trigger] players[j].id),
    decreases n,
{
    if n > 0 {
        lemma_deal(players, deck, n - 1);
        let (m, d) = deal_upto(players, deck, n - 1);
        let k = if 3 <= d.len() {
            d.len() - 3
        } else {
            0
        };
        lemma_rotatable_subrange(d, k, d.len() as int);
        lemma_rotatable_subrange(d, 0, k);
    }
}

/// The starting statistics fit.
proof fn lemma_start_stats(players: Seq<Player>, n: int)
    ensures
        forall|id: PlayerID| #[trigger] start_stats_upto(players, n).contains_key(id)
            ==> stats_fit(start_stats_upto(players, n)[id]),
    decreases n,
{
    if n > 0 {
        lemma_start_stats(players, n - 1);
        let s = initial_stats(players[n - 1]);
        assert(stats_fit(s));
        let m = start_stats_upto(players, n);
        assert forall|id: PlayerID| #[trigger] m.contains_key(id) implies stats_fit(m[id]) by {
            if id != players[n - 1].id {
                assert(start_stats_upto(players, n - 1).contains_key(id));
            }
        }
    }
}

/// A new game dealt from a deck of rotatable tiles is well formed, when its
/// seats can be counted without overflow.
pub proof fn law_new_game_wf(players: Seq<Player>, deck: Seq<Tile>)
    requires
        tiles_rotatable(deck),
        players.len() <= usize::MAX / 2,
    ensures
        game_wf(new_game(players, deck)),
{
    lemma_deal(players, deck, players.len() as int);
    lemma_start_stats(players, players.len() as int);
}

/// A replay that can be played to the end can be played to every earlier
/// move.
pub proof fn lemma_replay_prefix(g: GameView, moves: Seq<Move>, i: int, n: int)
    requires
        0 <= i <= n,
        replay_upto(g, moves, n) is Some,
    ensures
        replay_upto(g, moves, i) is Some,
        replay_upto(g, moves, i) matches Some(Err(e)) ==> replay_upto(g, moves, n) == Some(
            Err::<GameView, MoveError>(e),
        ),
    decreases n - i,
{
    if i < n {
        lemma_replay_prefix(g, moves, i, n - 1);
        if replay_upto(g, moves, n - 1) is None {
            assert(replay_upto(g, moves, n) is None);
        }
    }
}

/// Redacting a game twice for the same viewer is redacting it once.
pub proof fn law_redaction_idempotent(g: GameView, viewer: Option<PlayerID>)
    ensures
        crate::game_model::redacted(crate::game_model::redacted(g, viewer), viewer)
            == crate::game_model::redacted(g, viewer),
{
    let r = crate::game_model::redacted(g, viewer);
    assert(crate::game_model::redacted(r, viewer).hands =~= r.hands);
}

/// Simulating a move reports exactly the eliminations of playing it: a move
/// the forced-suicide rule accepts eliminates whom its simulation says.
pub proof fn law_simulation_agrees_with_play(g: GameView, mov: Move)
    requires
        perform_move(g, mov) matches Some((_, Ok(_))),
    ensures
        perform_move(g, mov) matches Some((_, Ok(o))) && crate::game_model::move_eliminates(g, mov)
            == crate::game_model::outcome_eliminated(o),
        perform_move(g, mov) == apply_move(g, mov),
{
}

proof fn lemma_next_alive(players: Seq<Player>, start: int, k: int)
    requires
        crate::game_model::next_alive_from(players, start, k) is Some,
    ensures
        exists|i: int|
            0 <= i < players.len() && (#[trigger] players[i]).alive && players[i].id
                == crate::game_model::next_alive_from(players, start, k).unwrap(),
    decreases players.len() + 1 - k,
{
    let n = players.len() as int;
    if k > n || k < 1 || n == 0 {
    } else if players[(start + k) % n].alive {
        let i = (start + k) % n;
        assert(0 <= i < n);
        assert(players[i].alive);
    } else {
        lemma_next_alive(players, start, k + 1);
    }
}

/// After a move that hands the turn on, the player to move is alive.
pub proof fn law_next_player_is_alive(g: GameView, mov: Move)
    requires
        perform_move(g, mov) matches Some((_, Ok(TurnOutcome::TurnAdvanced { .. }))),
    ensures
        ({
            let (g2, res) = perform_move(g, mov).unwrap();
            exists|i: int|
                0 <= i < g2.players.len() && (#[trigger] g2.players[i]).alive && g2.players[i].id
                    == g2.current_player_id
        }),
{
    let (g5, res) = apply_move(g, mov).unwrap();
    let o = res.unwrap();
    let pid = mov.player_id;
    let k = first_same_tile_from(g.hands[pid], mov.tile, 0);
    let stats1 = if g.stats.contains_key(pid) {
        g.stats.insert(
            pid,
            crate::game_model::StatsView { tiles_placed: g.stats[pid].tiles_placed + 1, ..g.stats[pid] },
        )
    } else {
        g.stats
    };
    let g1 = GameView {
        hands: g.hands.insert(pid, g.hands[pid].remove(k)),
        stats: stats1,
        history: g.history.push(mov),
        ..g
    };
    let (g2, elim) = players_step_upto(g1, mov.cell, g1.players.len() as int).unwrap();
    let credited = elim.len() > 0 && g2.stats.contains_key(pid);
    let g3 = if credited {
        GameView {
            stats: g2.stats.insert(
                pid,
                crate::game_model::StatsView {
                    players_eliminated: g2.stats[pid].players_eliminated + elim.len()
                        - crate::game_model::occurrences(elim, pid),
                    ..g2.stats[pid]
                },
            ),
            ..g2
        }
    } else {
        g2
    };
    let g4 = fill_hands(g3);
    let turn = g4.history.len() as int;
    let c1 = close_stats_upto(g4, elim, turn, elim.len() as int);
    let c2 = count_survivors_upto(c1, c1.players.len() as int);
    assert(complete_turn(g4, elim).0 == g5);
    let next = crate::game_model::next_active(c2).unwrap();
    let idx = crate::game_model::first_with_id_from(c2.players, c2.current_player_id, 0);
    lemma_next_alive(c2.players, idx, 1);
    lemma_close_stats(g4, elim, turn, elim.len() as int);
    lemma_count_survivors(c1, c1.players.len() as int);
    assert(g5.players == c2.players);
}

/// The hands of the first `n` seats of `players`, last seat first, one
/// after the other.
pub open spec fn dealt_hands(hands: Map<PlayerID, Seq<Tile>>, players: Seq<Player>, n: int) -> Seq<Tile>
    decreases n,
{
    if n <= 0 {
        Seq::empty()
    } else {
        hands[players[n - 1].id] + dealt_hands(hands, players, n - 1)
    }
}

/// The first `n` seats hold players of different ids.
pub open spec fn distinct_ids_upto(players: Seq<Player>, n: int) -> bool {
    forall|i: int, j: int| 0 <= i < j < n ==> players[i].id != players[j].id
}

/// A hand given to a player not among the first `n` seats leaves their
/// hands as they were.
proof fn lemma_dealt_hands_insert(
    hands: Map<PlayerID, Seq<Tile>>,
    players: Seq<Player>,
    n: int,
    id: PlayerID,
    hand: Seq<Tile>,
)
    requires
        0 <= n <= players.len(),
        forall|i: int| 0 <= i < n ==> players[i].id != id,
    ensures
        dealt_hands(hands.insert(id, hand), players, n) == dealt_hands(hands, players, n),
    decreases n,
{
    if n > 0 {
        lemma_dealt_hands_insert(hands, players, n - 1, id, hand);
    }
}

/// Dealing the first `n` seats keeps every tile: the tiles left, followed by
/// the hands dealt, are the deck.
proof fn lemma_deal_upto_conserves(players: Seq<Player>, deck: Seq<Tile>, n: int)
    requires
        0 <= n <= players.len(),
        distinct_ids_upto(players, n),
    ensures
        deal_upto(players, deck, n).1 + dealt_hands(deal_upto(players, deck, n).0, players, n) == deck,
    decreases n,
{
    if n > 0 {
        lemma_deal_upto_conserves(players, deck, n - 1);
        let (m, d) = deal_upto(players, deck, n - 1);
        let k = if 3 <= d.len() {
            d.len() - 3
        } else {
            0
        };
        let h = d.subrange(k, d.len() as int);
        lemma_dealt_hands_insert(m, players, n - 1, players[n - 1].id, h);
        assert(d.subrange(0, k) + (h + dealt_hands(m, players, n - 1)) =~= d + dealt_hands(
            m,
            players,
            n - 1,
        ));
    }
}

/// Dealing a new game loses and doubles no tile: with every player's id
/// different, the deck left, followed by the hands dealt (last seat first),
/// is the deck the game was dealt from. So the hands hold different tiles of
/// the deck, and none of them is still in it.
pub proof fn law_deal_conserves_tiles(players: Seq<Player>, deck: Seq<Tile>)
    requires
        distinct_ids_upto(players, players.len() as int),
    ensures
        new_game(players, deck).deck + dealt_hands(
            new_game(players, deck).hands,
            players,
            players.len() as int,
        ) == deck,
{
    lemma_deal_upto_conserves(players, deck, players.len() as int);
}

/// Dealing the first `n` seats from a deck of at least three tiles a seat
/// gives each of them three tiles and leaves the rest of the deck.
proof fn lemma_deal_upto_three_each(players: Seq<Player>, deck: Seq<Tile>, n: int)
    requires
        0 <= n <= players.len(),
        distinct_ids_upto(players, n),
        deck.len() >= 3 * n,
    ensures
        deal_upto(players, deck, n).1.len() == deck.len() - 3 * n,
        forall|i: int| 0 <= i < n ==> #[trigger] deal_upto(players, deck, n).0.contains_key(players[i].id)
            && deal_upto(players, deck, n).0[players[i].id].len() == 3,
    decreases n,
{
    if n > 0 {
        lemma_deal_upto_three_each(players, deck, n - 1);
    }
}

/// Every player of a new game starts with three tiles in hand, when the
/// players have different ids and the deck holds three tiles for each.
pub proof fn law_each_player_starts_with_three_tiles(players: Seq<Player>, deck: Seq<Tile>)
    requires
        distinct_ids_upto(players, players.len() as int),
        deck.len() >= 3 * players.len(),
    ensures
        forall|i: int|
            0 <= i < players.len() ==> #[trigger] new_game(players, deck).hands[players[i].id].len()
                == 3,
        new_game(players, deck).deck.len() == deck.len() - 3 * players.len(),
{
    let n = players.len() as int;
    lemma_deal_upto_three_each(players, deck, n);
    assert forall|i: int| 0 <= i < n implies #[trigger] new_game(players, deck).hands[players[i].id].len() == 3 by {
        assert(deal_upto(players, deck, n).0.contains_key(players[i].id));
    }
}

/// Refilling a hand of at most three tiles tops it up to three while the
/// deck lasts, keeping the tiles it had first; the tiles drawn leave the
/// deck.
pub proof fn law_refill_tops_up(hand: Seq<Tile>, deck: Seq<Tile>)
    requires
        hand.len() <= 3,
    ensures
        refill(hand, deck).0.len() == if hand.len() + deck.len() >= 3 {
            3
        } else {
            hand.len() + deck.len()
        },
        refill(hand, deck).0.len() + refill(hand, deck).1.len() == hand.len() + deck.len(),
        refill(hand, deck).0.subrange(0, hand.len() as int) == hand,
        refill(hand, deck).1 == deck.subrange(0, refill(hand, deck).1.len() as int),
    decreases deck.len(),
{
    if hand.len() < 3 && deck.len() > 0 {
        law_refill_tops_up(hand.push(deck.last()), deck.drop_last());
        let (h, d) = refill(hand.push(deck.last()), deck.drop_last());
        assert(h.subrange(0, hand.len() as int) =~= h.subrange(0, (hand.len() + 1) as int).subrange(0, hand.len() as int));
        assert(hand.push(deck.last()).subrange(0, hand.len() as int) =~= hand);
        assert(d =~= deck.subrange(0, d.len() as int));
    } else {
        assert(hand.subrange(0, hand.len() as int) =~= hand);
        assert(deck.subrange(0, deck.len() as int) =~= deck);
    }
}

/// Adding the rotations of a tile never drops a placement, and adding at
/// least one leaves at least one.
proof fn lemma_add_rotations_len(m: Seq<Move>, t: Tile, cell: CellCoord, pid: PlayerID, k: nat)
    ensures
        add_rotations(m, t, cell, pid, k).len() >= m.len(),
        k >= 1 ==> add_rotations(m, t, cell, pid, k).len() >= 1,
    decreases k,
{
    if k > 0 {
        lemma_add_rotations_len(m, t, cell, pid, (k - 1) as nat);
    }
}

/// The placements of at least one tile are not none.
proof fn lemma_placements_nonempty(hand: Seq<Tile>, cell: CellCoord, pid: PlayerID, n: int)
    requires
        1 <= n <= hand.len(),
    ensures
        placements_upto(hand, cell, pid, n).len() >= 1,
{
    lemma_add_rotations_len(placements_upto(hand, cell, pid, n - 1), hand[n - 1], cell, pid, 4);
}

/// A timed-out player always gets a move (see [`Game::random_timeout_move`])
/// unless it cannot move at all: it is not in play, has no hand, or holds no
/// tile.
pub proof fn law_timeout_move_unless_no_tiles(g: GameView, pid: PlayerID)
    ensures
        ({
            let pool = if survivable_moves(g, pid).len() > 0 {
                survivable_moves(g, pid)
            } else {
                playable_moves(g, pid)
            };
            pool.len() == 0 <==> (first_alive(g.players, pid) >= g.players.len() || !g.hands.contains_key(
                pid,
            ) || g.hands[pid].len() == 0)
        }),
{
    let i = first_alive(g.players, pid);
    if i < g.players.len() && g.hands.contains_key(pid) && g.hands[pid].len() > 0 {
        lemma_placements_nonempty(g.hands[pid], g.players[i].pos.cell, pid, g.hands[pid].len() as int);
    } else {
        assert(playable_moves(g, pid).len() == 0) by {
            if i < g.players.len() && g.hands.contains_key(pid) {
                assert(placements_upto(g.hands[pid], g.players[i].pos.cell, pid, 0).len() == 0);
            }
        }
        playable_moves(g, pid).lemma_filter_len(|m: Move| crate::game_model::survives(g, m, pid));
    }
}

/// A pawn's step leaves the history of moves alone.
proof fn lemma_player_step_history(g: GameView, i: int, cell: CellCoord)
    requires
        player_step(g, i, cell) is Some,
    ensures
        player_step(g, i, cell).unwrap().0.history == g.history,
{
    broadcast use lemma_record_tile_trail_fields;

}

/// The pawns' steps leave the history of moves alone.
proof fn lemma_players_step_history(g: GameView, cell: CellCoord, n: int)
    requires
        players_step_upto(g, cell, n) is Some,
    ensures
        players_step_upto(g, cell, n).unwrap().0.history == g.history,
    decreases n,
{
    if n > 0 {
        lemma_players_step_history(g, cell, n - 1);
        let g1 = players_step_upto(g, cell, n - 1).unwrap().0;
        lemma_player_step_history(g1, n - 1, cell);
    }
}

/// Refilling hands leaves the history of moves alone.
proof fn lemma_fill_hands_history(g: GameView, n: int)
    ensures
        fill_hands_upto(g, n).history == g.history,
    decreases n,
{
    if n > 0 {
        lemma_fill_hands_history(g, n - 1);
    }
}

/// A move the rules accept is added to the history of moves; a refused one
/// leaves the game as it was.
pub proof fn law_accepted_move_is_recorded(g: GameView, mov: Move)
    requires
        apply_move(g, mov) is Some,
    ensures
        apply_move(g, mov) matches Some((g2, Ok(_))) ==> g2.history == g.history.push(mov),
        apply_move(g, mov) matches Some((g2, Err(_))) ==> g2 == g,
{
    let pid = mov.player_id;
    if let Some((g5, Ok(_))) = apply_move(g, mov) {
        let k = first_same_tile_from(g.hands[pid], mov.tile, 0);
        let stats1 = if g.stats.contains_key(pid) {
            g.stats.insert(
                pid,
                crate::game_model::StatsView {
                    tiles_placed: g.stats[pid].tiles_placed + 1,
                    ..g.stats[pid]
                },
            )
        } else {
            g.stats
        };
        let g1 = GameView {
            hands: g.hands.insert(pid, g.hands[pid].remove(k)),
            stats: stats1,
            history: g.history.push(mov),
            ..g
        };
        lemma_players_step_history(g1, mov.cell, g1.players.len() as int);
        let (g2, elim) = players_step_upto(g1, mov.cell, g1.players.len() as int).unwrap();
        let credited = elim.len() > 0 && g2.stats.contains_key(pid);
        let g3 = if credited {
            GameView {
                stats: g2.stats.insert(
                    pid,
                    crate::game_model::StatsView {
                        players_eliminated: g2.stats[pid].players_eliminated + elim.len()
                            - crate::game_model::occurrences(elim, pid),
                        ..g2.stats[pid]
                    },
                ),
                ..g2
            }
        } else {
            g2
        };
        lemma_fill_hands_history(g3, g3.players.len() as int);
        let g4 = fill_hands(g3);
        lemma_complete_turn(g4, elim);
        assert(g5 == complete_turn(g4, elim).0);
    }
}

/// A move played under the forced-suicide rule is added to the history of
/// moves when accepted (see [`Game::perform_move`]).
pub proof fn law_played_move_is_recorded(g: GameView, mov: Move)
    requires
        perform_move(g, mov) is Some,
    ensures
        perform_move(g, mov) matches Some((g2, Ok(_))) ==> g2.history == g.history.push(mov),
{
    law_accepted_move_is_recorded(g, mov);
}

/// Replaying recorded moves records them again: a replay of `moves` that
/// no move stops ends with `moves` added to the history it started from.
pub proof fn law_replay_records_the_moves(g: GameView, moves: Seq<Move>, n: int)
    requires
        0 <= n <= moves.len(),
        replay_upto(g, moves, n) matches Some(Ok(_)),
    ensures
        replay_upto(g, moves, n) matches Some(Ok(r)) && r.history == g.history + moves.take(n),
    decreases n,
{
    if n == 0 {
        assert(g.history + moves.take(0) =~= g.history);
    } else {
        law_replay_records_the_moves(g, moves, n - 1);
        let g1 = replay_upto(g, moves, n - 1)->Some_0->Ok_0;
        let mov = moves[n - 1];
        let pid = mov.player_id;
        let g1a = if g1.hands.contains_key(pid) && first_same_tile_from(g1.hands[pid], mov.tile, 0)
            >= g1.hands[pid].len() {
            GameView { hands: g1.hands.insert(pid, g1.hands[pid].push(mov.tile)), ..g1 }
        } else {
            g1
        };
        assert(can_perform(g1a, mov));
        law_accepted_move_is_recorded(g1a, mov);
        if let Some((_, Ok(o))) = apply_move(g1a, mov) {
            if !(crate::game_model::outcome_eliminated(o).contains(pid)
                && survivable_moves(g1a, pid).len() > 0) {
                assert(perform_move(g1a, mov) == apply_move(g1a, mov));
            }
        }
        assert(moves.take(n) =~= moves.take(n - 1).push(mov));
        assert(g.history + moves.take(n) =~= (g.history + moves.take(n - 1)).push(mov));
    }
}

/// Every pawn in play waits where a path from the board's border led it.
pub open spec fn pawns_from_border(g: GameView) -> bool {
    forall|i: int| 0 <= i < g.players.len() && (#[trigger] g.players[i]).alive ==> from_border(g.history, g.players[i].pos)
}

/// Pawns standing on the border wait where a path from the border led them
/// (the empty one): so do the pawns of a game about to start.
pub proof fn law_border_pawns_start_from_border(g: GameView)
    requires
        forall|i: int| 0 <= i < g.players.len() && (#[trigger] g.players[i]).alive ==> spec_on_edge(g.players[i].pos),
    ensures
        pawns_from_border(g),
{
    assert forall|i: int| 0 <= i < g.players.len() && (#[trigger] g.players[i]).alive implies from_border(
        g.history,
        g.players[i].pos,
    ) by {
        let q = g.players[i].pos;
        assert(goes_on(g.history, q, 0) && pos_after(g.history, q, 0) == q);
    }
}

/// One pawn's step keeps every pawn in play where a path from the border
/// led it.
proof fn lemma_player_step_border(g: GameView, i: int, cell: CellCoord)
    requires
        pawns_from_border(g),
        0 <= i < g.players.len(),
        player_step(g, i, cell) is Some,
    ensures
        pawns_from_border(player_step(g, i, cell).unwrap().0),
        player_step(g, i, cell).unwrap().0.players.len() == g.players.len(),
{
    broadcast use lemma_record_tile_trail_fields;

    lemma_player_step_history(g, i, cell);
    let g2 = player_step(g, i, cell).unwrap().0;
    let p = g.players[i];
    if p.alive && p.pos.cell == cell {
        let new_pos = path_end(g.history, p.pos);
        assert(g.players[i].alive);
        if p.pos != new_pos && !spec_on_edge(new_pos) {
            lemma_from_border_follow(g.history, p.pos);
        }
        assert forall|j: int| 0 <= j < g2.players.len() && (#[trigger] g2.players[j]).alive implies from_border(
            g2.history,
            g2.players[j].pos,
        ) by {
            if j != i {
                assert(g2.players[j] == g.players[j]);
                assert(g.players[j].alive);
            }
        }
    }
}

/// The pawns' steps after a placement keep every pawn in play where a path
/// from the border led it.
proof fn lemma_players_step_border(g: GameView, cell: CellCoord, n: int)
    requires
        pawns_from_border(g),
        0 <= n <= g.players.len(),
        players_step_upto(g, cell, n) is Some,
    ensures
        pawns_from_border(players_step_upto(g, cell, n).unwrap().0),
        players_step_upto(g, cell, n).unwrap().0.players.len() == g.players.len(),
        players_step_upto(g, cell, n).unwrap().0.history == g.history,
    decreases n,
{
    lemma_players_step_history(g, cell, n);
    if n > 0 {
        lemma_players_step_border(g, cell, n - 1);
        let g1 = players_step_upto(g, cell, n - 1).unwrap().0;
        lemma_player_step_border(g1, n - 1, cell);
    } else {
        let g0 = GameView { current_turn_trails: Map::empty(), ..g };
        assert(players_step_upto(g, cell, n).unwrap().0 == g0);
    }
}

/// Refilling hands leaves the pawns alone.
proof fn lemma_fill_hands_players(g: GameView, n: int)
    ensures
        fill_hands_upto(g, n).players == g.players,
        fill_hands_upto(g, n).history == g.history,
    decreases n,
{
    if n > 0 {
        lemma_fill_hands_players(g, n - 1);
    }
}

/// Play keeps every pawn in play waiting where a path from the border led
/// it, when the moves place proper tiles on the board: with
/// [`law_placed_tile_path_ends`], the path of every pawn in play stops after
/// each placement, in every game that starts with its pawns on the border.
pub proof fn law_play_keeps_pawns_on_border_paths(g: GameView, mov: Move)
    requires
        board_proper(g.history),
        pawns_from_border(g),
        tile_pairs(mov.tile),
        mov.cell.row <= MAX,
        mov.cell.col <= MAX,
        apply_move(g, mov) is Some,
    ensures
        board_proper(apply_move(g, mov).unwrap().0.history),
        pawns_from_border(apply_move(g, mov).unwrap().0),
{
    law_accepted_move_is_recorded(g, mov);
    let pid = mov.player_id;
    let h2 = g.history.push(mov);
    assert forall|i: int| 0 <= i < h2.len() implies tile_pairs((#[trigger] h2[i]).tile) && h2[i].cell.row
        <= MAX && h2[i].cell.col <= MAX by {
        if i < g.history.len() {
            assert(h2[i] == g.history[i]);
        }
    }
    if let Some((g5, Ok(_))) = apply_move(g, mov) {
        let k = first_same_tile_from(g.hands[pid], mov.tile, 0);
        let stats1 = if g.stats.contains_key(pid) {
            g.stats.insert(
                pid,
                crate::game_model::StatsView {
                    tiles_placed: g.stats[pid].tiles_placed + 1,
                    ..g.stats[pid]
                },
            )
        } else {
            g.stats
        };
        let g1 = GameView {
            hands: g.hands.insert(pid, g.hands[pid].remove(k)),
            stats: stats1,
            history: h2,
            ..g
        };
        assert forall|i: int| 0 <= i < g1.players.len() && (#[trigger] g1.players[i]).alive implies from_border(
            g1.history,
            g1.players[i].pos,
        ) by {
            assert(g.players[i].alive);
            lemma_from_border_push(g.history, mov, g.players[i].pos);
        }
        lemma_players_step_border(g1, mov.cell, g1.players.len() as int);
        let (g2, elim) = players_step_upto(g1, mov.cell, g1.players.len() as int).unwrap();
        let credited = elim.len() > 0 && g2.stats.contains_key(pid);
        let g3 = if credited {
            GameView {
                stats: g2.stats.insert(
                    pid,
                    crate::game_model::StatsView {
                        players_eliminated: g2.stats[pid].players_eliminated + elim.len()
                            - crate::game_model::occurrences(elim, pid),
                        ..g2.stats[pid]
                    },
                ),
                ..g2
            }
        } else {
            g2
        };
        assert(g3.players == g2.players && g3.history == g2.history);
        lemma_fill_hands_players(g3, g3.players.len() as int);
        let g4 = fill_hands(g3);
        lemma_complete_turn(g4, elim);
        assert(g5 == complete_turn(g4, elim).0);
        assert(g5.players == g4.players && g5.history == g4.history);
    }
}

/// In a game whose pawns wait where paths from the border led them, a
/// proper tile placed on the board sends every pawn in play along a path
/// that stops.
pub proof fn law_pawns_paths_end(g: GameView, mov: Move)
    requires
        board_proper(g.history),
        pawns_from_border(g),
        tile_pairs(mov.tile),
        mov.cell.row <= MAX,
        mov.cell.col <= MAX,
    ensures
        forall|i: int| 0 <= i < g.players.len() && (#[trigger] g.players[i]).alive ==> path_ends(
            g.history.push(mov),
            g.players[i].pos,
        ),
{
    assert forall|i: int| 0 <= i < g.players.len() && (#[trigger] g.players[i]).alive implies path_ends(
        g.history.push(mov),
        g.players[i].pos,
    ) by {
        let q = g.players[i].pos;
        assert(from_border(g.history, q));
        let (s, k) = choose|s: PlayerPos, k: nat| spec_on_edge(s) && #[trigger] goes_on(g.history, s, k)
            && pos_after(g.history, s, k) == q;
        law_placed_tile_path_ends(g.history, mov, s, k);
    }
}

/// A playable move of `pid` is one of its surviving moves exactly when the
/// rules accept it and `pid` is not among the players it eliminates,
/// however many other players it eliminates.
pub proof fn law_survivable_moves_spare_the_mover(g: GameView, pid: PlayerID, m: Move)
    requires
        playable_moves(g, pid).contains(m),
    ensures
        survivable_moves(g, pid).contains(m) <==> (apply_move(g, m) matches Some((_, Ok(o)))
            && !outcome_eliminated(o).contains(pid)),
{
    broadcast use vstd::seq_lib::group_filter_ensures;

    let all = playable_moves(g, pid);
    let pred = |mm: Move| survives(g, mm, pid);
    let kept = all.filter(pred);
    assert(kept == survivable_moves(g, pid));
    if kept.contains(m) {
        let i = choose|i: int| 0 <= i < kept.len() && kept[i] == m;
        assert(pred(kept[i]));
    }
    if apply_move(g, m) matches Some((_, Ok(o))) && !outcome_eliminated(o).contains(pid) {
        let i = choose|i: int| 0 <= i < all.len() && all[i] == m;
        assert(pred(all[i]));
        assert(kept.contains(all[i]));
    }
}

/// Under the forced-suicide rule a move that eliminates its own player is
/// refused while another playable move of that player is accepted without
/// eliminating it, even when that other move eliminates opponents.
pub proof fn law_forced_suicide_refused_while_a_move_survives(g: GameView, m: Move, other: Move)
    requires
        apply_move(g, m) matches Some((_, Ok(o))) && outcome_eliminated(o).contains(m.player_id),
        playable_moves(g, m.player_id).contains(other),
        apply_move(g, other) matches Some((_, Ok(o2))) && !outcome_eliminated(o2).contains(
            m.player_id,
        ),
    ensures
        perform_move(g, m) == Some((g, Err::<TurnOutcome, MoveError>(MoveError::ForcedSuicide))),
{
    law_survivable_moves_spare_the_mover(g, m.player_id, other);
    assert(survivable_moves(g, m.player_id).len() > 0);
}

proof fn lemma_rotation_found_from(hand: Seq<Tile>, j: int, k: nat, i: int)
    requires
        0 <= i <= j < hand.len(),
        k < 4,
    ensures
        first_same_tile_from(hand, crate::board::tile_rotated_times(hand[j], k), i) <= j,
    decreases j - i,
{
    crate::board_laws::law_rotations_are_the_same_tile(hand[j], k);
    if i < j && !crate::board::same_tile(hand[i], crate::board::tile_rotated_times(hand[j], k)) {
        lemma_rotation_found_from(hand, j, k, i + 1);
    }
}

/// A hand recognises each orientation of each of its tiles: the first tile
/// of the hand that matches a turned tile comes no later than the tile it
/// was turned from.
pub proof fn law_hand_recognises_rotations(hand: Seq<Tile>, j: int, k: nat)
    requires
        0 <= j < hand.len(),
        k < 4,
    ensures
        first_same_tile_from(hand, crate::board::tile_rotated_times(hand[j], k), 0) <= j,
{
    lemma_rotation_found_from(hand, j, k, 0);
}

/// A move whose tile is a tile of the mover's hand turned any number of
/// quarter turns is never refused for a tile missing from the hand.
pub proof fn law_turned_hand_tile_is_in_hand(g: GameView, mov: Move, j: int, k: nat)
    requires
        g.hands.contains_key(mov.player_id),
        0 <= j < g.hands[mov.player_id].len(),
        k < 4,
        mov.tile == crate::board::tile_rotated_times(g.hands[mov.player_id][j], k),
    ensures
        !(apply_move(g, mov) matches Some((_, Err(MoveError::TileNotInHand)))),
{
    law_hand_recognises_rotations(g.hands[mov.player_id], j, k);
}

/// No seat of player `id` is in play.
pub open spec fn out_of_play(players: Seq<Player>, id: PlayerID) -> bool {
    forall|i: int| 0 <= i < players.len() && (#[trigger] players[i]).id == id ==> !players[i].alive
}

proof fn lemma_fill_skips_out_of_play(g: GameView, id: PlayerID, n: int)
    requires
        out_of_play(g.players, id),
        n <= g.players.len(),
    ensures
        fill_hands_upto(g, n).hands.contains_key(id) == g.hands.contains_key(id),
        g.hands.contains_key(id) ==> fill_hands_upto(g, n).hands[id] == g.hands[id],
        fill_hands_upto(g, n).players == g.players,
    decreases n,
{
    lemma_fill_hands_players(g, n);
    if n > 0 {
        lemma_fill_skips_out_of_play(g, id, n - 1);
        lemma_fill_hands_players(g, n - 1);
        let g1 = fill_hands_upto(g, n - 1);
        let p = g1.players[n - 1];
        if p.alive {
            assert(g.players[n - 1] == p);
            assert(p.id != id);
        }
    }
}

/// Refilling the hands gives no tile to a player out of play: the hand of
/// a player none of whose seats is in play stays as it was (and so does
/// its having one).
pub proof fn law_refill_skips_players_out(g: GameView, id: PlayerID)
    requires
        out_of_play(g.players, id),
    ensures
        fill_hands(g).hands.contains_key(id) == g.hands.contains_key(id),
        g.hands.contains_key(id) ==> fill_hands(g).hands[id] == g.hands[id],
{
    lemma_fill_skips_out_of_play(g, id, g.players.len() as int);
}

proof fn lemma_fill_when_all_out(g: GameView, n: int)
    requires
        forall|i: int| 0 <= i < g.players.len() ==> !(#[trigger] g.players[i]).alive,
        n <= g.players.len(),
    ensures
        fill_hands_upto(g, n) == g,
    decreases n,
{
    if n > 0 {
        lemma_fill_when_all_out(g, n - 1);
        assert(!g.players[n - 1].alive);
    }
}

/// When no player is in play, refilling the hands changes nothing: the
/// deck keeps every tile.
pub proof fn law_refill_with_everyone_out(g: GameView)
    requires
        forall|i: int| 0 <= i < g.players.len() ==> !(#[trigger] g.players[i]).alive,
    ensures
        fill_hands(g) == g,
{
    lemma_fill_when_all_out(g, g.players.len() as int);
}

/// Every seat out of play holds no tiles.
pub open spec fn out_hands_empty(g: GameView) -> bool {
    forall|i: int|
        0 <= i < g.players.len() && !(#[trigger] g.players[i]).alive && g.hands.contains_key(
            g.players[i].id,
        ) ==> g.hands[g.players[i].id].len() == 0
}

/// No two seats have the same player.
pub open spec fn distinct_ids(players: Seq<Player>) -> bool {
    forall|i: int, j: int|
        0 <= i < players.len() && 0 <= j < players.len() && i != j ==> (#[trigger] players[i]).id
            != (#[trigger] players[j]).id
}

proof fn lemma_step_out_hands(g: GameView, i: int, cell: CellCoord)
    requires
        out_hands_empty(g),
        distinct_ids(g.players),
        0 <= i < g.players.len(),
        player_step(g, i, cell) is Some,
    ensures
        out_hands_empty(player_step(g, i, cell).unwrap().0),
        player_step(g, i, cell).unwrap().0.players.len() == g.players.len(),
        forall|j: int| 0 <= j < g.players.len() ==> (#[trigger] player_step(g, i, cell).unwrap().0.players[j]).id == g.players[j].id,
{
    broadcast use lemma_record_tile_trail_fields;

    let g2 = player_step(g, i, cell).unwrap().0;
    let p = g.players[i];
    if p.alive && p.pos.cell == cell {
        assert forall|j: int|
            0 <= j < g2.players.len() && !(#[trigger] g2.players[j]).alive && g2.hands.contains_key(
                g2.players[j].id,
            ) implies g2.hands[g2.players[j].id].len() == 0 by {
            if j != i {
                assert(g2.players[j] == g.players[j]);
                assert(g.players[j].id != g.players[i].id);
                assert(g.hands.contains_key(g.players[j].id));
                assert(g2.hands[g2.players[j].id] == g.hands[g.players[j].id]);
            }
        }
    }
}

proof fn lemma_steps_out_hands(g: GameView, cell: CellCoord, n: int)
    requires
        out_hands_empty(g),
        distinct_ids(g.players),
        0 <= n <= g.players.len(),
        players_step_upto(g, cell, n) is Some,
    ensures
        out_hands_empty(players_step_upto(g, cell, n).unwrap().0),
        distinct_ids(players_step_upto(g, cell, n).unwrap().0.players),
        players_step_upto(g, cell, n).unwrap().0.players.len() == g.players.len(),
    decreases n,
{
    if n > 0 {
        lemma_steps_out_hands(g, cell, n - 1);
        let g1 = players_step_upto(g, cell, n - 1).unwrap().0;
        lemma_step_out_hands(g1, n - 1, cell);
        let g2 = player_step(g1, n - 1, cell).unwrap().0;
        assert forall|a: int, b: int|
            0 <= a < g2.players.len() && 0 <= b < g2.players.len() && a != b implies (#[trigger] g2.players[a]).id
            != (#[trigger] g2.players[b]).id by {
            assert(g2.players[a].id == g1.players[a].id);
            assert(g2.players[b].id == g1.players[b].id);
        }
    } else {
        let g0 = GameView { current_turn_trails: Map::empty(), ..g };
        assert(players_step_upto(g, cell, n).unwrap().0 == g0);
    }
}

/// After an accepted move no player out of play holds a tile, when none
/// did before: a pawn driven off the board gives its hand back, and a
/// player out of play draws no new tiles.
pub proof fn law_players_out_hold_no_tiles(g: GameView, mov: Move)
    requires
        out_hands_empty(g),
        distinct_ids(g.players),
        apply_move(g, mov) matches Some((_, Ok(_))),
    ensures
        out_hands_empty(apply_move(g, mov).unwrap().0),
{
    let pid = mov.player_id;
    let g5 = apply_move(g, mov).unwrap().0;
    let k = first_same_tile_from(g.hands[pid], mov.tile, 0);
    let stats1 = if g.stats.contains_key(pid) {
        g.stats.insert(
            pid,
            crate::game_model::StatsView {
                tiles_placed: g.stats[pid].tiles_placed + 1,
                ..g.stats[pid]
            },
        )
    } else {
        g.stats
    };
    let g1 = GameView {
        hands: g.hands.insert(pid, g.hands[pid].remove(k)),
        stats: stats1,
        history: g.history.push(mov),
        ..g
    };
    let s = first_alive(g.players, pid);
    lemma_first_alive(g.players, pid, 0);
    assert forall|j: int|
        0 <= j < g1.players.len() && !(#[trigger] g1.players[j]).alive && g1.hands.contains_key(
            g1.players[j].id,
        ) implies g1.hands[g1.players[j].id].len() == 0 by {
        assert(j != s);
        assert(g.players[j].id != g.players[s].id);
        assert(g.hands.contains_key(g.players[j].id));
    }
    lemma_steps_out_hands(g1, mov.cell, g1.players.len() as int);
    let (g2, elim) = players_step_upto(g1, mov.cell, g1.players.len() as int).unwrap();
    let credited = elim.len() > 0 && g2.stats.contains_key(pid);
    let g3 = if credited {
        GameView {
            stats: g2.stats.insert(
                pid,
                crate::game_model::StatsView {
                    players_eliminated: g2.stats[pid].players_eliminated + elim.len()
                        - crate::game_model::occurrences(elim, pid),
                    ..g2.stats[pid]
                },
            ),
            ..g2
        }
    } else {
        g2
    };
    assert(out_hands_empty(g3));
    let g4 = fill_hands(g3);
    lemma_fill_hands_players(g3, g3.players.len() as int);
    assert forall|j: int|
        0 <= j < g4.players.len() && !(#[trigger] g4.players[j]).alive && g4.hands.contains_key(
            g4.players[j].id,
        ) implies g4.hands[g4.players[j].id].len() == 0 by {
        let id = g3.players[j].id;
        assert forall|a: int| 0 <= a < g3.players.len() && (#[trigger] g3.players[a]).id == id implies !g3.players[a].alive by {
            if a != j {
                assert(g3.players[a].id != g3.players[j].id);
            }
        }
        law_refill_skips_players_out(g3, id);
    }
    lemma_complete_turn(g4, elim);
    assert(g5 == complete_turn(g4, elim).0);
}

} // verus!
