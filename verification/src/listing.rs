//! The public lobby directory: one row per public room, joinable rooms first
//! and then by name.
use vstd::prelude::*;

use crate::lobby::Visibility;
use crate::protocol::LobbyListing;
use crate::room::{GameRoom, PhaseView, RoomPhase};

verus! {

broadcast use vstd::seq_lib::group_to_multiset_ensures;

/// `a` comes before `b` in lexicographic order of code points (the order of
/// Rust's `str`, whose UTF-8 bytes compare as the code points do).
pub open spec fn text_lt(a: Seq<char>, b: Seq<char>) -> bool
    decreases a.len(),
{
    if a.len() == 0 {
        b.len() > 0
    } else if b.len() == 0 {
        false
    } else if a[0] != b[0] {
        (a[0] as u32) < (b[0] as u32)
    } else {
        text_lt(a.drop_first(), b.drop_first())
    }
}

/// The order of texts is transitive.
pub proof fn lemma_text_lt_transitive(a: Seq<char>, b: Seq<char>, c: Seq<char>)
    requires
        text_lt(a, b),
        text_lt(b, c),
    ensures
        text_lt(a, c),
    decreases a.len(),
{
    if a.len() > 0 && b.len() > 0 && c.len() > 0 && a[0] == b[0] && b[0] == c[0] {
        lemma_text_lt_transitive(a.drop_first(), b.drop_first(), c.drop_first());
    }
}

/// No text comes before itself.
pub proof fn lemma_text_lt_irreflexive(a: Seq<char>)
    ensures
        !text_lt(a, a),
    decreases a.len(),
{
    if a.len() > 0 {
        lemma_text_lt_irreflexive(a.drop_first());
    }
}

/// `a` is listed before `b`: rooms still in their lobby first, then by name.
pub open spec fn listing_lt(a: LobbyListing, b: LobbyListing) -> bool {
    ||| !a.in_progress && b.in_progress
    ||| a.in_progress == b.in_progress && text_lt(a.name@, b.name@)
}

/// No row is listed before a row above it.
pub open spec fn listings_sorted(s: Seq<LobbyListing>) -> bool {
    forall|i: int, j: int| 0 <= i < j < s.len() ==> !listing_lt(#[trigger] s[j], #[trigger] s[i])
}

proof fn lemma_listing_lt_transitive(a: LobbyListing, b: LobbyListing, c: LobbyListing)
    requires
        listing_lt(a, b),
        listing_lt(b, c),
    ensures
        listing_lt(a, c),
{
    if a.in_progress == b.in_progress && b.in_progress == c.in_progress {
        lemma_text_lt_transitive(a.name@, b.name@, c.name@);
    }
}

/// Whether name `a` comes before name `b` (see [`text_lt`]): the first
/// characters in which they differ decide, else the shorter comes first.
fn name_precedes(a: &String, b: &String) -> (r: bool)
    ensures
        r == text_lt(a@, b@),
{
    let sa = a.as_str();
    let sb = b.as_str();
    let na = sa.unicode_len();
    let nb = sb.unicode_len();
    let mut i: usize = 0;
    proof {
        assert(a@.skip(0) =~= a@);
        assert(b@.skip(0) =~= b@);
    }
    while i < na && i < nb
        invariant
            i <= na,
            i <= nb,
            na == a@.len(),
            nb == b@.len(),
            sa@ == a@,
            sb@ == b@,
            text_lt(a@, b@) == text_lt(a@.skip(i as int), b@.skip(i as int)),
        decreases na - i,
    {
        let ca = sa.get_char(i);
        let cb = sb.get_char(i);
        if ca != cb {
            return (ca as u32) < (cb as u32);
        }
        proof {
            assert(a@.skip(i as int).drop_first() =~= a@.skip(i + 1));
            assert(b@.skip(i as int).drop_first() =~= b@.skip(i + 1));
        }
        i = i + 1;
    }
    i == na && i < nb
}

/// Whether `a` is listed before `b` (see [`listing_lt`]).
fn listed_before(a: &LobbyListing, b: &LobbyListing) -> (r: bool)
    ensures
        r == listing_lt(*a, *b),
{
    if a.in_progress != b.in_progress {
        !a.in_progress
    } else {
        name_precedes(&a.name, &b.name)
    }
}

/// The rows of `listings`, rooms still in their lobby first and then by
/// name.
pub fn sort_listings(listings: Vec<LobbyListing>) -> (r: Vec<LobbyListing>)
    ensures
        listings_sorted(r@),
        r@.to_multiset() == listings@.to_multiset(),
{
    let mut input = listings;
    let mut r: Vec<LobbyListing> = Vec::new();
    while input.len() > 0
        invariant
            listings_sorted(r@),
            r@.to_multiset().add(input@.to_multiset()) == listings@.to_multiset(),
        decreases input@.len(),
    {
        let ghost before = input@;
        let x = input.pop().unwrap();
        proof {
            assert(before == input@.push(x));
        }
        let mut j: usize = 0;
        while j < r.len() && !listed_before(&x, &r[j])
            invariant
                j <= r@.len(),
                forall|i: int| 0 <= i < j ==> !listing_lt(x, #[trigger] r@[i]),
            decreases r@.len() - j,
        {
            j = j + 1;
        }
        let ghost r0 = r@;
        r.insert(j, x);
        proof {
            assert forall|a: int, b: int| 0 <= a < b < r@.len() implies !listing_lt(
                #[trigger] r@[b],
                #[trigger] r@[a],
            ) by {
                if a < j && b == j {
                    assert(r@[a] == r0[a]);
                } else if a == j && b > j {
                    assert(r@[b] == r0[b - 1]);
                    if listing_lt(r0[b - 1], x) {
                        lemma_listing_lt_transitive(r0[b - 1], x, r0[j as int]);
                        if b - 1 == j {
                            lemma_text_lt_irreflexive(r0[j as int].name@);
                        } else {
                            assert(!listing_lt(r0[b - 1], r0[j as int]));
                        }
                    }
                } else if b < j {
                    assert(r@[a] == r0[a] && r@[b] == r0[b]);
                } else if a < j && b > j {
                    assert(r@[a] == r0[a] && r@[b] == r0[b - 1]);
                } else {
                    assert(r@[a] == r0[a - 1] && r@[b] == r0[b - 1]);
                }
            }
            assert(r@.to_multiset() == r0.to_multiset().insert(x));
        }
    }
    r
}

/// The directory row of a room, listed only when public: a lobby shows its
/// players and its limit; a game in progress shows its players as both,
/// since nobody else can join.
pub open spec fn room_listing(room: &GameRoom) -> Option<LobbyListing> {
    if room.visibility != Visibility::Public {
        None
    } else {
        match room.phase@ {
            PhaseView::Lobby(l) => Some(
                LobbyListing {
                    room_id: room.id,
                    name: room.name,
                    player_count: l.players.len() as usize,
                    max_players: l.max_players,
                    in_progress: false,
                },
            ),
            PhaseView::Playing(g) => Some(
                LobbyListing {
                    room_id: room.id,
                    name: room.name,
                    player_count: g.players.len() as usize,
                    max_players: g.players.len() as usize,
                    in_progress: true,
                },
            ),
        }
    }
}

impl GameRoom {
    /// The room's row in the public directory (see [`room_listing`]).
    pub fn listing(&self) -> (r: Option<LobbyListing>)
        ensures
            r == room_listing(self),
    {
        if self.visibility != Visibility::Public {
            return None;
        }
        let (player_count, max_players, in_progress) = match &self.phase {
            RoomPhase::Lobby(lobby) => (lobby.players.len(), lobby.max_players, false),
            RoomPhase::Playing(game) => (game.players.len(), game.players.len(), true),
        };
        Some(
            LobbyListing {
                room_id: self.id.clone(),
                name: self.name.clone(),
                player_count,
                max_players,
                in_progress,
            },
        )
    }
}

} // verus!
