//! Stepping through a saved game move by move.
use vstd::prelude::*;

use crate::board::{Move, Player, PlayerID, PlayerPos, Tile};
use crate::game::{game_result_view, Game, GameExport};
use crate::game_model::{new_game, replay, GameView, MoveError};

verus! {

/// Whether a replay is running.
#[derive(Debug, Clone, Copy, PartialEq, Eq, Structural)]
pub enum PlaybackStatus {
    Paused,
    Playing,
    Finished,
}

/// The players of a saved game as they started: at the start of their
/// trails, alive, not yet moved.
pub open spec fn starting_players(g: GameView) -> Seq<Player> {
    g.players.map_values(
        |p: Player| Player { pos: g.player_trails[p.id].start_pos, alive: true, has_moved: false, ..p },
    )
}

/// The first `n` moves of a saved game can be replayed from its starting
/// players, whatever order the shuffled deck comes in, and none is refused.
pub open spec fn replay_defined(g: GameView, n: int) -> bool {
    &&& forall|i: int| 0 <= i < g.players.len() ==> g.player_trails.contains_key(#[trigger] g.players[i].id)
    &&& g.players.len() <= usize::MAX / 2
    &&& 0 <= n <= g.history.len()
    &&& forall|d: Seq<Tile>|
        d.len() == 35 && d.to_multiset() == crate::deck::standard_tiles().to_multiset()
            ==> #[trigger] replay(new_game(starting_players(g), d), g.history.take(n)) matches Some(Ok(_))
}

/// `r` is the saved game `g` after its first `n` moves were replayed, for
/// some order of the shuffled deck.
pub open spec fn replayed(g: GameView, n: int, r: GameView) -> bool {
    exists|d: Seq<Tile>|
        d.len() == 35 && d.to_multiset() == crate::deck::standard_tiles().to_multiset()
            && #[trigger] replay(new_game(starting_players(g), d), g.history.take(n)) == Some(
            Ok::<GameView, MoveError>(r),
        )
}

/// A saved game being replayed: which move it is at, and whether it plays.
#[derive(Debug, Clone)]
pub struct ReplayState {
    pub export: GameExport,
    pub current_move_index: usize,
    pub playback_status: PlaybackStatus,
}

impl ReplayState {
    /// A paused replay of `export` at its start.
    pub fn new(export: GameExport) -> (r: ReplayState)
        ensures
            r.export == export,
            r.current_move_index == 0,
            r.playback_status == PlaybackStatus::Paused,
    {
        ReplayState { export, current_move_index: 0, playback_status: PlaybackStatus::Paused }
    }

    /// The game after the moves up to the current one, rebuilt from the
    /// starting players (see [`Game::rebuild_from_history`]).
    pub fn current_game_state(&self) -> (r: Game)
        requires
            replay_defined(self.export.game_state@, self.current_move_index as int),
        ensures
            replayed(self.export.game_state@, self.current_move_index as int, r@),
    {
        let ghost g = self.export.game_state@;
        let initial = self.extract_initial_players();
        let history = &self.export.game_state.board.history;
        let mut moves: Vec<Move> = Vec::new();
        let mut i: usize = 0;
        while i < self.current_move_index
            invariant
                i <= self.current_move_index,
                self.current_move_index <= history@.len(),
                moves@ == history@.take(i as int),
            decreases self.current_move_index - i,
        {
            moves.push(history[i]);
            i = i + 1;
            assert(moves@ =~= history@.take(i as int));
        }
        let r = Game::rebuild_from_history(initial, moves.as_slice());
        proof {
            let d = choose|d: Seq<Tile>|
                d.len() == 35 && d.to_multiset() == crate::deck::standard_tiles().to_multiset()
                    && #[trigger] replay(new_game(starting_players(g), d), moves@) == Some(
                    game_result_view(r),
                );
            assert(replay(new_game(starting_players(g), d), g.history.take(self.current_move_index as int)) matches Some(Ok(_)));
        }
        r.unwrap()
    }

    /// The players as they started.
    fn extract_initial_players(&self) -> (r: Vec<Player>)
        requires
            forall|i: int|
                0 <= i < self.export.game_state@.players.len()
                    ==> self.export.game_state@.player_trails.contains_key(
                    #[trigger] self.export.game_state@.players[i].id,
                ),
        ensures
            r@ == starting_players(self.export.game_state@),
    {
        let players = &self.export.game_state.players;
        let mut r: Vec<Player> = Vec::new();
        let mut i: usize = 0;
        while i < players.len()
            invariant
                i <= players@.len(),
                players@ == self.export.game_state@.players,
                forall|j: int|
                    0 <= j < self.export.game_state@.players.len()
                        ==> self.export.game_state@.player_trails.contains_key(
                        #[trigger] self.export.game_state@.players[j].id,
                    ),
                r@ == starting_players(self.export.game_state@).take(i as int),
            decreases players@.len() - i,
        {
            let p = players[i];
            let pos = self.get_initial_position(p.id);
            r.push(Player { pos, alive: true, has_moved: false, ..p });
            i = i + 1;
            assert(r@ =~= starting_players(self.export.game_state@).take(i as int));
        }
        assert(r@ =~= starting_players(self.export.game_state@));
        r
    }

    /// Where `player_id`'s trail starts.
    fn get_initial_position(&self, player_id: PlayerID) -> (r: PlayerPos)
        requires
            self.export.game_state@.player_trails.contains_key(player_id),
        ensures
            r == self.export.game_state@.player_trails[player_id].start_pos,
    {
        let trail = self.export.game_state.player_trails.get(&player_id).unwrap();
        trail.start_pos
    }

    /// Whether a move is left to replay.
    pub fn can_step_forward(&self) -> (r: bool)
        ensures
            r == (self.current_move_index < self.export.game_state@.history.len()),
    {
        self.current_move_index < self.export.game_state.board.history.len()
    }

    /// Whether a move was replayed.
    pub fn can_step_backward(&self) -> (r: bool)
        ensures
            r == (self.current_move_index > 0),
    {
        self.current_move_index > 0
    }

    /// Replays one more move, when one is left, and returns the game then.
    pub fn step_forward(&mut self) -> (r: Option<Game>)
        requires
            old(self).current_move_index < old(self).export.game_state@.history.len() ==> replay_defined(
                old(self).export.game_state@,
                old(self).current_move_index + 1,
            ),
        ensures
            final(self).export == old(self).export,
            final(self).playback_status == old(self).playback_status,
            old(self).current_move_index < old(self).export.game_state@.history.len() ==> {
                &&& final(self).current_move_index == old(self).current_move_index + 1
                &&& r matches Some(g) && replayed(
                    old(self).export.game_state@,
                    old(self).current_move_index + 1,
                    g@,
                )
            },
            old(self).current_move_index >= old(self).export.game_state@.history.len() ==> r is None
                && final(self).current_move_index == old(self).current_move_index,
    {
        let n = self.export.game_state.board.history.len();
        if self.current_move_index < n {
            self.current_move_index = self.current_move_index + 1;
            Some(self.current_game_state())
        } else {
            None
        }
    }

    /// Goes back one move, unless at the start, and returns the game then.
    pub fn step_backward(&mut self) -> (r: Option<Game>)
        requires
            old(self).current_move_index > 0 ==> replay_defined(
                old(self).export.game_state@,
                old(self).current_move_index - 1,
            ),
        ensures
            final(self).export == old(self).export,
            final(self).playback_status == old(self).playback_status,
            old(self).current_move_index > 0 ==> {
                &&& final(self).current_move_index == old(self).current_move_index - 1
                &&& r matches Some(g) && replayed(
                    old(self).export.game_state@,
                    old(self).current_move_index - 1,
                    g@,
                )
            },
            old(self).current_move_index == 0 ==> r is None && final(self).current_move_index == 0,
    {
        if self.can_step_backward() {
            self.current_move_index = self.current_move_index - 1;
            Some(self.current_game_state())
        } else {
            None
        }
    }

    /// Jumps to move `index` when the saved game has that many, and returns
    /// the game then; otherwise nothing changes.
    pub fn set_move_index(&mut self, index: usize) -> (r: Option<Game>)
        requires
            index <= old(self).export.game_state@.history.len() ==> replay_defined(
                old(self).export.game_state@,
                index as int,
            ),
        ensures
            final(self).export == old(self).export,
            final(self).playback_status == old(self).playback_status,
            index <= old(self).export.game_state@.history.len() ==> {
                &&& final(self).current_move_index == index
                &&& r matches Some(g) && replayed(old(self).export.game_state@, index as int, g@)
            },
            index > old(self).export.game_state@.history.len() ==> r is None
                && final(self).current_move_index == old(self).current_move_index,
    {
        let max_index = self.export.game_state.board.history.len();
        if index <= max_index {
            self.current_move_index = index;
            Some(self.current_game_state())
        } else {
            None
        }
    }

    /// Starts playing.
    pub fn play(&mut self)
        ensures
            final(self).playback_status == PlaybackStatus::Playing,
            final(self).export == old(self).export,
            final(self).current_move_index == old(self).current_move_index,
    {
        self.playback_status = PlaybackStatus::Playing;
    }

    /// Pauses.
    pub fn pause(&mut self)
        ensures
            final(self).playback_status == PlaybackStatus::Paused,
            final(self).export == old(self).export,
            final(self).current_move_index == old(self).current_move_index,
    {
        self.playback_status = PlaybackStatus::Paused;
    }

    /// Jumps back to the start (see [`ReplayState::set_move_index`]).
    pub fn jump_to_start(&mut self) -> (r: Option<Game>)
        requires
            replay_defined(old(self).export.game_state@, 0),
        ensures
            final(self).export == old(self).export,
            final(self).playback_status == old(self).playback_status,
            final(self).current_move_index == 0,
            r matches Some(g) && replayed(old(self).export.game_state@, 0, g@),
    {
        self.set_move_index(0)
    }

    /// Jumps to the end (see [`ReplayState::set_move_index`]).
    pub fn jump_to_end(&mut self) -> (r: Option<Game>)
        requires
            replay_defined(
                old(self).export.game_state@,
                old(self).export.game_state@.history.len() as int,
            ),
        ensures
            final(self).export == old(self).export,
            final(self).playback_status == old(self).playback_status,
            final(self).current_move_index == old(self).export.game_state@.history.len(),
            r matches Some(g) && replayed(
                old(self).export.game_state@,
                old(self).export.game_state@.history.len() as int,
                g@,
            ),
    {
        let end_index = self.export.game_state.board.history.len();
        self.set_move_index(end_index)
    }
}

/// A replay stepped to move `n` shows exactly the first `n` moves of the
/// saved game on its board.
pub proof fn law_replay_shows_the_first_moves(g: GameView, n: int, r: GameView)
    requires
        0 <= n <= g.history.len(),
        replayed(g, n, r),
    ensures
        r.history == g.history.take(n),
{
    let d = choose|d: Seq<Tile>|
        d.len() == 35 && d.to_multiset() == crate::deck::standard_tiles().to_multiset()
            && #[trigger] replay(new_game(starting_players(g), d), g.history.take(n)) == Some(
            Ok::<GameView, MoveError>(r),
        );
    let start = new_game(starting_players(g), d);
    let moves = g.history.take(n);
    crate::game_laws::law_replay_records_the_moves(start, moves, moves.len() as int);
    assert(moves.take(moves.len() as int) =~= moves);
    assert(start.history + moves =~= moves);
}

} // verus!
