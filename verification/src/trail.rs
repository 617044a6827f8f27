//! The trails that pawns leave behind them.
use vstd::prelude::*;

use crate::board::{PlayerPos, TileEndpoint};
use crate::game_model::TrailView;

verus! {

/// A single segment of a player's trail through one tile.
#[derive(Debug, Clone, Copy, PartialEq, Eq)]
pub struct TrailSegment {
    /// Board cell position (row, col).
    pub board_pos: (usize, usize),
    /// Entry point into this tile (0-7).
    pub entry_point: TileEndpoint,
    /// Exit point from this tile (0-7).
    pub exit_point: TileEndpoint,
}

/// A complete trail for a player.
#[derive(Debug, PartialEq)]
pub struct Trail {
    pub segments: Vec<TrailSegment>,
    pub start_pos: PlayerPos,
    pub end_pos: PlayerPos,
    /// True when the trail ends at the board's edge.
    pub completed: bool,
}

impl View for Trail {
    type V = TrailView;

    open spec fn view(&self) -> TrailView {
        TrailView {
            segments: self.segments@,
            start_pos: self.start_pos,
            end_pos: self.end_pos,
            completed: self.completed,
        }
    }
}

impl Clone for Trail {
    fn clone(&self) -> (r: Trail)
        ensures
            r.segments@ == self.segments@,
            r.start_pos == self.start_pos,
            r.end_pos == self.end_pos,
            r.completed == self.completed,
    {
        Trail {
            segments: self.segments.clone(),
            start_pos: self.start_pos,
            end_pos: self.end_pos,
            completed: self.completed,
        }
    }
}

impl Trail {
    /// An empty trail at `start_pos`.
    pub fn new(start_pos: PlayerPos) -> (r: Self)
        ensures
            r.segments@ == Seq::<TrailSegment>::empty(),
            r.start_pos == start_pos,
            r.end_pos == start_pos,
            !r.completed,
    {
        Self { segments: Vec::new(), start_pos, end_pos: start_pos, completed: false }
    }

    /// Returns the number of segments in this trail.
    pub fn length(&self) -> (r: usize)
        ensures
            r == self.segments@.len(),
    {
        self.segments.len()
    }

    /// Add a segment to the trail.
    pub fn add_segment(&mut self, segment: TrailSegment)
        ensures
            final(self).segments@ == old(self).segments@.push(segment),
            final(self).start_pos == old(self).start_pos,
            final(self).end_pos == old(self).end_pos,
            final(self).completed == old(self).completed,
    {
        self.segments.push(segment);
    }
}

} // verus!
