//! Tuning constants of the evaluation and the search.
use vstd::prelude::*;

verus! {

/// Value of the King in the material count.
pub const KING_VALUE: i32 = 1000;

/// Score of a lost position (the King was captured).
pub const MATE_SCORE: i32 = 100_000;

/// Weight of each square the King can move to.
pub const KING_MOBILITY_WEIGHT: i32 = 2;

/// Weight of each square a piece can reach.
pub const MOBILITY_WEIGHT: i32 = 1;

/// Weight of the closeness of a piece to the centre.
pub const CENTRALITY_WEIGHT: i32 = 1;

/// Weight of each rank a Soldier or Ballista has advanced.
pub const ADVANCE_WEIGHT: i32 = 2;

/// Bonus of the side to move.
pub const TEMPO_BONUS: i32 = 10;

/// Margin of delta pruning in the quiescence search.
pub const DELTA_MARGIN: i32 = 200;

/// Killer moves kept per depth.
pub const KILLER_SLOTS: usize = 2;

/// Deepest depth of the killer table.
pub const MAX_KILLER_DEPTH: usize = 64;

/// Slots of the transposition table.
pub const TT_SIZE: usize = 65536;

/// Default search depth, in plies.
pub const MAX_DEPTH: usize = 4;

} // verus!
