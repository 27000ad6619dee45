//! Search: killer moves, loop detection and the quiescence search.
pub mod killer;
pub mod loop_detection;
pub mod quiescence;

use vstd::prelude::*;
use crate::game::Move;

verus! {

/// A move paired with its score, from the root side to move's point of
/// view: higher is better for the root player.
#[derive(Clone, Copy, Debug)]
pub struct ScoredMove {
    pub mv: Move,
    pub score: i32,
}

} // verus!
