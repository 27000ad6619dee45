//! Engine configuration.
use vstd::prelude::*;
use crate::engine::constants::MAX_DEPTH;

verus! {

/// What the engine is asked to do: how deep Stage 1 searches, and on how
/// many threads.
#[derive(Clone, Copy, Debug, PartialEq, Eq, Structural)]
pub struct EngineConfig {
    pub stage1_depth: i32,
    pub threads: usize,
}

impl Default for EngineConfig {
    /// Stage 1 searches to the default depth, on one thread.
    fn default() -> (c: Self)
        ensures
            c.stage1_depth == MAX_DEPTH as i32,
            c.threads == 1,
    {
        EngineConfig { stage1_depth: MAX_DEPTH as i32, threads: 1 }
    }
}

/// Weights of the heuristic evaluation used by the playout engine:
/// material by piece discriminant (1 Soldier, 2 Jester, 3 Commander,
/// 4 Paladin, 5 Guard, 6 Dragon, 7 Ballista, 8 King), a bonus per step
/// closer to the centre, and a bonus per rank advanced by Soldiers and
/// Ballistas.
#[derive(Clone, Copy, Debug)]
pub struct ScoringWeights {
    pub material: [i32; 8],
    pub centrality_wt: i32,
    pub advance_wt: i32,
}

impl ScoringWeights {
    /// The material value of the piece with discriminant `disc`; 0 for an
    /// unknown discriminant.
    pub open spec fn material_of(&self, disc: u32) -> int {
        if 1 <= disc <= 8 {
            self.material@[disc - 1] as int
        } else {
            0
        }
    }

    pub fn material_value(&self, disc: u32) -> (v: i32)
        ensures
            v == self.material_of(disc),
    {
        if disc >= 1 && disc <= 8 {
            self.material[(disc - 1) as usize]
        } else {
            0
        }
    }
}

impl Default for ScoringWeights {
    /// The material values of the static evaluation, one point per step
    /// towards the centre, two per rank advanced.
    fn default() -> (w: Self)
        ensures
            w.material@ == seq![10i32, 40, 60, 30, 25, 40, 45, 1000],
            w.centrality_wt == 1,
            w.advance_wt == 2,
    {
        ScoringWeights { material: [10, 40, 60, 30, 25, 40, 45, 1000], centrality_wt: 1, advance_wt: 2 }
    }
}

} // verus!
