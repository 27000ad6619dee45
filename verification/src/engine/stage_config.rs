//! Stage configuration for the two-stage search architecture.
//!
//! `StageConfig` drives the behaviour of a search stage at runtime: both
//! stages share the same alpha-beta core, and the configuration says what is
//! enabled.
use vstd::prelude::*;

verus! {

/// Configuration that controls the behaviour of a search stage.
#[derive(Clone, Copy, Debug, PartialEq, Eq, Structural)]
pub struct StageConfig {
    /// Search depth.
    pub depth: u8,
    /// If true, an odd depth is searched one ply deeper (Stage 2 only).
    pub force_even_depth: bool,
    /// Enable alpha-beta pruning; when false, runs pure minimax.
    pub alpha_beta: bool,
    /// Enable MVV-LVA and history move ordering.
    pub move_ordering: bool,
    /// Enable the killer move heuristic.
    pub killer_moves: bool,
    /// Enable the transposition table.
    pub transposition_table: bool,
    /// Enable null move pruning (Stage 2 only).
    pub null_move_pruning: bool,
    /// Null move reduction R.
    pub null_move_reduction: u8,
    /// Enable Late Move Reductions (Stage 2 only).
    pub lmr: bool,
    /// Extend captures by one ply at leaf nodes (Stage 2 only).
    pub selective_extensions: bool,
    /// Hard cap on the number of MultiPV passes (Stage 1 only).
    pub max_passes: u8,
    /// Target number of distinct PV lines to collect across all passes.
    pub expected_leaves: usize,
    /// Record the search tree for debugging.
    pub tree_recorder: bool,
}

/// When even depths are forced the depth searched is even, and never more
/// than one ply deeper than configured.
pub proof fn lemma_forced_depth_is_even(c: StageConfig)
    requires
        c.force_even_depth,
    ensures
        c.effective_depth_of() % 2 == 0,
        c.depth <= c.effective_depth_of() <= c.depth + 1,
{
}

impl StageConfig {
    /// The Stage 1 defaults: exhaustive alpha-beta with every ordering aid
    /// and none of the Stage 2 reductions.
    pub open spec fn stage1_spec() -> StageConfig {
        StageConfig {
            depth: 4,
            force_even_depth: false,
            alpha_beta: true,
            move_ordering: true,
            killer_moves: true,
            transposition_table: true,
            null_move_pruning: false,
            null_move_reduction: 2,
            lmr: false,
            selective_extensions: false,
            max_passes: 3,
            expected_leaves: 5,
            tree_recorder: false,
        }
    }

    /// The Stage 2 defaults: a deeper, even-depth search with null move
    /// pruning, late move reductions and selective extensions.
    pub open spec fn stage2_spec() -> StageConfig {
        StageConfig {
            depth: 6,
            force_even_depth: true,
            alpha_beta: true,
            move_ordering: true,
            killer_moves: true,
            transposition_table: true,
            null_move_pruning: true,
            null_move_reduction: 2,
            lmr: true,
            selective_extensions: true,
            max_passes: 1,
            expected_leaves: 1,
            tree_recorder: false,
        }
    }

    /// Default configuration for Stage 1 search.
    pub fn stage1() -> (c: Self)
        ensures
            c == Self::stage1_spec(),
    {
        StageConfig {
            depth: 4,
            force_even_depth: false,
            alpha_beta: true,
            move_ordering: true,
            killer_moves: true,
            transposition_table: true,
            null_move_pruning: false,
            null_move_reduction: 2,
            lmr: false,
            selective_extensions: false,
            max_passes: 3,
            expected_leaves: 5,
            tree_recorder: false,
        }
    }

    /// Default configuration for Stage 2 search.
    pub fn stage2() -> (c: Self)
        ensures
            c == Self::stage2_spec(),
    {
        StageConfig {
            depth: 6,
            force_even_depth: true,
            alpha_beta: true,
            move_ordering: true,
            killer_moves: true,
            transposition_table: true,
            null_move_pruning: true,
            null_move_reduction: 2,
            lmr: true,
            selective_extensions: true,
            max_passes: 1,
            expected_leaves: 1,
            tree_recorder: false,
        }
    }

    /// The depth searched: an odd depth is raised by one when even depths
    /// are forced.
    pub open spec fn effective_depth_of(self) -> int {
        if self.force_even_depth && self.depth % 2 != 0 {
            self.depth + 1
        } else {
            self.depth as int
        }
    }

    /// Effective search depth: an odd depth is raised by one when even
    /// depths are forced.
    pub fn effective_depth(&self) -> (d: u8)
        requires
            self.depth < 255 || !self.force_even_depth,
        ensures
            d == self.effective_depth_of(),
    {
        let d = self.depth;
        if self.force_even_depth && d % 2 != 0 {
            d + 1
        } else {
            d
        }
    }
}

} // verus!
