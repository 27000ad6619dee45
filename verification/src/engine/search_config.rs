//! Search configuration: depth, threading and the feature switches used
//! for benchmarking.
use vstd::prelude::*;

verus! {

/// Configuration for the search engine.
#[derive(Clone, Copy, Debug)]
pub struct SearchConfig {
    /// Search depth.
    pub depth: i32,
    /// Number of MultiPV passes to collect the top moves.
    pub top_moves: usize,
    /// Target number of distinct PV lines to collect across all passes.
    pub expected_leaves: usize,
    /// Hard cap on the number of MultiPV passes.
    pub max_passes: usize,
    /// Disable the transposition table.
    pub no_tt: bool,
    /// Disable alpha-beta pruning (pure minimax).
    pub no_alpha_beta: bool,
    /// Disable MVV-LVA and history move ordering.
    pub no_move_ordering: bool,
    /// Disable the killer move heuristic.
    pub no_killers: bool,
    /// Record the search tree for debugging.
    pub debug_tree: bool,
    /// Number of threads for parallel search.
    pub threads: usize,
}

/// The number of CPUs available to this process.
/// Trusted: `num_cpus::get` counts the logical CPUs this process may run
/// on, and its documentation promises at least 1.  The count itself
/// depends on the machine and is not stated.
#[verifier::external_body]
fn available_cpus() -> (n: usize)
    ensures
        n >= 1,
{
    num_cpus::get()
}

impl Default for SearchConfig {
    /// Depth 4, three top moves from at most three passes aiming at five
    /// lines, every feature on, one thread per CPU.
    fn default() -> (c: Self)
        ensures
            c.depth == 4,
            c.top_moves == 3,
            c.expected_leaves == 5,
            c.max_passes == 3,
            !c.no_tt,
            !c.no_alpha_beta,
            !c.no_move_ordering,
            !c.no_killers,
            !c.debug_tree,
            c.threads >= 1,
    {
        let cpus = available_cpus();
        SearchConfig {
            depth: 4,
            top_moves: 3,
            expected_leaves: 5,
            max_passes: 3,
            no_tt: false,
            no_alpha_beta: false,
            no_move_ordering: false,
            no_killers: false,
            debug_tree: false,
            threads: if cpus >= 1 { cpus } else { 1 },
        }
    }
}

} // verus!
