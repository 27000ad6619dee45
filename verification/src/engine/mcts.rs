//! Results of Monte Carlo playouts.
use vstd::prelude::*;
use rand::Rng;
use crate::board::{Board, BoardModel};
use crate::game::{all_moves, apply_model, Game, Move, PotentialMove};
use crate::legality::{lemma_all_moves_from_mover, lemma_generated_move_applies};

verus! {

/// Result of a simulation.
#[derive(Clone, Copy, Debug, PartialEq, Eq, Structural)]
pub enum SimulationResult {
    WhiteWin,
    BlackWin,
    Draw,
}

impl SimulationResult {
    /// The result a board stands for: the winner of a finished game, a
    /// draw for a drawn game, and a draw for a game still running.
    pub fn from_board(board: &Board) -> (r: Self)
        ensures
            r == if board@.is_over() {
                if board@.white_won {
                    SimulationResult::WhiteWin
                } else if board@.drawn {
                    SimulationResult::Draw
                } else {
                    SimulationResult::BlackWin
                }
            } else {
                SimulationResult::Draw
            },
    {
        if board.is_game_over() {
            if board.white_wins() {
                SimulationResult::WhiteWin
            } else if board.is_draw() {
                SimulationResult::Draw
            } else {
                SimulationResult::BlackWin
            }
        } else {
            SimulationResult::Draw
        }
    }
}

/// The result a finished or stopped playout stands for.
pub open spec fn result_of_board(m: BoardModel) -> SimulationResult {
    if m.is_over() {
        if m.white_won {
            SimulationResult::WhiteWin
        } else if m.drawn {
            SimulationResult::Draw
        } else {
            SimulationResult::BlackWin
        }
    } else {
        SimulationResult::Draw
    }
}

/// The move a playout makes with the `j`-th potential move: the top piece
/// alone only where that is forced.
pub open spec fn playout_move(m: BoardModel, j: int) -> Move {
    let pm = all_moves(m)[j];
    Move { from: pm.from, to: pm.to, unstack: pm.force_unstack }
}

/// The position after the playout moves picked by `picks`, each the index
/// of a potential move of the position it is played in.
pub open spec fn played_out(m: BoardModel, picks: Seq<int>) -> BoardModel
    decreases picks.len(),
{
    if picks.len() == 0 {
        m
    } else {
        let before = played_out(m, picks.drop_last());
        apply_model(before, playout_move(before, picks.last()))
    }
}

/// Every pick names a potential move of the position it is played in.
pub open spec fn picks_valid(m: BoardModel, picks: Seq<int>) -> bool
    decreases picks.len(),
{
    picks.len() == 0 || (picks_valid(m, picks.drop_last()) && 0 <= picks.last() < all_moves(
        played_out(m, picks.drop_last()),
    ).len())
}

/// A random index below `n`.
/// Trusted: `rand::Rng::gen_range` on the thread-local generator returns
/// a value of the half-open range; the range is never empty here.  Which
/// value comes back is left open.
#[verifier::external_body]
fn random_index(n: usize) -> (i: usize)
    requires
        n > 0,
    ensures
        i < n,
{
    rand::thread_rng().gen_range(0..n)
}

/// Play the `idx`-th potential move of `game` as a playout move.
fn play_pick(game: &mut Game, moves: &Vec<PotentialMove>, idx: usize)
    requires
        old(game).board@.wf(),
        moves@ == all_moves(old(game).board@),
        idx < moves.len(),
    ensures
        final(game).board@ == apply_model(old(game).board@, playout_move(old(game).board@, idx as int)),
        final(game).board@.wf(),
{
    let ghost m = game.board@;
    let potential_move = moves[idx];
    proof {
        lemma_all_moves_from_mover(m, idx as int);
        assert(potential_move.force_unstack ==> potential_move.unstackable);
        lemma_generated_move_applies(m, idx as int, potential_move.force_unstack);
    }
    let random_move = potential_move.to_move(potential_move.force_unstack);
    assert(random_move == playout_move(m, idx as int));
    match game.apply_move(random_move) {
        Ok(()) => {},
        Err(_) => {
            proof {
                assert(false);
            }
        },
    }
}

/// The draws as integers.
pub open spec fn draws_int(draws: Seq<usize>) -> Seq<int> {
    draws.map_values(|x: usize| x as int)
}

/// How many of `draws` a playout from `m` uses, from the `j`-th on: it
/// stops when the draws or the `max_depth` moves run out, when the game is
/// over, or at a draw that names no potential move (in particular where
/// no move is left).
pub open spec fn playout_steps(m: BoardModel, draws: Seq<int>, max_depth: int, j: int) -> int
    decreases draws.len() - j,
{
    if j < 0 || j >= draws.len() || j >= max_depth {
        j
    } else {
        let cur = played_out(m, draws.take(j));
        if cur.is_over() || !(0 <= draws[j] < all_moves(cur).len()) {
            j
        } else {
            playout_steps(m, draws, max_depth, j + 1)
        }
    }
}

/// The result of the playout from `board` that plays, at its `j`-th move,
/// the potential move with index `draws[j]`, as `random_playout` does with
/// the indices it draws at random.
pub fn playout_from_draws(board: &Board, draws: &Vec<usize>, max_depth: u32) -> (r: SimulationResult)
    requires
        board@.wf(),
    ensures
        r == result_of_board(
            played_out(board@, draws_int(draws@).take(playout_steps(board@, draws_int(draws@), max_depth as int, 0))),
        ),
{
    let ghost ds = draws_int(draws@);
    let mut game = Game::from_board(*board);
    let mut j: usize = 0;
    let mut stopped = false;
    proof {
        assert(ds.take(0) =~= Seq::<int>::empty());
    }
    while !stopped && j < draws.len() && j < max_depth as usize && !game.board.is_game_over()
        invariant
            ds == draws_int(draws@),
            ds.len() == draws@.len(),
            j <= draws.len(),
            game.board@.wf(),
            game.board@ == played_out(board@, ds.take(j as int)),
            !stopped ==> playout_steps(board@, ds, max_depth as int, 0) == playout_steps(
                board@,
                ds,
                max_depth as int,
                j as int,
            ),
            stopped ==> playout_steps(board@, ds, max_depth as int, 0) == j,
        decreases draws.len() - j, if stopped { 0int } else { 1int },
    {
        let moves = game.get_all_moves();
        let idx = draws[j];
        if idx >= moves.len() {
            stopped = true;
        } else {
            let ghost before = game.board@;
            play_pick(&mut game, &moves, idx);
            proof {
                let next = ds.take(j + 1);
                assert(next.drop_last() =~= ds.take(j as int));
                assert(next.last() == idx as int);
            }
            j += 1;
        }
    }
    SimulationResult::from_board(&game.board)
}

/// Play random moves from `board` until the game ends, no move is left, or
/// `max_depth` moves were played, and report the result.  Whichever moves
/// are drawn, the result is that of a position reached by at most
/// `max_depth` playout moves, and one where the playout had to stop.
pub fn random_playout(board: &Board, max_depth: u32) -> (r: SimulationResult)
    requires
        board@.wf(),
    ensures
        exists|picks: Seq<int>|
            #![trigger played_out(board@, picks)]
            picks.len() <= max_depth && picks_valid(board@, picks) && r == result_of_board(
                played_out(board@, picks),
            ) && (picks.len() < max_depth ==> played_out(board@, picks).is_over() || all_moves(
                played_out(board@, picks),
            ).len() == 0),
{
    let mut game = Game::from_board(*board);
    let mut depth: u32 = 0;
    let mut stopped = false;
    let ghost mut picks: Seq<int> = Seq::empty();
    while !stopped && !game.board.is_game_over() && depth < max_depth
        invariant
            game.board@.wf(),
            depth <= max_depth,
            picks.len() == depth,
            picks_valid(board@, picks),
            played_out(board@, picks) == game.board@,
            stopped ==> all_moves(game.board@).len() == 0,
        decreases max_depth - depth, if stopped { 0int } else { 1int },
    {
        let legal_moves = game.get_all_moves();
        if legal_moves.len() == 0 {
            stopped = true;
        } else {
            let random_idx = random_index(legal_moves.len());
            let ghost m = game.board@;
            play_pick(&mut game, &legal_moves, random_idx);
            proof {
                let next = picks.push(random_idx as int);
                assert(next.drop_last() =~= picks);
                picks = next;
            }
            depth += 1;
        }
    }
    proof {
        assert(played_out(board@, picks) == game.board@);
    }
    SimulationResult::from_board(&game.board)
}

} // verus!
