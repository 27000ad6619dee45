//! Quiescence search: extend the search at noisy positions to avoid the
//! horizon effect.  Only captures are searched; every capture removes at
//! least one piece from the board, which is what makes the search finite.
use vstd::prelude::*;
use crate::board::{lemma_board_len, BoardModel, Piece, PieceType, Position};
use crate::engine::constants::{DELTA_MARGIN, KING_VALUE};
use crate::engine::eval::material::{stack_base_value, stack_worth};
use crate::engine::eval::{absolute_score, evaluate_absolute};
use crate::engine::tree_recorder::{nodes_view, TreeRecorder};
use crate::game::{
    after_lift, all_moves, apply_model, captures_king, landed_piece, move_applicable,
    move_on_board, move_text, moving_piece, promotion, Game, Move, PotentialMove,
};
use crate::legality::{
    legal_moves, legal_prefix, lemma_all_moves_from_mover, lemma_generated_move_applies, pm_moves,
    unstack_allowed,
};

verus! {

broadcast use lemma_board_len;

// ---------------------------------------------------------------------------
// Which moves are searched
// ---------------------------------------------------------------------------

/// `to` holds a piece of the side not to move.
pub open spec fn is_capture_square(m: BoardModel, to: Position) -> bool {
    match m.cells[to.index()] {
        Some(t) => t.color != m.color_to_move(),
        None => false,
    }
}

/// The captures among the moves of the first `n` potential moves, in
/// generation order.
pub open spec fn captures_prefix(m: BoardModel, n: int) -> Seq<Move>
    decreases n,
{
    if n <= 0 {
        seq![]
    } else {
        let pm = all_moves(m)[n - 1];
        captures_prefix(m, n - 1) + if is_capture_square(m, pm.to) {
            pm_moves(pm)
        } else {
            seq![]
        }
    }
}

/// The captures of the side to move, in generation order.
pub open spec fn capture_moves(m: BoardModel) -> Seq<Move> {
    captures_prefix(m, all_moves(m).len() as int)
}

/// The moves that land on a piece of the side not to move.
pub open spec fn lands_on_enemy(m: BoardModel) -> spec_fn(Move) -> bool {
    |mv: Move| is_capture_square(m, mv.to)
}

proof fn lemma_pm_moves_filter(m: BoardModel, pm: PotentialMove)
    ensures
        pm_moves(pm).filter(lands_on_enemy(m)) == if is_capture_square(m, pm.to) {
            pm_moves(pm)
        } else {
            seq![]
        },
{
    reveal_with_fuel(Seq::filter, 3);
    let ms = pm_moves(pm);
    assert(ms.drop_last().drop_last().len() == 0 || ms.drop_last().len() == 0);
    if ms.len() == 2 {
        assert(ms.drop_last().drop_last() =~= Seq::<Move>::empty());
    } else {
        assert(ms.drop_last() =~= Seq::<Move>::empty());
    }
    assert(pm_moves(pm).filter(lands_on_enemy(m)) =~= if is_capture_square(m, pm.to) {
        pm_moves(pm)
    } else {
        seq![]
    });
}

proof fn lemma_captures_prefix_filter(m: BoardModel, n: int)
    requires
        0 <= n <= all_moves(m).len(),
    ensures
        captures_prefix(m, n) == legal_prefix(m, n).filter(lands_on_enemy(m)),
    decreases n,
{
    if n <= 0 {
        reveal(Seq::filter);
        assert(legal_prefix(m, n).filter(lands_on_enemy(m)) =~= Seq::<Move>::empty());
    } else {
        lemma_captures_prefix_filter(m, n - 1);
        let pm = all_moves(m)[n - 1];
        Seq::filter_distributes_over_add(legal_prefix(m, n - 1), pm_moves(pm), lands_on_enemy(m));
        lemma_pm_moves_filter(m, pm);
    }
}

/// The quiescence search searches every capture: its moves are exactly
/// the legal moves (moving a stack whole or its top piece alone) that
/// land on a piece of the other side, in the order they are generated.
pub proof fn lemma_captures_are_legal_captures(m: BoardModel)
    ensures
        capture_moves(m) == legal_moves(m).filter(lands_on_enemy(m)),
{
    lemma_captures_prefix_filter(m, all_moves(m).len() as int);
}

// ---------------------------------------------------------------------------
// Piece count, the measure that captures decrease
// ---------------------------------------------------------------------------

/// Pieces on a square: two for a stack.
pub open spec fn piece_units(c: Option<Piece>) -> nat {
    match c {
        None => 0,
        Some(p) => if p.top is Some {
            2
        } else {
            1
        },
    }
}

/// Pieces on the first `n` squares.
pub open spec fn units_prefix(cells: Seq<Option<Piece>>, n: int) -> nat
    decreases n,
{
    if n <= 0 {
        0
    } else {
        units_prefix(cells, n - 1) + piece_units(cells[n - 1])
    }
}

/// Pieces on the board.
pub open spec fn board_units(m: BoardModel) -> nat {
    units_prefix(m.cells, 81)
}

proof fn lemma_units_prefix_bound(cells: Seq<Option<Piece>>, n: int)
    requires
        0 <= n,
    ensures
        units_prefix(cells, n) <= 2 * n,
    decreases n,
{
    if n > 0 {
        lemma_units_prefix_bound(cells, n - 1);
    }
}

/// A board holds at most two pieces per square.
pub proof fn lemma_board_units_bound(m: BoardModel)
    ensures
        board_units(m) <= 162,
{
    lemma_units_prefix_bound(m.cells, 81);
}

proof fn lemma_units_update(cells: Seq<Option<Piece>>, k: int, v: Option<Piece>, n: int)
    requires
        0 <= k < n <= cells.len(),
    ensures
        units_prefix(cells.update(k, v), n) + piece_units(cells[k]) == units_prefix(cells, n)
            + piece_units(v),
    decreases n,
{
    if n - 1 > k {
        lemma_units_update(cells, k, v, n - 1);
    } else {
        assert(n - 1 == k);
        lemma_units_same(cells, cells.update(k, v), k);
    }
}

proof fn lemma_units_same(a: Seq<Option<Piece>>, b: Seq<Option<Piece>>, n: int)
    requires
        0 <= n <= a.len(),
        n <= b.len(),
        forall|i: int| 0 <= i < n ==> a[i] == b[i],
    ensures
        units_prefix(a, n) == units_prefix(b, n),
    decreases n,
{
    if n > 0 {
        lemma_units_same(a, b, n - 1);
    }
}

/// Each capture comes from a generated potential move, with an allowed
/// unstack choice, and lands on a square of the other side.
proof fn lemma_captures_prefix_origin(m: BoardModel, n: int, k: int)
    requires
        m.wf(),
        0 <= n <= all_moves(m).len(),
        0 <= k < captures_prefix(m, n).len(),
    ensures
        exists|j: int|
            #![trigger all_moves(m)[j]]
            0 <= j < n && {
                let pm = all_moves(m)[j];
                let mv = captures_prefix(m, n)[k];
                &&& mv.from == pm.from
                &&& mv.to == pm.to
                &&& unstack_allowed(pm, mv.unstack)
                &&& is_capture_square(m, pm.to)
            },
    decreases n,
{
    let prev = captures_prefix(m, n - 1);
    if k < prev.len() {
        lemma_captures_prefix_origin(m, n - 1, k);
        let j = choose|j: int|
            #![trigger all_moves(m)[j]]
            0 <= j < n - 1 && {
                let pm = all_moves(m)[j];
                let mv = captures_prefix(m, n - 1)[k];
                &&& mv.from == pm.from
                &&& mv.to == pm.to
                &&& unstack_allowed(pm, mv.unstack)
                &&& is_capture_square(m, pm.to)
            };
        assert(captures_prefix(m, n)[k] == prev[k]);
        assert(all_moves(m)[j] == all_moves(m)[j]);
    } else {
        let pm = all_moves(m)[n - 1];
        lemma_all_moves_from_mover(m, n - 1);
        assert(is_capture_square(m, pm.to));
        assert(!pm.force_unstack);
        let mv = captures_prefix(m, n)[k];
        assert(mv == pm_moves(pm)[k - prev.len()]);
        assert(mv.from == pm.from && mv.to == pm.to && unstack_allowed(pm, mv.unstack));
    }
}

/// A capture of a well-formed position can be played, keeps the position
/// well formed, and takes at least one piece off the board.
pub proof fn lemma_capture_shrinks(m: BoardModel, k: int)
    requires
        m.wf(),
        0 <= k < capture_moves(m).len(),
    ensures
        ({
            let mv = capture_moves(m)[k];
            &&& move_on_board(mv.from, mv.to)
            &&& move_applicable(m, mv)
            &&& apply_model(m, mv).wf()
            &&& board_units(apply_model(m, mv)) < board_units(m)
            &&& is_capture_square(m, mv.to)
            &&& mv.from != mv.to
            &&& m.cells[mv.from.index()] matches Some(p) && p.color == m.color_to_move()
            &&& (captures_king(m, mv) <==> m.cells[mv.to.index()].unwrap().bottom
                == PieceType::King)
        }),
{
    let n = all_moves(m).len() as int;
    lemma_captures_prefix_origin(m, n, k);
    let j = choose|j: int|
        #![trigger all_moves(m)[j]]
        0 <= j < n && {
            let pm = all_moves(m)[j];
            let mv = captures_prefix(m, n)[k];
            &&& mv.from == pm.from
            &&& mv.to == pm.to
            &&& unstack_allowed(pm, mv.unstack)
            &&& is_capture_square(m, pm.to)
        };
    let mv = capture_moves(m)[k];
    lemma_generated_move_applies(m, j, mv.unstack);
    lemma_all_moves_from_mover(m, j);
    let pm = all_moves(m)[j];
    assert(mv == Move { from: pm.from, to: pm.to, unstack: mv.unstack });
    let c = m.cells;
    let p = c[mv.from.index()].unwrap();
    let d = c[mv.to.index()].unwrap();
    let lifted = after_lift(c, mv);
    let from_cell = if mv.unstack {
        Some(Piece { color: p.color, bottom: p.bottom, top: None })
    } else {
        None
    };
    assert(lifted == c.update(mv.from.index(), from_cell));
    lemma_units_update(c, mv.from.index(), from_cell, 81);
    assert(lifted[mv.to.index()] == c[mv.to.index()]);
    let landed = landed_piece(m, mv);
    assert(landed == moving_piece(p, mv.unstack));
    let final_piece = match promotion(landed, mv.to) {
        Some(q) => q,
        None => landed,
    };
    assert(piece_units(Some(final_piece)) == piece_units(Some(landed)));
    lemma_units_update(lifted, mv.to.index(), Some(final_piece), 81);
    assert(apply_model(m, mv).cells == lifted.update(mv.to.index(), Some(final_piece)));
}

// ---------------------------------------------------------------------------
// The value of the search
// ---------------------------------------------------------------------------

/// The static evaluation from the side to move's point of view.
pub open spec fn stand_pat_score(m: BoardModel) -> int {
    if m.white_to_move {
        absolute_score(m)
    } else {
        -absolute_score(m)
    }
}

/// Material that a move onto `to` would capture.
pub open spec fn capture_gain(m: BoardModel, to: Position) -> int {
    match m.cells[to.index()] {
        Some(t) => if t.color != m.color_to_move() {
            stack_worth(t)
        } else {
            0
        },
        None => 0,
    }
}

/// The quiescence value of `m` within the window (`alpha`, `beta`), from
/// the side to move's point of view, at `depth` plies from the root.
pub open spec fn q_value(m: BoardModel, alpha: int, beta: int, depth: int) -> int
    decreases board_units(m), capture_moves(m).len() + 1,
    when m.wf()
{
    let stand_pat = stand_pat_score(m);
    if stand_pat >= beta {
        stand_pat
    } else {
        q_scan(m, 0, if alpha >= stand_pat { alpha } else { stand_pat }, beta, stand_pat, depth)
    }
}

/// The rest of the capture loop from the `i`-th capture on, with the
/// window's lower bound raised to `alpha`.
pub open spec fn q_scan(m: BoardModel, i: int, alpha: int, beta: int, stand_pat: int, depth: int) -> int
    decreases board_units(m), capture_moves(m).len() - i,
    when m.wf() && 0 <= i
{
    let caps = capture_moves(m);
    if i >= caps.len() {
        alpha
    } else {
        let mv = caps[i];
        if stand_pat + capture_gain(m, mv.to) + DELTA_MARGIN < alpha {
            q_scan(m, i + 1, alpha, beta, stand_pat, depth)
        } else if captures_king(m, mv) {
            KING_VALUE - depth
        } else {
            proof {
                lemma_capture_shrinks(m, i);
            }
            let score = -q_value(apply_model(m, mv), -beta, -alpha, depth + 1);
            if score >= beta {
                score
            } else {
                q_scan(
                    m,
                    i + 1,
                    if alpha >= score { alpha } else { score },
                    beta,
                    stand_pat,
                    depth,
                )
            }
        }
    }
}

/// The nodes the quiescence search of `m` records, in the order it
/// records them, when `n` nodes were recorded before and the node searched
/// has id `parent`.  Each capture searched (the King's capture ends the
/// search unrecorded) is a node under `parent`, followed by the nodes
/// below it; its score is the value it was searched to.  While the ids
/// would run out, a capture is searched without a node of its own, and the
/// nodes below it hang from id 0.
pub open spec fn q_trace(
    m: BoardModel,
    alpha: int,
    beta: int,
    depth: int,
    parent: u64,
    n: int,
) -> Seq<(u64, u64, u8, Seq<char>, int)>
    decreases board_units(m), capture_moves(m).len() + 1,
    when m.wf()
{
    let stand_pat = stand_pat_score(m);
    if stand_pat >= beta {
        seq![]
    } else {
        q_scan_trace(
            m,
            0,
            if alpha >= stand_pat { alpha } else { stand_pat },
            beta,
            stand_pat,
            depth,
            parent,
            n,
        )
    }
}

/// The nodes recorded by the rest of the capture loop, from the `i`-th
/// capture on, with the window's lower bound raised to `alpha`, after `n`
/// nodes.
pub open spec fn q_scan_trace(
    m: BoardModel,
    i: int,
    alpha: int,
    beta: int,
    stand_pat: int,
    depth: int,
    parent: u64,
    n: int,
) -> Seq<(u64, u64, u8, Seq<char>, int)>
    decreases board_units(m), capture_moves(m).len() - i,
    when m.wf() && 0 <= i
{
    let caps = capture_moves(m);
    if i >= caps.len() {
        seq![]
    } else {
        let mv = caps[i];
        if stand_pat + capture_gain(m, mv.to) + DELTA_MARGIN < alpha {
            q_scan_trace(m, i + 1, alpha, beta, stand_pat, depth, parent, n)
        } else if captures_king(m, mv) {
            seq![]
        } else {
            proof {
                lemma_capture_shrinks(m, i);
            }
            let child = apply_model(m, mv);
            let room = n + 2 <= u64::MAX;
            let id: u64 = if room { (n + 1) as u64 } else { 0 };
            let first = if room { n + 1 } else { n };
            let below = q_trace(child, -beta, -alpha, depth + 1, id, first);
            let score = -q_value(child, -beta, -alpha, depth + 1);
            let here = if room {
                seq![(id, parent, depth as u8, move_text(mv), score)]
            } else {
                seq![]
            };
            let rest = if score >= beta {
                seq![]
            } else {
                q_scan_trace(
                    m,
                    i + 1,
                    if alpha >= score { alpha } else { score },
                    beta,
                    stand_pat,
                    depth,
                    parent,
                    first + below.len(),
                )
            };
            here + below + rest
        }
    }
}

/// The largest magnitude a quiescence value within this window can have.
pub open spec fn q_bound(alpha: int, beta: int) -> int {
    let a = if alpha >= 0 { alpha } else { -alpha };
    let b = if beta >= 0 { beta } else { -beta };
    let ab = if a >= b { a } else { b };
    if ab >= 1_000_000 { ab } else { 1_000_000 }
}

// ---------------------------------------------------------------------------
// Executable search
// ---------------------------------------------------------------------------

/// Material that `mv` would capture: the value of an enemy stack on its
/// destination, else nothing.
fn estimate_capture_gain(mv: &Move, game: &Game) -> (g: i32)
    requires
        mv.to.is_valid(),
    ensures
        g == capture_gain(game.board@, mv.to),
        0 <= g <= 2000,
{
    match game.board.get_piece(&mv.to) {
        Some(p) => if p.color != game.color_to_move() {
            stack_base_value(p)
        } else {
            0
        },
        None => 0,
    }
}

/// The captures of the side to move, in generation order.
fn collect_captures(game: &Game) -> (caps: Vec<Move>)
    requires
        game.board@.wf(),
    ensures
        caps@ == capture_moves(game.board@),
{
    let ghost m = game.board@;
    let potential = game.get_all_moves();
    let mut caps: Vec<Move> = Vec::new();
    let mut i: usize = 0;
    while i < potential.len()
        invariant
            m == game.board@,
            m.wf(),
            potential@ == all_moves(m),
            i <= potential.len(),
            caps@ == captures_prefix(m, i as int),
        decreases potential.len() - i,
    {
        let pm = potential[i];
        proof {
            lemma_all_moves_from_mover(m, i as int);
        }
        let capture = match game.board.get_piece(&pm.to) {
            Some(t) => t.color != game.color_to_move(),
            None => false,
        };
        if capture {
            if pm.force_unstack {
                caps.push(pm.to_move(true));
            } else {
                caps.push(pm.to_move(false));
                if pm.unstackable {
                    caps.push(pm.to_move(true));
                }
            }
        }
        proof {
            assert(all_moves(m)[i as int] == pm);
        }
        i += 1;
    }
    caps
}

/// Quiescence search from the current position.
///
/// `alpha` and `beta` are NegaMax-relative bounds; the result is a
/// NegaMax-relative score.  When a recorder is given, every searched capture
/// is recorded as a child of `parent_id`, with its score, as `q_trace`
/// says.  The game is left as it was.
pub fn quiescence(
    game: &mut Game,
    alpha: i32,
    beta: i32,
    recorder: Option<&mut TreeRecorder>,
    depth: usize,
    parent_id: u64,
) -> (r: i32)
    requires
        old(game).board@.wf(),
        alpha > i32::MIN,
        beta > i32::MIN,
        depth + board_units(old(game).board@) < 1_000_000,
        recorder matches Some(rec) ==> rec.wf(),
    ensures
        *final(game) == *old(game),
        r == q_value(old(game).board@, alpha as int, beta as int, depth as int),
        -q_bound(alpha as int, beta as int) <= r <= q_bound(alpha as int, beta as int),
        recorder matches Some(rec) ==> {
            &&& final(rec).wf()
            &&& nodes_view(final(rec).records()) == nodes_view(rec.records()) + q_trace(
                old(game).board@,
                alpha as int,
                beta as int,
                depth as int,
                parent_id,
                rec.records().len() as int,
            )
        },
{
    match recorder {
        Some(rec) => search_captures(game, alpha, beta, rec, true, depth, parent_id),
        None => {
            let mut unused = TreeRecorder::new();
            search_captures(game, alpha, beta, &mut unused, false, depth, parent_id)
        },
    }
}

/// The quiescence search proper; nodes go to `recorder` only when `record`
/// is set.
fn search_captures(
    game: &Game,
    alpha: i32,
    beta: i32,
    recorder: &mut TreeRecorder,
    record: bool,
    depth: usize,
    parent_id: u64,
) -> (r: i32)
    requires
        game.board@.wf(),
        alpha > i32::MIN,
        beta > i32::MIN,
        depth + board_units(game.board@) < 1_000_000,
        old(recorder).wf(),
    ensures
        final(recorder).wf(),
        r == q_value(game.board@, alpha as int, beta as int, depth as int),
        -q_bound(alpha as int, beta as int) <= r <= q_bound(alpha as int, beta as int),
        record ==> nodes_view(final(recorder).records()) == nodes_view(old(recorder).records())
            + q_trace(
            game.board@,
            alpha as int,
            beta as int,
            depth as int,
            parent_id,
            old(recorder).records().len() as int,
        ),
    decreases board_units(game.board@),
{
    let ghost m = game.board@;
    let ghost n0 = recorder.records().len() as int;
    let ghost v0 = nodes_view(recorder.records());
    let absolute = evaluate_absolute(game);
    let stand_pat = if game.is_white_to_move() {
        absolute
    } else {
        -absolute
    };
    if stand_pat >= beta {
        proof {
            assert(nodes_view(recorder.records()) =~= v0 + seq![]);
        }
        return stand_pat;
    }
    let mut a: i32 = if alpha >= stand_pat {
        alpha
    } else {
        stand_pat
    };
    let ghost a0 = a as int;
    let ghost bound = q_bound(alpha as int, beta as int);
    let ghost mut prefix: Seq<(u64, u64, u8, Seq<char>, int)> = seq![];
    proof {
        assert(nodes_view(recorder.records()) =~= v0 + prefix);
    }
    let caps = collect_captures(game);
    let mut i: usize = 0;
    let mut result: i32 = 0;
    let mut done = false;
    while !done && i < caps.len()
        invariant
            m == game.board@,
            m.wf(),
            caps@ == capture_moves(m),
            i <= caps.len(),
            stand_pat == stand_pat_score(m),
            -200_000 <= stand_pat <= 200_000,
            beta > i32::MIN,
            depth + board_units(m) < 1_000_000,
            bound == q_bound(alpha as int, beta as int),
            bound <= i32::MAX,
            -bound <= a <= bound,
            -bound <= beta <= bound,
            1_000_000 <= bound,
            recorder.wf(),
            !done ==> q_value(m, alpha as int, beta as int, depth as int) == q_scan(
                m,
                i as int,
                a as int,
                beta as int,
                stand_pat as int,
                depth as int,
            ),
            done ==> result == q_value(m, alpha as int, beta as int, depth as int),
            done ==> -bound <= result <= bound,
            record ==> nodes_view(recorder.records()) == v0 + prefix,
            record ==> v0.len() == n0,
            record && !done ==> q_scan_trace(
                m,
                0,
                a0,
                beta as int,
                stand_pat as int,
                depth as int,
                parent_id,
                n0,
            ) == prefix + q_scan_trace(
                m,
                i as int,
                a as int,
                beta as int,
                stand_pat as int,
                depth as int,
                parent_id,
                n0 + prefix.len(),
            ),
            record && done ==> q_scan_trace(
                m,
                0,
                a0,
                beta as int,
                stand_pat as int,
                depth as int,
                parent_id,
                n0,
            ) == prefix,
        decreases caps.len() - i,
    {
        let mv = caps[i];
        proof {
            lemma_capture_shrinks(m, i as int);
        }
        let gain = estimate_capture_gain(&mv, game);
        if stand_pat + gain + DELTA_MARGIN >= a {
            let target_is_king = match game.board.get_piece(&mv.to) {
                Some(t) => t.bottom == PieceType::King,
                None => false,
            };
            if target_is_king {
                result = KING_VALUE - depth as i32;
                done = true;
                proof {
                    assert(prefix + seq![] =~= prefix);
                }
            } else {
                match game.apply_move_copy(mv) {
                    Ok(child_board) => {
                        let ghost before = nodes_view(recorder.records());
                        let ghost nn = recorder.records().len() as int;
                        let room = record && recorder.can_record();
                        let node_id = if room {
                            recorder.record_node(parent_id, depth as u8, &mv, 0)
                        } else {
                            0
                        };
                        let ghost mid = nodes_view(recorder.records());
                        let child = Game::from_board(child_board);
                        let child_score = search_captures(
                            &child,
                            -beta,
                            -a,
                            recorder,
                            record,
                            depth + 1,
                            node_id,
                        );
                        let ghost after_child = recorder.records();
                        let score = -child_score;
                        if record {
                            recorder.update_score(node_id, score);
                        }
                        proof {
                            if record {
                                let here = if room {
                                    seq![(node_id, parent_id, depth as u8, move_text(mv), score as int)]
                                } else {
                                    seq![]
                                };
                                let below = q_trace(
                                    child.board@,
                                    -(beta as int),
                                    -(a as int),
                                    depth + 1,
                                    node_id,
                                    mid.len() as int,
                                );
                                if room {
                                    assert(nodes_view(after_child)[nn] == mid[nn]);
                                }
                                assert(nodes_view(recorder.records()) =~= before + here + below);
                                assert(prefix + (here + below) =~= prefix + here + below);
                                prefix = prefix + here + below;
                            }
                        }
                        if score >= beta {
                            result = score;
                            done = true;
                        } else if score > a {
                            a = score;
                        }
                    },
                    Err(_) => {
                        proof {
                            assert(false);
                        }
                    },
                }
            }
        }
        i += 1;
    }
    proof {
        assert(prefix + seq![] =~= prefix);
    }
    if done {
        result
    } else {
        a
    }
}

} // verus!
