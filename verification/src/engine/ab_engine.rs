//! Public engine API: an exhaustive alpha-beta search over every legal move,
//! with a quiescence search past the horizon and repeated positions scored
//! as draws.
use vstd::prelude::*;
use crate::board::{lemma_board_len, Board, BoardModel, Piece};
use crate::engine::config::EngineConfig;
use crate::engine::eval::{evaluate, material_score, side_material};
use crate::engine::stage_config::StageConfig;
use crate::engine::search::loop_detection::LoopDetector;
use crate::engine::search::quiescence::{lemma_board_units_bound, q_value, quiescence};
use crate::engine::zobrist::{hash_board_with, init_keys, zobrist, ZobristKeys};
use crate::game::{all_moves, apply_model, move_text, Game, Move};
use crate::legality::{lemma_legal_move_applies, legal_moves, legal_prefix};

verus! {

broadcast use lemma_board_len;

/// Bound of every window: larger than any score.
pub const SCORE_WINDOW: i32 = 1_000_000;

// ---------------------------------------------------------------------------
// The value the search computes
// ---------------------------------------------------------------------------

/// The value of a position at the horizon: its quiescence value, searched
/// over the whole window from the horizon on (the quiescence search keeps
/// it within the window; the clamp only says so).
pub open spec fn horizon_value(m: BoardModel) -> int {
    clamp(
        q_value(m, -(SCORE_WINDOW as int), SCORE_WINDOW as int, 0),
        -(SCORE_WINDOW as int),
        SCORE_WINDOW as int,
    )
}

/// The NegaMax value of `m` searched `depth` plies deep, the positions on
/// `path` having been played already: a draw if `m` repeats one of them;
/// the material score in a finished game; the quiescence value at the
/// horizon; the material score where no move is left; else the best value
/// over all legal moves.
pub open spec fn negamax(m: BoardModel, depth: nat, path: Set<u64>) -> int
    decreases depth, legal_moves(m).len() + 1,
{
    if path.contains(zobrist(m)) {
        0
    } else if m.is_over() {
        material_score(m)
    } else if depth == 0 {
        horizon_value(m)
    } else if legal_moves(m).len() == 0 {
        material_score(m)
    } else {
        best_of(m, depth, legal_moves(m).len() as int, path.insert(zobrist(m)))
    }
}

/// The best value for the side to move among the first `n` legal moves,
/// `path` holding `m` and the positions before it.
pub open spec fn best_of(m: BoardModel, depth: nat, n: int, path: Set<u64>) -> int
    decreases depth, n,
{
    if depth == 0 || n <= 0 {
        0
    } else {
        let v = move_value(m, depth, n - 1, path);
        if n == 1 {
            v
        } else {
            let b = best_of(m, depth, n - 1, path);
            if v > b {
                v
            } else {
                b
            }
        }
    }
}

/// The value of the `k`-th legal move for the side to move.
pub open spec fn move_value(m: BoardModel, depth: nat, k: int, path: Set<u64>) -> int
    decreases depth, 0int,
{
    if depth == 0 {
        0
    } else {
        -negamax(apply_model(m, legal_moves(m)[k]), (depth - 1) as nat, path)
    }
}

/// The positions already on the path when the moves of the root `m` are
/// searched: those played before it, and `m` itself.
pub open spec fn root_path(m: BoardModel, history: Set<u64>) -> Set<u64> {
    history.insert(zobrist(m))
}

/// The `k`-th legal move is the one the engine plays after the positions
/// of `history`: it reaches the best value, and no legal move before it
/// does.
pub open spec fn is_engine_choice(m: BoardModel, depth: nat, history: Set<u64>, k: int) -> bool {
    let path = root_path(m, history);
    let best = best_of(m, depth, legal_moves(m).len() as int, path);
    &&& 0 <= k < legal_moves(m).len()
    &&& move_value(m, depth, k, path) == best
    &&& forall|j: int| 0 <= j < k ==> #[trigger] move_value(m, depth, j, path) < best
}

/// `v` forced into the window [`lo`, `hi`].
pub open spec fn clamp(v: int, lo: int, hi: int) -> int {
    if v < lo {
        lo
    } else if v > hi {
        hi
    } else {
        v
    }
}

proof fn lemma_side_material_bound(cells: Seq<Option<Piece>>, n: int, color: crate::board::Color)
    requires
        0 <= n,
    ensures
        0 <= side_material(cells, n, color) <= 2000 * n,
    decreases n,
{
    if n > 0 {
        lemma_side_material_bound(cells, n - 1, color);
    }
}

/// Material scores never exceed the value of a full board of stacks.
pub proof fn lemma_material_score_bound(m: BoardModel)
    ensures
        -162_000 <= material_score(m) <= 162_000,
{
    lemma_side_material_bound(m.cells, 81, crate::board::Color::White);
    lemma_side_material_bound(m.cells, 81, crate::board::Color::Black);
}

/// Search values stay within the search window.
pub proof fn lemma_negamax_bound(m: BoardModel, depth: nat, path: Set<u64>)
    ensures
        -SCORE_WINDOW <= negamax(m, depth, path) <= SCORE_WINDOW,
    decreases depth, legal_moves(m).len() + 1,
{
    if path.contains(zobrist(m)) {
    } else if m.is_over() || depth == 0 || legal_moves(m).len() == 0 {
        lemma_material_score_bound(m);
    } else {
        lemma_best_of_bound(m, depth, legal_moves(m).len() as int, path.insert(zobrist(m)));
    }
}

proof fn lemma_best_of_bound(m: BoardModel, depth: nat, n: int, path: Set<u64>)
    requires
        depth > 0,
        n >= 1,
    ensures
        -SCORE_WINDOW <= best_of(m, depth, n, path) <= SCORE_WINDOW,
    decreases depth, n,
{
    lemma_negamax_bound(apply_model(m, legal_moves(m)[n - 1]), (depth - 1) as nat, path);
    assert(move_value(m, depth, n - 1, path) == -negamax(
        apply_model(m, legal_moves(m)[n - 1]),
        (depth - 1) as nat,
        path,
    ));
    if n > 1 {
        lemma_best_of_bound(m, depth, n - 1, path);
    }
}

/// The best value is at least the value of each move it ranges over.
proof fn lemma_best_of_ge(m: BoardModel, depth: nat, k: int, n: int, path: Set<u64>)
    requires
        depth > 0,
        0 <= k < n,
    ensures
        move_value(m, depth, k, path) <= best_of(m, depth, n, path),
    decreases n,
{
    if k < n - 1 {
        lemma_best_of_ge(m, depth, k, n - 1, path);
    }
}

/// The best value over more moves is at least as large.
proof fn lemma_best_of_grows(m: BoardModel, depth: nat, k: int, n: int, path: Set<u64>)
    requires
        depth > 0,
        1 <= k <= n,
    ensures
        best_of(m, depth, k, path) <= best_of(m, depth, n, path),
    decreases n,
{
    if k < n {
        lemma_best_of_grows(m, depth, k, n - 1, path);
    }
}

// ---------------------------------------------------------------------------
// Executable search
// ---------------------------------------------------------------------------

/// Every move the side to move can play, in generation order.
fn collect_legal_moves(game: &Game) -> (moves: Vec<Move>)
    ensures
        moves@ == legal_moves(game.board@),
{
    let ghost m = game.board@;
    let potential = game.get_all_moves();
    let mut moves: Vec<Move> = Vec::new();
    let mut i: usize = 0;
    while i < potential.len()
        invariant
            m == game.board@,
            potential@ == all_moves(m),
            i <= potential.len(),
            moves@ == legal_prefix(m, i as int),
        decreases potential.len() - i,
    {
        let pm = potential[i];
        if pm.force_unstack {
            moves.push(Move { from: pm.from, to: pm.to, unstack: true });
        } else {
            moves.push(Move { from: pm.from, to: pm.to, unstack: false });
            if pm.unstackable {
                moves.push(Move { from: pm.from, to: pm.to, unstack: true });
            }
        }
        proof {
            assert(all_moves(m)[i as int] == pm);
        }
        i += 1;
    }
    moves
}

/// The quiescence value of a horizon position, over the whole window.
fn horizon_score(game: &Game) -> (v: i32)
    requires
        game.board@.wf(),
    ensures
        v == horizon_value(game.board@),
{
    let mut quiet = Game::from_board(game.board);
    proof {
        lemma_board_units_bound(quiet.board@);
    }
    quiescence(&mut quiet, -SCORE_WINDOW, SCORE_WINDOW, None, 0, 0)
}

fn clamp_score(v: i32, lo: i32, hi: i32) -> (r: i32)
    requires
        lo <= hi,
    ensures
        r == clamp(v as int, lo as int, hi as int),
{
    if v < lo {
        lo
    } else if v > hi {
        hi
    } else {
        v
    }
}

/// Fail-hard alpha-beta search: the NegaMax value of the position after
/// the positions on `path`, forced into the window [`alpha`, `beta`].  The
/// path is left as it was; `nodes` counts the visited positions.
pub fn alpha_beta(
    game: &Game,
    depth: usize,
    alpha: i32,
    beta: i32,
    keys: &ZobristKeys,
    path: &mut LoopDetector,
    nodes: &mut u64,
) -> (r: i32)
    requires
        game.board@.wf(),
        keys.valid(),
        -SCORE_WINDOW <= alpha < beta <= SCORE_WINDOW,
    ensures
        r == clamp(negamax(game.board@, depth as nat, old(path)@), alpha as int, beta as int),
        final(path)@ == old(path)@,
        *final(nodes) >= *old(nodes),
        *old(nodes) < u64::MAX ==> *final(nodes) > *old(nodes),
    decreases depth,
{
    let ghost m = game.board@;
    let ghost d = depth as nat;
    let ghost p0 = path@;
    if *nodes < u64::MAX {
        *nodes = *nodes + 1;
    }
    let h = hash_board_with(keys, &game.board);
    if path.contains(h) {
        return clamp_score(0, alpha, beta);
    }
    if game.board.is_game_over() {
        return clamp_score(evaluate(&game.board), alpha, beta);
    }
    if depth == 0 {
        return clamp_score(horizon_score(game), alpha, beta);
    }
    let moves = collect_legal_moves(game);
    if moves.len() == 0 {
        return clamp_score(evaluate(&game.board), alpha, beta);
    }
    let ghost inner = p0.insert(h);
    assert(negamax(m, d, p0) == best_of(m, d, moves.len() as int, inner));
    path.push(h);
    let mut a = alpha;
    let mut i: usize = 0;
    let mut cut = false;
    while !cut && i < moves.len()
        invariant
            m == game.board@,
            m.wf(),
            keys.valid(),
            d == depth as nat,
            depth > 0,
            moves@ == legal_moves(m),
            moves.len() >= 1,
            path@ == inner,
            negamax(m, d, p0) == best_of(m, d, moves.len() as int, inner),
            -SCORE_WINDOW <= alpha < beta <= SCORE_WINDOW,
            i <= moves.len(),
            !cut ==> alpha <= a < beta,
            !cut && i == 0 ==> a == alpha,
            !cut && i > 0 ==> a == clamp(best_of(m, d, i as int, inner), alpha as int, beta as int),
            cut ==> best_of(m, d, moves.len() as int, inner) >= beta,
            *nodes >= *old(nodes),
            *old(nodes) < u64::MAX ==> *nodes > *old(nodes),
        decreases moves.len() - i,
    {
        let mv = moves[i];
        proof {
            lemma_legal_move_applies(m, i as int);
        }
        match game.apply_move_copy(mv) {
            Ok(child_board) => {
                let child = Game::from_board(child_board);
                let child_score = alpha_beta(&child, depth - 1, -beta, -a, keys, path, nodes);
                let score = -child_score;
                proof {
                    assert(move_value(m, d, i as int, inner) == -negamax(
                        child.board@,
                        (d - 1) as nat,
                        inner,
                    ));
                    assert(best_of(m, d, i as int + 1, inner) == if i == 0 {
                        move_value(m, d, 0, inner)
                    } else {
                        let v = move_value(m, d, i as int, inner);
                        let b = best_of(m, d, i as int, inner);
                        if v > b { v } else { b }
                    });
                }
                if score >= beta {
                    cut = true;
                    proof {
                        lemma_best_of_grows(m, d, i as int + 1, moves.len() as int, inner);
                    }
                } else if score > a {
                    a = score;
                }
            },
            Err(_) => {
                proof {
                    assert(false);
                }
            },
        }
        i += 1;
    }
    path.pop(h);
    proof {
        assert(path@ =~= p0);
    }
    if cut {
        beta
    } else {
        a
    }
}

/// The best legal move of a position that still has moves, with its value
/// searched `depth` plies deep, the root and the positions before it being
/// on `path`; the first of the best moves in generation order.
fn best_root_move(
    game: &Game,
    moves: &Vec<Move>,
    depth: usize,
    keys: &ZobristKeys,
    path: &mut LoopDetector,
    nodes: &mut u64,
) -> (r: (usize, i32))
    requires
        game.board@.wf(),
        keys.valid(),
        moves@ == legal_moves(game.board@),
        moves.len() >= 1,
        depth >= 1,
    ensures
        r.0 < moves.len(),
        r.1 == best_of(game.board@, depth as nat, moves.len() as int, old(path)@),
        r.1 == move_value(game.board@, depth as nat, r.0 as int, old(path)@),
        forall|k: int|
            0 <= k < r.0 ==> #[trigger] move_value(game.board@, depth as nat, k, old(path)@) < r.1,
        final(path)@ == old(path)@,
        *final(nodes) >= *old(nodes),
        *old(nodes) < u64::MAX ==> *final(nodes) > *old(nodes),
{
    let ghost m = game.board@;
    let ghost d = depth as nat;
    let ghost p = path@;
    let mut a: i32 = -SCORE_WINDOW;
    let mut best: usize = 0;
    let mut i: usize = 0;
    while i < moves.len()
        invariant
            m == game.board@,
            m.wf(),
            keys.valid(),
            d == depth as nat,
            depth >= 1,
            moves@ == legal_moves(m),
            path@ == p,
            i <= moves.len(),
            i == 0 ==> a == -SCORE_WINDOW,
            i > 0 ==> a == best_of(m, d, i as int, p),
            i > 0 ==> best < i && a == move_value(m, d, best as int, p),
            i > 0 ==> forall|k: int| 0 <= k < best ==> #[trigger] move_value(m, d, k, p) < a,
            -SCORE_WINDOW <= a <= SCORE_WINDOW,
            *nodes >= *old(nodes),
            i > 0 && *old(nodes) < u64::MAX ==> *nodes > *old(nodes),
        decreases moves.len() - i,
    {
        let mv = moves[i];
        proof {
            lemma_legal_move_applies(m, i as int);
        }
        match game.apply_move_copy(mv) {
            Ok(child_board) => {
                let child = Game::from_board(child_board);
                // Once a move reaches the top of the window no later move
                // can beat it: the window left for the reply is empty.
                let child_score = if a < SCORE_WINDOW {
                    alpha_beta(&child, depth - 1, -SCORE_WINDOW, -a, keys, path, nodes)
                } else {
                    -SCORE_WINDOW
                };
                let score = -child_score;
                proof {
                    lemma_negamax_bound(child.board@, (d - 1) as nat, p);
                    assert(child_score == clamp(
                        negamax(child.board@, (d - 1) as nat, p),
                        -SCORE_WINDOW as int,
                        -a as int,
                    ));
                    assert(score == if move_value(m, d, i as int, p) > a {
                        move_value(m, d, i as int, p)
                    } else {
                        a as int
                    });
                    assert(move_value(m, d, i as int, p) == -negamax(child.board@, (d - 1) as nat, p));
                    if i > 0 {
                        lemma_best_of_bound(m, d, i as int, p);
                    }
                    assert(best_of(m, d, i as int + 1, p) == if i == 0 {
                        move_value(m, d, 0, p)
                    } else {
                        let v = move_value(m, d, i as int, p);
                        let b = best_of(m, d, i as int, p);
                        if v > b { v } else { b }
                    });
                }
                if i == 0 || score > a {
                    proof {
                        assert forall|k: int| 0 <= k < i implies #[trigger] move_value(m, d, k, p)
                            < score by {
                            lemma_best_of_ge(m, d, k, i as int, p);
                        }
                    }
                    a = score;
                    best = i;
                }
            },
            Err(_) => {
                proof {
                    assert(false);
                }
            },
        }
        i += 1;
    }
    (best, a)
}

// ---------------------------------------------------------------------------
// The engine
// ---------------------------------------------------------------------------

/// A node count as a `usize`, saturating where it does not fit.
fn count_to_usize(n: u64) -> (r: usize)
    ensures
        r == if n <= usize::MAX { n as int } else { usize::MAX as int },
{
    if n <= usize::MAX as u64 {
        n as usize
    } else {
        usize::MAX
    }
}

/// Aggregate statistics returned alongside the chosen move.
pub struct SearchStatistics {
    pub nodes_searched: usize,
    pub stage1_moves: usize,
}

/// Snapshot of a search for debugging tools: the root position and, one
/// child per legal move in generation order, the position after it with
/// the value the root search gave it: the best value over the moves up to
/// it, as the search looks for a move better than those before.  Scores
/// are from the root player's point of view.
pub struct DebugTree {
    pub node_id: usize,
    /// The move leading to the node, e.g. `E3F4`; none at the root.
    pub action: Option<String>,
    pub score: i32,
    pub stage1_score: i32,
    /// Hash of the position, on leaf nodes only.
    pub hash: Option<u64>,
    pub white_to_move: bool,
    pub is_terminal: bool,
    pub children: Vec<DebugTree>,
}

/// The debug node for the `k`-th legal move of `m`.
pub open spec fn debug_child(m: BoardModel, d: nat, k: int, c: DebugTree) -> bool {
    let mv = legal_moves(m)[k];
    let child = apply_model(m, mv);
    &&& c.node_id == k + 1
    &&& c.action matches Some(a) && a@ == move_text(mv)
    &&& c.score == best_of(m, d, k + 1, root_path(m, Set::empty()))
    &&& c.stage1_score == c.score
    &&& c.hash is Some
    &&& c.white_to_move == child.white_to_move
    &&& c.is_terminal == child.is_over()
    &&& c.children@.len() == 0
}

/// A hash of the 81 square bytes of a board encoding, for telling debug
/// nodes apart.
/// Trusted: `ahash::RandomState::with_seeds(0, 0, 0, 0).hash_one` on the
/// slice of the first 81 bytes.  Its value depends on how ahash was built
/// for the machine, so nothing is promised of it.
#[verifier::external_body]
fn square_bytes_hash(binary: &[u8; 83]) -> u64 {
    ahash::RandomState::with_seeds(0, 0, 0, 0).hash_one(&binary[..81])
}

/// The main engine entry point.
pub struct Engine {
    cfg: EngineConfig,
}

/// The depth a search with this configuration goes to: the configured
/// depth as a byte, and at least one ply.
pub open spec fn search_depth(cfg: EngineConfig) -> nat {
    let d = cfg.stage1_depth as u8;
    if d == 0 {
        1
    } else {
        d as nat
    }
}

impl Engine {
    pub closed spec fn config(&self) -> EngineConfig {
        self.cfg
    }

    /// Build an engine using the built-in static evaluator.
    pub fn new(cfg: EngineConfig) -> (e: Self)
        ensures
            e.config() == cfg,
    {
        Engine { cfg }
    }

    /// The Stage 1 configuration: the defaults, searched to the
    /// configured depth.
    fn to_stage1_config(&self) -> (c: StageConfig)
        ensures
            c == (StageConfig { depth: self.cfg.stage1_depth as u8, ..StageConfig::stage1_spec() }),
    {
        let mut cfg = StageConfig::stage1();
        cfg.depth = self.cfg.stage1_depth as u8;
        cfg
    }

    /// Search the position and return the best move, with search
    /// statistics.  Fails on a finished game and where no move is left.
    /// The move returned is the first, in generation order, of the legal
    /// moves of greatest NegaMax value.
    pub fn find_move(&self, board: &Board) -> (r: Result<(Move, SearchStatistics), String>)
        requires
            board@.wf(),
        ensures
            r is Err <==> (board@.is_over() || legal_moves(board@).len() == 0),
            r matches Ok((mv, stats)) ==> {
                let m = board@;
                let d = search_depth(self.config());
                &&& exists|k: int|
                    is_engine_choice(m, d, Set::empty(), k) && legal_moves(m)[k] == mv
                &&& stats.stage1_moves == legal_moves(m).len()
                &&& stats.nodes_searched >= 2
            },
    {
        let history: Vec<u64> = Vec::new();
        proof {
            assert(history@.to_set() =~= Set::<u64>::empty());
        }
        self.find_move_after(board, &history)
    }

    /// Like `find_move`, the positions with the hashes in `history` having
    /// been played before: a line that comes back to one of them, or to the
    /// root, scores as a draw.
    pub fn find_move_after(&self, board: &Board, history: &Vec<u64>) -> (r: Result<
        (Move, SearchStatistics),
        String,
    >)
        requires
            board@.wf(),
        ensures
            r is Err <==> (board@.is_over() || legal_moves(board@).len() == 0),
            r matches Ok((mv, stats)) ==> {
                let m = board@;
                let d = search_depth(self.config());
                &&& exists|k: int|
                    is_engine_choice(m, d, history@.to_set(), k) && legal_moves(m)[k] == mv
                &&& stats.stage1_moves == legal_moves(m).len()
                &&& stats.nodes_searched >= 2
            },
    {
        if board.is_game_over() {
            return Err("cannot search from a terminal position".to_owned());
        }
        let depth = self.root_depth();
        let game = Game::from_board(*board);
        let moves = collect_legal_moves(&game);
        if moves.len() == 0 {
            return Err("no legal moves found".to_owned());
        }
        let keys = init_keys();
        let mut path = root_path_of(&keys, &game, history);
        let mut nodes: u64 = 1;
        let (best, _score) = best_root_move(&game, &moves, depth, &keys, &mut path, &mut nodes);
        let stats = SearchStatistics { nodes_searched: count_to_usize(nodes), stage1_moves: moves.len() };
        proof {
            assert(legal_moves(board@)[best as int] == moves[best as int]);
            assert(is_engine_choice(board@, depth as nat, history@.to_set(), best as int));
        }
        Ok((moves[best], stats))
    }

    /// The depth searched below the root: the configured depth as a byte,
    /// and at least one ply.
    fn root_depth(&self) -> (d: usize)
        ensures
            d == search_depth(self.config()),
            d >= 1,
    {
        let s1_config = self.to_stage1_config();
        if s1_config.depth == 0 {
            1
        } else {
            s1_config.depth as usize
        }
    }

    /// Search the position like `find_move`, giving every root move its
    /// exact value, and return the chosen move with a snapshot of the root
    /// and its children.
    pub fn find_move_debug(&self, board: &Board) -> (r: Result<(Move, SearchStatistics, DebugTree), String>)
        requires
            board@.wf(),
        ensures
            r is Err <==> (board@.is_over() || legal_moves(board@).len() == 0),
            r matches Ok((mv, stats, tree)) ==> {
                let m = board@;
                let d = search_depth(self.config());
                let path = root_path(m, Set::empty());
                &&& exists|k: int|
                    is_engine_choice(m, d, Set::empty(), k) && legal_moves(m)[k] == mv
                &&& stats.stage1_moves == legal_moves(m).len()
                &&& stats.nodes_searched >= 2
                &&& tree.node_id == 0
                &&& tree.action is None
                &&& tree.score == best_of(m, d, legal_moves(m).len() as int, path)
                &&& tree.stage1_score == tree.score
                &&& tree.hash is None
                &&& tree.white_to_move == m.white_to_move
                &&& !tree.is_terminal
                &&& tree.children@.len() == legal_moves(m).len()
                &&& forall|k: int|
                    0 <= k < tree.children@.len() ==> debug_child(m, d, k, #[trigger] tree.children@[k])
            },
    {
        if board.is_game_over() {
            return Err("cannot search from a terminal position".to_owned());
        }
        let depth = self.root_depth();
        let game = Game::from_board(*board);
        let ghost m = game.board@;
        let ghost d = depth as nat;
        let moves = collect_legal_moves(&game);
        if moves.len() == 0 {
            return Err("no legal moves found".to_owned());
        }
        let keys = init_keys();
        let history: Vec<u64> = Vec::new();
        proof {
            assert(history@.to_set() =~= Set::<u64>::empty());
        }
        let mut path = root_path_of(&keys, &game, &history);
        let ghost p = path@;
        let mut nodes: u64 = 1;
        let mut children: Vec<DebugTree> = Vec::new();
        let mut best: usize = 0;
        let mut best_score: i32 = -SCORE_WINDOW;
        let mut i: usize = 0;
        while i < moves.len()
            invariant
                m == game.board@,
                m == board@,
                m.wf(),
                keys.valid(),
                d == depth as nat,
                depth >= 1,
                moves@ == legal_moves(m),
                p == root_path(m, Set::empty()),
                path@ == p,
                i <= moves.len(),
                children@.len() == i,
                forall|k: int| 0 <= k < i ==> debug_child(m, d, k, #[trigger] children@[k]),
                i == 0 ==> best_score == -SCORE_WINDOW,
                i > 0 ==> best_score == best_of(m, d, i as int, p),
                i > 0 ==> best < i && best_score == move_value(m, d, best as int, p),
                i > 0 ==> forall|k: int| 0 <= k < best ==> #[trigger] move_value(m, d, k, p) < best_score,
                -SCORE_WINDOW <= best_score <= SCORE_WINDOW,
                nodes >= 1,
                i > 0 ==> nodes >= 2,
            decreases moves.len() - i,
        {
            let mv = moves[i];
            proof {
                lemma_legal_move_applies(m, i as int);
            }
            match game.apply_move_copy(mv) {
                Ok(child_board) => {
                    let child = Game::from_board(child_board);
                    let child_score = if i == 0 || best_score < SCORE_WINDOW {
                        alpha_beta(
                            &child,
                            depth - 1,
                            -SCORE_WINDOW,
                            if i == 0 {
                                SCORE_WINDOW
                            } else {
                                -best_score
                            },
                            &keys,
                            &mut path,
                            &mut nodes,
                        )
                    } else {
                        -SCORE_WINDOW
                    };
                    let score = -child_score;
                    proof {
                        lemma_negamax_bound(child.board@, (d - 1) as nat, p);
                        assert(move_value(m, d, i as int, p) == -negamax(child.board@, (d - 1) as nat, p));
                        if i > 0 {
                            lemma_best_of_bound(m, d, i as int, p);
                        }
                        assert(best_of(m, d, i as int + 1, p) == if i == 0 {
                            move_value(m, d, 0, p)
                        } else {
                            let v = move_value(m, d, i as int, p);
                            let b = best_of(m, d, i as int, p);
                            if v > b { v } else { b }
                        });
                        assert(score == best_of(m, d, i as int + 1, p));
                    }
                    if i == 0 || score > best_score {
                        proof {
                            assert forall|k: int| 0 <= k < i implies #[trigger] move_value(m, d, k, p)
                                < score by {
                                lemma_best_of_ge(m, d, k, i as int, p);
                            }
                        }
                        best_score = score;
                        best = i;
                    }
                    let node = DebugTree {
                        node_id: i + 1,
                        action: Some(mv.to_string()),
                        score,
                        stage1_score: score,
                        hash: Some(square_bytes_hash(&child.board.to_binary())),
                        white_to_move: child.board.is_white_to_move(),
                        is_terminal: child.board.is_game_over(),
                        children: Vec::new(),
                    };
                    children.push(node);
                    proof {
                        assert(debug_child(m, d, i as int, children@[i as int]));
                    }
                },
                Err(_) => {
                    proof {
                        assert(false);
                    }
                },
            }
            i += 1;
        }
        proof {
            assert(legal_moves(m)[best as int] == moves[best as int]);
            assert(is_engine_choice(m, d, Set::empty(), best as int));
        }
        let stats = SearchStatistics { nodes_searched: count_to_usize(nodes), stage1_moves: moves.len() };
        let tree = DebugTree {
            node_id: 0,
            action: None,
            score: best_score,
            stage1_score: best_score,
            hash: None,
            white_to_move: board.is_white_to_move(),
            is_terminal: false,
            children,
        };
        Ok((moves[best], stats, tree))
    }
}

/// The path the root's moves are searched from: the hashes of `history`
/// and that of the root.
fn root_path_of(keys: &ZobristKeys, game: &Game, history: &Vec<u64>) -> (path: LoopDetector)
    requires
        keys.valid(),
        game.board@.wf(),
    ensures
        path@ == root_path(game.board@, history@.to_set()),
{
    let mut path = LoopDetector::new();
    let mut i: usize = 0;
    while i < history.len()
        invariant
            i <= history.len(),
            path@ == history@.subrange(0, i as int).to_set(),
        decreases history.len() - i,
    {
        path.push(history[i]);
        proof {
            let before = history@.subrange(0, i as int);
            let after = history@.subrange(0, i + 1);
            assert(after == before.push(history@[i as int]));
            assert(after.to_set() =~= before.to_set().insert(history@[i as int])) by {
                assert forall|x: u64| after.to_set().contains(x) <==> before.to_set().insert(
                    history@[i as int],
                ).contains(x) by {
                    if after.contains(x) {
                        let j = choose|j: int| 0 <= j < after.len() && after[j] == x;
                        if j < before.len() {
                            assert(before[j] == x);
                        }
                    }
                    if before.contains(x) {
                        let j = choose|j: int| 0 <= j < before.len() && before[j] == x;
                        assert(after[j] == x);
                    }
                    if x == history@[i as int] {
                        assert(after[i as int] == x);
                    }
                }
            }
        }
        i += 1;
    }
    proof {
        assert(history@.subrange(0, history.len() as int) == history@);
    }
    let h = hash_board_with(keys, &game.board);
    path.push(h);
    path
}

} // verus!
