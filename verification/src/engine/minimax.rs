//! The integer parts of the minimax engine: its counters, piece values,
//! move ordering and the evaluation terms that need no weighting.
use vstd::prelude::*;
use rand::Rng;
use crate::board::{
    lemma_board_len, square_position, type_code, Board, BoardModel, Color, Piece, PieceType, Position,
};
use crate::game::{all_moves, Game, PotentialMove};
use crate::legality::{lemma_all_moves_from_mover, lemma_all_moves_len};

verus! {

broadcast use lemma_board_len;

/// Statistics for a minimax search.
#[derive(Clone, Copy, Debug)]
pub struct MinimaxStatistics {
    /// Total positions evaluated.
    pub positions_evaluated: u64,
    /// Transposition table hits.
    pub tt_hits: u64,
    /// Alpha-beta cutoffs.
    pub ab_cutoffs: u64,
    /// Quiescence nodes searched.
    pub quiescence_nodes: u64,
    /// Search time in milliseconds.
    pub search_time_ms: u64,
}

impl Default for MinimaxStatistics {
    /// All counters at zero.
    fn default() -> (s: Self)
        ensures
            s.positions_evaluated == 0,
            s.tt_hits == 0,
            s.ab_cutoffs == 0,
            s.quiescence_nodes == 0,
            s.search_time_ms == 0,
    {
        MinimaxStatistics {
            positions_evaluated: 0,
            tt_hits: 0,
            ab_cutoffs: 0,
            quiescence_nodes: 0,
            search_time_ms: 0,
        }
    }
}

/// The minimax engine's value of a piece type.
pub open spec fn minimax_worth(t: PieceType) -> int {
    match t {
        PieceType::Soldier => 10,
        PieceType::Jester => 20,
        PieceType::Commander => 100,
        PieceType::Paladin => 20,
        PieceType::Guard => 25,
        PieceType::Dragon => 30,
        PieceType::Ballista => 15,
        PieceType::King => 10000,
    }
}

/// The minimax engine's value of a piece type.
pub fn piece_value(piece_type: PieceType) -> (v: i32)
    ensures
        v == minimax_worth(piece_type),
{
    match piece_type {
        PieceType::Soldier => 10,
        PieceType::Jester => 20,
        PieceType::Commander => 100,
        PieceType::Paladin => 20,
        PieceType::Guard => 25,
        PieceType::Dragon => 30,
        PieceType::Ballista => 15,
        PieceType::King => 10000,
    }
}

// ---------------------------------------------------------------------------
// Neighbourhoods
// ---------------------------------------------------------------------------

/// The `k`-th of the eight neighbouring offsets, row by row.
pub open spec fn offset(k: int) -> (int, int) {
    if k < 3 {
        (k - 1, -1)
    } else if k == 3 {
        (-1, 0)
    } else if k == 4 {
        (1, 0)
    } else {
        (k - 6, 1)
    }
}

/// The content of the `k`-th neighbour of `pos`, none off the board.
pub open spec fn neighbour(m: BoardModel, pos: Position, k: int) -> Option<Piece> {
    let x = pos.x + offset(k).0;
    let y = pos.y + offset(k).1;
    if 0 <= x < 9 && 0 <= y < 9 {
        m.cells[y * 9 + x]
    } else {
        None
    }
}

/// Neighbours among the first `k` holding a piece of `color`.
pub open spec fn friends_around(m: BoardModel, pos: Position, color: Color, k: int) -> nat
    decreases k,
{
    if k <= 0 {
        0
    } else {
        friends_around(m, pos, color, k - 1) + match neighbour(m, pos, k - 1) {
            Some(p) => if p.color == color {
                1nat
            } else {
                0nat
            },
            None => 0nat,
        }
    }
}

/// One of the first `k` neighbours holds the King of the other side.
pub open spec fn enemy_king_around(m: BoardModel, pos: Position, color: Color, k: int) -> bool
    decreases k,
{
    k > 0 && (enemy_king_around(m, pos, color, k - 1) || match neighbour(m, pos, k - 1) {
        Some(p) => p.bottom == PieceType::King && p.color != color,
        None => false,
    })
}

/// The square `(x, y)` of the board, if it exists.
fn square_content(board: &Board, x: isize, y: isize) -> (r: Option<Piece>)
    ensures
        r == if 0 <= x < 9 && 0 <= y < 9 {
            board@.cells[y * 9 + x]
        } else {
            None
        },
{
    if x >= 0 && x < 9 && y >= 0 && y < 9 {
        let pos = Position::new(x as usize, y as usize);
        match board.get_piece(&pos) {
            Some(p) => Some(*p),
            None => None,
        }
    } else {
        None
    }
}

fn offset_of(k: usize) -> (r: (isize, isize))
    requires
        k < 8,
    ensures
        r.0 == offset(k as int).0,
        r.1 == offset(k as int).1,
{
    if k < 3 {
        (k as isize - 1, -1)
    } else if k == 3 {
        (-1, 0)
    } else if k == 4 {
        (1, 0)
    } else {
        (k as isize - 6, 1)
    }
}

/// Some neighbouring square holds the King of the side other than `color`.
pub fn is_adjacent_to_enemy_king(board: &Board, pos: &Position, piece_color: Color) -> (r: bool)
    requires
        pos.is_valid(),
    ensures
        r == enemy_king_around(board@, *pos, piece_color, 8),
{
    let mut k: usize = 0;
    while k < 8
        invariant
            k <= 8,
            pos.is_valid(),
            !enemy_king_around(board@, *pos, piece_color, k as int),
        decreases 8 - k,
    {
        let (dx, dy) = offset_of(k);
        let content = square_content(board, pos.x as isize + dx, pos.y as isize + dy);
        if let Some(p) = content {
            if p.bottom == PieceType::King && p.color != piece_color {
                proof {
                    lemma_enemy_king_around_grows(board@, *pos, piece_color, k as int + 1, 8);
                }
                return true;
            }
        }
        k += 1;
    }
    false
}

proof fn lemma_enemy_king_around_grows(m: BoardModel, pos: Position, color: Color, k: int, n: int)
    requires
        0 <= k <= n,
        enemy_king_around(m, pos, color, k),
    ensures
        enemy_king_around(m, pos, color, n),
    decreases n - k,
{
    if k < n {
        lemma_enemy_king_around_grows(m, pos, color, k, n - 1);
    }
}

/// Neighbouring squares holding a piece of `color`.
pub fn count_adjacent_pieces(board: &Board, pos: &Position, color: Color) -> (r: u32)
    requires
        pos.is_valid(),
    ensures
        r == friends_around(board@, *pos, color, 8),
        r <= 8,
{
    let mut count: u32 = 0;
    let mut k: usize = 0;
    while k < 8
        invariant
            k <= 8,
            pos.is_valid(),
            count == friends_around(board@, *pos, color, k as int),
            count <= k,
        decreases 8 - k,
    {
        let (dx, dy) = offset_of(k);
        let content = square_content(board, pos.x as isize + dx, pos.y as isize + dy);
        if let Some(p) = content {
            if p.color == color {
                count += 1;
            }
        }
        k += 1;
    }
    count
}

// ---------------------------------------------------------------------------
// Terms over the generated moves
// ---------------------------------------------------------------------------

/// Some generated move of a piece of `color` lands on `pos`.
pub open spec fn defended_by(m: BoardModel, pos: Position, color: Color) -> bool {
    exists|j: int|
        0 <= j < all_moves(m).len() && (#[trigger] all_moves(m)[j]).to == pos && all_moves(
            m,
        )[j].from.is_valid() && (m.cells[all_moves(m)[j].from.index()] matches Some(p) && p.color
            == color)
}

/// Some friendly piece can move to `pos`.  Only the moves of the side to
/// move are generated, so a piece of the other side is never defended.
pub fn is_defended(board: &Board, pos: &Position, color: Color) -> (r: bool)
    ensures
        r == defended_by(board@, *pos, color),
{
    let game = Game::from_board(*board);
    let all = game.get_all_moves();
    let mut j: usize = 0;
    while j < all.len()
        invariant
            all@ == all_moves(board@),
            game.board@ == board@,
            j <= all.len(),
            forall|i: int|
                0 <= i < j ==> !((#[trigger] all_moves(board@)[i]).to == *pos && all_moves(
                    board@,
                )[i].from.is_valid() && (board@.cells[all_moves(board@)[i].from.index()] matches Some(
                    p,
                ) && p.color == color)),
        decreases all.len() - j,
    {
        let pm = all[j];
        if pm.to == *pos && pm.from.x < 9 && pm.from.y < 9 {
            if let Some(defender) = board.get_piece(&pm.from) {
                if defender.color == color {
                    proof {
                        assert(all_moves(board@)[j as int] == pm);
                    }
                    return true;
                }
            }
        }
        proof {
            assert(all_moves(board@)[j as int] == pm);
        }
        j += 1;
    }
    false
}

/// Control a generated move gives its side: one, two more in the enemy
/// camp, three more in the centre, five more next to the enemy King.
pub open spec fn control_value(m: BoardModel, pm: PotentialMove, color: Color) -> int {
    let enemy_camp = (color == Color::White && pm.to.y >= 6) || (color == Color::Black && pm.to.y
        <= 2);
    let central = 3 <= pm.to.x <= 5 && 3 <= pm.to.y <= 5;
    1 + (if enemy_camp { 2int } else { 0 }) + (if central { 3int } else { 0 }) + (if enemy_king_around(
        m,
        pm.to,
        color,
        8,
    ) {
        5int
    } else {
        0
    })
}

/// White's control minus Black's over the first `n` generated moves.
pub open spec fn control_balance(m: BoardModel, n: int) -> int
    decreases n,
{
    if n <= 0 {
        0
    } else {
        let pm = all_moves(m)[n - 1];
        control_balance(m, n - 1) + match m.cells[pm.from.index()] {
            Some(p) => if p.color == Color::White {
                control_value(m, pm, p.color)
            } else {
                -control_value(m, pm, p.color)
            },
            None => 0,
        }
    }
}

/// White's moves minus Black's among the first `n` generated moves.
pub open spec fn mobility_balance(m: BoardModel, n: int) -> int
    decreases n,
{
    if n <= 0 {
        0
    } else {
        let pm = all_moves(m)[n - 1];
        mobility_balance(m, n - 1) + match m.cells[pm.from.index()] {
            Some(p) => if p.color == Color::White {
                1int
            } else {
                -1int
            },
            None => 0,
        }
    }
}

/// Territorial control: White's control minus Black's over the generated
/// moves.
pub fn evaluate_territorial_control(board: &Board) -> (v: i32)
    requires
        board@.wf(),
    ensures
        v == control_balance(board@, all_moves(board@).len() as int),
{
    let game = Game::from_board(*board);
    let all = game.get_all_moves();
    proof {
        lemma_all_moves_len(board@);
    }
    let mut white_control: i32 = 0;
    let mut black_control: i32 = 0;
    let mut j: usize = 0;
    while j < all.len()
        invariant
            all@ == all_moves(board@),
            board@.wf(),
            all.len() <= 11664,
            j <= all.len(),
            white_control - black_control == control_balance(board@, j as int),
            0 <= white_control <= 11 * j,
            0 <= black_control <= 11 * j,
        decreases all.len() - j,
    {
        let pm = all[j];
        proof {
            lemma_all_moves_from_mover(board@, j as int);
            assert(all_moves(board@)[j as int] == pm);
        }
        if let Some(piece) = board.get_piece(&pm.from) {
            let mut control_value: i32 = 1;
            if piece.color == Color::White && pm.to.y >= 6 {
                control_value += 2;
            } else if piece.color == Color::Black && pm.to.y <= 2 {
                control_value += 2;
            }
            if pm.to.x >= 3 && pm.to.x <= 5 && pm.to.y >= 3 && pm.to.y <= 5 {
                control_value += 3;
            }
            if is_adjacent_to_enemy_king(board, &pm.to, piece.color) {
                control_value += 5;
            }
            if piece.color == Color::White {
                white_control += control_value;
            } else {
                black_control += control_value;
            }
        }
        j += 1;
    }
    white_control - black_control
}

/// Mobility: White's generated moves minus Black's.  Every move counts one
/// (the extra half point of Dragons and Commanders is rounded away).
pub fn evaluate_mobility(board: &Board) -> (v: i32)
    requires
        board@.wf(),
    ensures
        v == mobility_balance(board@, all_moves(board@).len() as int),
{
    let game = Game::from_board(*board);
    let all = game.get_all_moves();
    proof {
        lemma_all_moves_len(board@);
    }
    let mut white_mobility: i32 = 0;
    let mut black_mobility: i32 = 0;
    let mut j: usize = 0;
    while j < all.len()
        invariant
            all@ == all_moves(board@),
            board@.wf(),
            all.len() <= 11664,
            j <= all.len(),
            white_mobility - black_mobility == mobility_balance(board@, j as int),
            0 <= white_mobility <= j,
            0 <= black_mobility <= j,
        decreases all.len() - j,
    {
        let pm = all[j];
        proof {
            lemma_all_moves_from_mover(board@, j as int);
            assert(all_moves(board@)[j as int] == pm);
        }
        if let Some(piece) = board.get_piece(&pm.from) {
            if piece.color == Color::White {
                white_mobility += 1;
            } else {
                black_mobility += 1;
            }
        }
        j += 1;
    }
    white_mobility - black_mobility
}

// ---------------------------------------------------------------------------
// Move ordering
// ---------------------------------------------------------------------------

/// The move lands on a piece of the other side than the moving piece.
pub open spec fn tactical(m: BoardModel, pm: PotentialMove) -> bool {
    match (m.cells[pm.to.index()], m.cells[pm.from.index()]) {
        (Some(target), Some(mover)) => target.color != mover.color,
        _ => false,
    }
}

/// A move is tactical when it captures.
pub fn is_tactical_move(board: &Board, potential_move: &PotentialMove) -> (r: bool)
    requires
        potential_move.from.is_valid(),
        potential_move.to.is_valid(),
    ensures
        r == tactical(board@, *potential_move),
{
    if let Some(target_piece) = board.get_piece(&potential_move.to) {
        if let Some(moving_piece) = board.get_piece(&potential_move.from) {
            return target_piece.color != moving_piece.color;
        }
    }
    false
}

/// The ordering score of a move: captures by value of victim over
/// attacker, with bonuses for taking a Commander or the King, and a bonus
/// for landing in the centre.
pub open spec fn ordering_score(m: BoardModel, pm: PotentialMove) -> int {
    let capture = match (m.cells[pm.to.index()], m.cells[pm.from.index()]) {
        (Some(target), Some(mover)) => if target.color != mover.color {
            minimax_worth(target.bottom) * 10 - minimax_worth(mover.bottom) + (if target.bottom
                == PieceType::Commander {
                500int
            } else {
                0
            }) + (if target.bottom == PieceType::King {
                10000int
            } else {
                0
            })
        } else {
            0
        },
        _ => 0,
    };
    capture + if 3 <= pm.to.x <= 5 && 3 <= pm.to.y <= 5 {
        30int
    } else {
        0
    }
}

/// The ordering score of a move (most valuable victim, least valuable
/// attacker).
pub fn score_move_for_ordering(board: &Board, potential_move: &PotentialMove) -> (s: i32)
    requires
        potential_move.from.is_valid(),
        potential_move.to.is_valid(),
    ensures
        s == ordering_score(board@, *potential_move),
{
    let mut score: i32 = 0;
    if let Some(target_piece) = board.get_piece(&potential_move.to) {
        if let Some(moving_piece) = board.get_piece(&potential_move.from) {
            if target_piece.color != moving_piece.color {
                let target_value = piece_value(target_piece.bottom);
                let attacker_value = piece_value(moving_piece.bottom);
                score += target_value * 10 - attacker_value;
                if target_piece.bottom == PieceType::Commander {
                    score += 500;
                }
                if target_piece.bottom == PieceType::King {
                    score += 10000;
                }
            }
        }
    }
    let to_x = potential_move.to.x;
    let to_y = potential_move.to.y;
    if to_x >= 3 && to_x <= 5 && to_y >= 3 && to_y <= 5 {
        score += 30;
    }
    score
}

// ---------------------------------------------------------------------------
// Tactical penalties
// ---------------------------------------------------------------------------

/// The penalty term of one square, for White's benefit: a Commander on top
/// of a stack costs 50, and a piece in the enemy camp that no friendly
/// piece defends costs one and a half times its value (rounded down).
pub open spec fn square_penalty(m: BoardModel, i: int) -> int {
    match m.cells[i] {
        Some(p) => {
            let y = i / 9;
            let commander_on_top = if p.top == Some(PieceType::Commander) { 50int } else { 0 };
            let in_enemy_camp = (p.color == Color::White && y >= 6) || (p.color == Color::Black && y
                <= 2);
            let undefended = if in_enemy_camp && !defended_by(m, square_position(i), p.color) {
                (3 * minimax_worth(p.bottom)) / 2
            } else {
                0
            };
            if p.color == Color::White {
                -(commander_on_top + undefended)
            } else {
                commander_on_top + undefended
            }
        },
        None => 0,
    }
}

/// The penalty terms of the first `n` squares.
pub open spec fn penalties(m: BoardModel, n: int) -> int
    decreases n,
{
    if n <= 0 {
        0
    } else {
        penalties(m, n - 1) + square_penalty(m, n - 1)
    }
}

/// Tactical penalties over the whole board, for White's benefit.
pub fn evaluate_tactical_penalties(board: &Board) -> (v: i32)
    ensures
        v == penalties(board@, 81),
{
    let mut penalty: i32 = 0;
    let mut i: usize = 0;
    while i < 81
        invariant
            i <= 81,
            penalty == penalties(board@, i as int),
            -15050 * i <= penalty <= 15050 * i,
        decreases 81 - i,
    {
        let pos = Position::from_u8(i as u8);
        if let Some(piece) = board.get_piece(&pos) {
            let mut term: i32 = 0;
            if piece.top == Some(PieceType::Commander) {
                term += 50;
            }
            let y = pos.y;
            let in_enemy_territory = (piece.color == Color::White && y >= 6) || (piece.color
                == Color::Black && y <= 2);
            if in_enemy_territory && !is_defended(board, &pos, piece.color) {
                let piece_val = piece_value(piece.bottom);
                term += (3 * piece_val) / 2;
            }
            proof {
                assert(pos == square_position(i as int));
                assert(pos.y == i / 9);
            }
            if piece.color == Color::White {
                penalty -= term;
            } else {
                penalty += term;
            }
        }
        i += 1;
    }
    penalty
}

// ---------------------------------------------------------------------------
// Position keys of the minimax engine's table
// ---------------------------------------------------------------------------

/// Keys for 81 squares, each with 32 slots (16 per colour: 8 for the
/// bottom piece's type, 8 for the top piece's), and one more square's worth.
pub const MINIMAX_KEY_COUNT: usize = 2673;

/// A random 64-bit key.
/// Trusted: `rand::Rng::gen::<u64>` on the thread-local generator.  Any
/// value may come back, so nothing is promised of it.
#[verifier::external_body]
fn random_key() -> u64 {
    rand::thread_rng().gen::<u64>()
}

/// The key that the piece `p` on square `idx` contributes to a position's
/// hash: the key of its bottom piece, and that of its top piece if any.
pub open spec fn cell_key(keys: Seq<u64>, idx: int, c: Option<Piece>) -> u64 {
    match c {
        None => 0,
        Some(p) => {
            let base = idx * 32 + if p.color == Color::White { 0int } else { 16int };
            let bottom = keys[base + type_code(p.bottom) - 1];
            match p.top {
                Some(t) => bottom ^ keys[base + 8 + type_code(t) - 1],
                None => bottom,
            }
        },
    }
}

/// The keys of the pieces on the first `n` squares, combined.
pub open spec fn keyed_cells_hash(keys: Seq<u64>, cells: Seq<Option<Piece>>, n: int) -> u64
    decreases n,
{
    if n <= 0 {
        0
    } else {
        keyed_cells_hash(keys, cells, n - 1) ^ cell_key(keys, n - 1, cells[n - 1])
    }
}

/// The hash of a position under `keys`: the keys of its pieces, and the
/// first key when White is to move.
pub open spec fn keyed_hash(keys: Seq<u64>, m: BoardModel) -> u64 {
    keyed_cells_hash(keys, m.cells, 81) ^ if m.white_to_move { keys[0] } else { 0u64 }
}

/// Zobrist keys of the minimax engine, drawn at random when the engine is
/// built.
pub struct ZobristKeys {
    pieces: Vec<u64>,
}

impl ZobristKeys {
    #[verifier::type_invariant]
    spec fn has_all_keys(&self) -> bool {
        self.pieces@.len() == MINIMAX_KEY_COUNT
    }

    /// The keys, by slot.
    pub closed spec fn keys(&self) -> Seq<u64> {
        self.pieces@
    }

    /// Fresh random keys.
    pub fn new() -> (k: Self)
        ensures
            k.keys().len() == MINIMAX_KEY_COUNT,
    {
        let mut pieces: Vec<u64> = Vec::new();
        let mut i: usize = 0;
        while i < MINIMAX_KEY_COUNT
            invariant
                i <= MINIMAX_KEY_COUNT,
                pieces@.len() == i,
            decreases MINIMAX_KEY_COUNT - i,
        {
            pieces.push(random_key());
            i += 1;
        }
        ZobristKeys { pieces }
    }

    /// The hash of the position on `board`.
    pub fn hash_board(&self, board: &Board) -> (h: u64)
        ensures
            h == keyed_hash(self.keys(), board@),
    {
        proof {
            use_type_invariant(self);
        }
        let ghost m = board@;
        let mut hash: u64 = 0;
        let mut i: usize = 0;
        while i < 81
            invariant
                i <= 81,
                m == board@,
                self.pieces@.len() == MINIMAX_KEY_COUNT,
                hash == keyed_cells_hash(self.pieces@, m.cells, i as int),
            decreases 81 - i,
        {
            let pos = Position::from_u8(i as u8);
            if let Some(piece) = board.get_piece(&pos) {
                let color_offset: usize = if piece.color == Color::White {
                    0
                } else {
                    16
                };
                let key_idx = i * 32 + color_offset + self.piece_type_to_idx(piece.bottom);
                let mut cell = self.pieces[key_idx];
                if let Some(top_type) = piece.top {
                    let top_key_idx = i * 32 + color_offset + 8 + self.piece_type_to_idx(top_type);
                    cell = cell ^ self.pieces[top_key_idx];
                }
                hash = hash ^ cell;
            } else {
                assert(hash ^ 0u64 == hash) by (bit_vector);
            }
            i += 1;
        }
        if board.is_white_to_move() {
            hash = hash ^ self.pieces[0];
        } else {
            assert(hash ^ 0u64 == hash) by (bit_vector);
        }
        hash
    }

    /// The slot of a piece type among the eight of a colour and layer.
    fn piece_type_to_idx(&self, piece_type: PieceType) -> (i: usize)
        ensures
            i == type_code(piece_type) - 1,
    {
        match piece_type {
            PieceType::Soldier => 0,
            PieceType::Jester => 1,
            PieceType::Commander => 2,
            PieceType::Paladin => 3,
            PieceType::Guard => 4,
            PieceType::Dragon => 5,
            PieceType::Ballista => 6,
            PieceType::King => 7,
        }
    }
}

} // verus!
