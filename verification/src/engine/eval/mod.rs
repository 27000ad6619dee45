//! Static evaluation of positions.
//!
//! `evaluate` counts material from the side to move's point of view;
//! `evaluate_absolute` adds placement, mobility, pins, King mobility and
//! tempo, from White's point of view.
pub mod king_safety;
pub mod material;
pub mod mobility;
pub mod pins;

use vstd::prelude::*;
use crate::board::{lemma_board_len, square_position, Board, BoardModel, Color, Piece, PieceType, Position};
use crate::engine::constants::{KING_MOBILITY_WEIGHT, MATE_SCORE, MOBILITY_WEIGHT};
use crate::engine::eval::king_safety::{king_mobility, king_mobility_for, king_mobility_score, king_mobility_term};
use crate::engine::eval::material::{
    advance_bonus, base_value, centrality, piece_worth, promotion_bonus, pst_bonus, stack_base_value,
    stack_worth, tempo_score, tempo_value,
};
use crate::engine::eval::mobility::{mobility_bonus, reachable_squares};
use crate::engine::eval::pins::{pin_total, pinned_malus};
use crate::game::Game;

verus! {

broadcast use lemma_board_len;

/// Material value of a piece type.
pub fn piece_value(pt: PieceType) -> (v: i32)
    ensures
        v == piece_worth(pt),
{
    base_value(pt)
}

/// Material of `color` on the first `n` squares.
pub open spec fn side_material(cells: Seq<Option<Piece>>, n: int, color: Color) -> int
    decreases n,
{
    if n <= 0 {
        0
    } else {
        side_material(cells, n - 1, color) + match cells[n - 1] {
            Some(p) => if p.color == color { stack_worth(p) } else { 0 },
            None => 0,
        }
    }
}

/// Material evaluation from the side to move's point of view: 0 for a
/// drawn game, minus the mate score for any other finished game (the side
/// to move is the one whose King was taken), else the material difference.
pub open spec fn material_score(m: BoardModel) -> int {
    if m.is_over() {
        if m.drawn { 0 } else { -MATE_SCORE }
    } else {
        let diff = side_material(m.cells, 81, Color::White) - side_material(m.cells, 81, Color::Black);
        if m.white_to_move { diff } else { -diff }
    }
}

/// Handing the move to the other side negates the material score of a
/// game in progress.
pub proof fn lemma_material_score_turn_symmetry(m: BoardModel)
    requires
        !m.is_over(),
    ensures
        material_score(BoardModel { white_to_move: !m.white_to_move, ..m }) == -material_score(m),
{
}

/// Evaluate the board from the side to move's point of view by counting
/// material; finished games score as draws or losses.
pub fn evaluate(board: &Board) -> (v: i32)
    ensures
        v == material_score(board@),
{
    if board.is_game_over() {
        if board.is_draw() {
            return 0;
        }
        return -MATE_SCORE;
    }
    let mut white_material: i32 = 0;
    let mut black_material: i32 = 0;
    let mut sq: usize = 0;
    while sq < 81
        invariant
            sq <= 81,
            white_material == side_material(board@.cells, sq as int, Color::White),
            black_material == side_material(board@.cells, sq as int, Color::Black),
            0 <= white_material <= 2000 * sq,
            0 <= black_material <= 2000 * sq,
        decreases 81 - sq,
    {
        let pos = Position::from_u8(sq as u8);
        if let Some(piece) = board.get_piece(&pos) {
            let v = stack_base_value(piece);
            if piece.color == Color::White {
                white_material = white_material + v;
            } else {
                black_material = black_material + v;
            }
        }
        sq += 1;
    }
    let diff = white_material - black_material;
    if board.is_white_to_move() {
        diff
    } else {
        -diff
    }
}

/// Value of a piece on `pos` in the full evaluation: material, placement,
/// mobility and promotion bonus.
pub open spec fn weighted_worth(m: BoardModel, p: Piece, pos: Position) -> int {
    stack_worth(p) + centrality(pos) + reachable_squares(m, p, pos) * MOBILITY_WEIGHT
        + advance_bonus(p, pos)
}

/// Sum of the weighted values of the pieces of `color` on the first `n`
/// squares.
pub open spec fn side_weighted(m: BoardModel, n: int, color: Color) -> int
    decreases n,
{
    if n <= 0 {
        0
    } else {
        side_weighted(m, n - 1, color) + match m.cells[n - 1] {
            Some(p) => if p.color == color {
                weighted_worth(m, p, square_position(n - 1))
            } else {
                0
            },
            None => 0,
        }
    }
}

/// The full evaluation from White's point of view.
pub open spec fn absolute_score(m: BoardModel) -> int {
    side_weighted(m, 81, Color::White) - side_weighted(m, 81, Color::Black) + pin_total(
        m,
        Color::Black,
    ) - pin_total(m, Color::White) + king_mobility_score(m) + tempo_value(m.white_to_move)
}

/// Value of `piece` standing on `pos` in the full evaluation.
pub fn weighted_value(piece: &Piece, pos: Position, game: &Game) -> (v: i32)
    requires
        pos.is_valid(),
    ensures
        v == weighted_worth(game.board@, *piece, pos),
        0 < v <= 2105,
{
    stack_base_value(piece) + pst_bonus(piece, pos) + mobility_bonus(piece, pos, game)
        + promotion_bonus(piece, pos)
}

/// Evaluate the position from White's point of view: positive when White
/// stands better.
pub fn evaluate_absolute(game: &Game) -> (v: i32)
    ensures
        v == absolute_score(game.board@),
        -200_000 <= v <= 200_000,
{
    let ghost m = game.board@;
    let mut white_total: i32 = 0;
    let mut black_total: i32 = 0;
    let mut sq: usize = 0;
    while sq < 81
        invariant
            sq <= 81,
            m == game.board@,
            white_total == side_weighted(m, sq as int, Color::White),
            black_total == side_weighted(m, sq as int, Color::Black),
            0 <= white_total <= 2105 * sq,
            0 <= black_total <= 2105 * sq,
        decreases 81 - sq,
    {
        let pos = Position::from_u8(sq as u8);
        if let Some(piece) = game.board.get_piece(&pos) {
            let wv = weighted_value(piece, pos, game);
            if piece.color == Color::White {
                white_total = white_total + wv;
            } else {
                black_total = black_total + wv;
            }
        }
        sq += 1;
    }
    let mut score = white_total - black_total;
    score = score + pinned_malus(&game.board, Color::Black);
    score = score - pinned_malus(&game.board, Color::White);
    score = score + king_mobility_term(game);
    score = score + tempo_score(game.is_white_to_move());
    score
}

/// Contribution of one square to the detailed evaluation.
pub struct SquareEval {
    pub x: usize,
    pub y: usize,
    pub piece: Piece,
    pub base_value: i32,
    pub pst_bonus: i32,
    pub mobility_bonus: i32,
    pub promotion_bonus: i32,
    pub total: i32,
}

/// The detailed evaluation of the piece `p` on square `i`.
pub open spec fn square_eval(m: BoardModel, i: int, p: Piece) -> SquareEval {
    let pos = square_position(i);
    SquareEval {
        x: pos.x,
        y: pos.y,
        piece: p,
        base_value: stack_worth(p) as i32,
        pst_bonus: centrality(pos) as i32,
        mobility_bonus: (reachable_squares(m, p, pos) * MOBILITY_WEIGHT) as i32,
        promotion_bonus: advance_bonus(p, pos) as i32,
        total: weighted_worth(m, p, pos) as i32,
    }
}

/// The detailed evaluations of the occupied squares among the first `n`,
/// in square order.
pub open spec fn square_evals(m: BoardModel, n: int) -> Seq<SquareEval>
    decreases n,
{
    if n <= 0 {
        seq![]
    } else {
        square_evals(m, n - 1) + match m.cells[n - 1] {
            Some(p) => seq![square_eval(m, n - 1, p)],
            None => seq![],
        }
    }
}

/// The detailed evaluation of a position, for debugging tools.
pub struct BoardEval {
    /// One entry per occupied square, in square order.
    pub per_square: Vec<SquareEval>,
    pub white_total: i32,
    pub black_total: i32,
    pub pinned_malus_white: i32,
    pub pinned_malus_black: i32,
    pub king_mobility_white: i32,
    pub king_mobility_black: i32,
    pub tempo: i32,
    pub final_score: i32,
}

/// The evaluation of `evaluate_absolute`, term by term.
pub fn evaluate_verbose(game: &Game) -> (e: BoardEval)
    ensures
        e.white_total == side_weighted(game.board@, 81, Color::White),
        e.black_total == side_weighted(game.board@, 81, Color::Black),
        e.pinned_malus_white == pin_total(game.board@, Color::White),
        e.pinned_malus_black == pin_total(game.board@, Color::Black),
        e.king_mobility_white == king_mobility(game.board@, Color::White),
        e.king_mobility_black == king_mobility(game.board@, Color::Black),
        e.tempo == tempo_value(game.board@.white_to_move),
        e.final_score == absolute_score(game.board@),
        e.per_square@ == square_evals(game.board@, 81),
{
    let ghost m = game.board@;
    let mut per_square: Vec<SquareEval> = Vec::new();
    let mut white_total: i32 = 0;
    let mut black_total: i32 = 0;
    let mut sq: usize = 0;
    while sq < 81
        invariant
            sq <= 81,
            m == game.board@,
            white_total == side_weighted(m, sq as int, Color::White),
            black_total == side_weighted(m, sq as int, Color::Black),
            0 <= white_total <= 2105 * sq,
            0 <= black_total <= 2105 * sq,
            per_square@ == square_evals(m, sq as int),
        decreases 81 - sq,
    {
        let pos = Position::from_u8(sq as u8);
        if let Some(piece) = game.board.get_piece(&pos) {
            let bv = stack_base_value(piece);
            let pst = pst_bonus(piece, pos);
            let mob = mobility_bonus(piece, pos, game);
            let promo = promotion_bonus(piece, pos);
            let total = bv + pst + mob + promo;
            if piece.color == Color::White {
                white_total = white_total + total;
            } else {
                black_total = black_total + total;
            }
            per_square.push(
                SquareEval {
                    x: pos.x,
                    y: pos.y,
                    piece: *piece,
                    base_value: bv,
                    pst_bonus: pst,
                    mobility_bonus: mob,
                    promotion_bonus: promo,
                    total,
                },
            );
        }
        sq += 1;
    }
    let pinned_malus_white = pinned_malus(&game.board, Color::White);
    let pinned_malus_black = pinned_malus(&game.board, Color::Black);
    let king_mobility_white = king_mobility_for(game, Color::White);
    let king_mobility_black = king_mobility_for(game, Color::Black);
    let tempo = tempo_score(game.is_white_to_move());
    let final_score = white_total - black_total + pinned_malus_black - pinned_malus_white + (
    king_mobility_white - king_mobility_black) * KING_MOBILITY_WEIGHT + tempo;
    BoardEval {
        per_square,
        white_total,
        black_total,
        pinned_malus_white,
        pinned_malus_black,
        king_mobility_white,
        king_mobility_black,
        tempo,
        final_score,
    }
}

} // verus!
