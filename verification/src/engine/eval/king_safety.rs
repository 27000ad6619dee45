//! King safety: the mobility of each King.
use vstd::prelude::*;
use crate::board::{square_position, BoardModel, Color};
use crate::engine::constants::KING_MOBILITY_WEIGHT;
use crate::engine::eval::mobility::as_mover;
use crate::engine::eval::pins::{find_king, king_square};
use crate::game::{position_moves, Game, MoveGenerator};
use crate::legality::lemma_position_moves_len;

verus! {

/// Number of potential moves of the King of `color` (0 without King).
pub open spec fn king_mobility(m: BoardModel, color: Color) -> int {
    match king_square(m, color) {
        None => 0,
        Some(i) => position_moves(as_mover(m, color), square_position(i)).len() as int,
    }
}

/// The King-mobility term of the evaluation, from White's point of view.
pub open spec fn king_mobility_score(m: BoardModel) -> int {
    (king_mobility(m, Color::White) - king_mobility(m, Color::Black)) * KING_MOBILITY_WEIGHT
}

/// The King-mobility term: the difference of the Kings' move counts,
/// weighted.
pub fn king_mobility_term(game: &Game) -> (v: i32)
    ensures
        v == king_mobility_score(game.board@),
        -288 <= v <= 288,
{
    let white_mob = king_mobility_for(game, Color::White);
    let black_mob = king_mobility_for(game, Color::Black);
    (white_mob - black_mob) * KING_MOBILITY_WEIGHT
}

/// Count the moves available to the King of `color`.
pub fn king_mobility_for(game: &Game, color: Color) -> (v: i32)
    ensures
        v == king_mobility(game.board@, color),
        0 <= v <= 144,
{
    let king_pos = match find_king(&game.board, color) {
        Some(p) => p,
        None => {
            return 0;
        },
    };
    let color_flag = color == Color::White;
    let generator = MoveGenerator::new(&game.board, color_flag);
    let moves = generator.get_moves(&king_pos);
    proof {
        lemma_position_moves_len(as_mover(game.board@, color), king_pos);
    }
    moves.len() as i32
}

} // verus!
