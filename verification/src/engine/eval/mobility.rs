//! Mobility: the number of distinct squares a piece can reach.
use vstd::prelude::*;
use crate::board::{BoardModel, Color, Piece, Position};
use crate::engine::constants::MOBILITY_WEIGHT;
use crate::game::{position_moves, Game, MoveGenerator, PotentialMove};

verus! {

/// Some move of `moves` lands on square `i`.
pub open spec fn reaches(moves: Seq<PotentialMove>, i: int) -> bool {
    exists|j: int|
        0 <= j < moves.len() && (#[trigger] moves[j]).to.is_valid() && moves[j].to.index() == i
}

/// Number of squares among the first `n` that some move of `moves` reaches.
pub open spec fn dest_count(moves: Seq<PotentialMove>, n: int) -> nat
    decreases n,
{
    if n <= 0 {
        0
    } else {
        dest_count(moves, n - 1) + if reaches(moves, n - 1) { 1nat } else { 0nat }
    }
}

/// The board with `color` to move.
pub open spec fn as_mover(m: BoardModel, color: Color) -> BoardModel {
    BoardModel { white_to_move: color == Color::White, ..m }
}

/// Number of distinct squares the piece on `pos`, of `piece`'s colour, can
/// move to.
pub open spec fn reachable_squares(m: BoardModel, piece: Piece, pos: Position) -> nat {
    dest_count(position_moves(as_mover(m, piece.color), pos), 81)
}

/// Mobility bonus of `piece` standing on `pos`: the number of squares it
/// can reach (captures and empty squares included; for a stack, the union
/// of the destinations of both pieces).
pub fn mobility_bonus(piece: &Piece, pos: Position, game: &Game) -> (v: i32)
    requires
        pos.is_valid(),
    ensures
        v == reachable_squares(game.board@, *piece, pos) * MOBILITY_WEIGHT,
        0 <= v <= 81,
{
    let count = reachable_square_count(piece, pos, game);
    count as i32 * MOBILITY_WEIGHT
}

fn reachable_square_count(piece: &Piece, pos: Position, game: &Game) -> (n: usize)
    requires
        pos.is_valid(),
    ensures
        n == reachable_squares(game.board@, *piece, pos),
        n <= 81,
{
    let color_flag = piece.color == Color::White;
    let generator = MoveGenerator::new(&game.board, color_flag);
    let potential_moves = generator.get_moves(&pos);
    let ghost moves = potential_moves@;
    assert(moves == position_moves(as_mover(game.board@, piece.color), pos));
    let mut marks: [bool; 81] = [false; 81];
    let mut j: usize = 0;
    while j < potential_moves.len()
        invariant
            j <= moves.len(),
            moves == potential_moves@,
            forall|i: int|
                0 <= i < 81 ==> (#[trigger] marks@[i] <==> exists|k: int|
                    0 <= k < j && (#[trigger] moves[k]).to.is_valid() && moves[k].to.index()
                        == i),
        decreases moves.len() - j,
    {
        let to = potential_moves[j].to;
        if to.x < 9 && to.y < 9 {
            let idx = to.y * 9 + to.x;
            marks[idx] = true;
            assert forall|i: int| 0 <= i < 81 implies (#[trigger] marks@[i] <==> exists|k: int|
                0 <= k < j + 1 && (#[trigger] moves[k]).to.is_valid() && moves[k].to.index()
                    == i) by {
                if i == idx {
                    assert(moves[j as int].to.index() == i);
                } else if marks@[i] {
                    let k = choose|k: int|
                        0 <= k < j && (#[trigger] moves[k]).to.is_valid() && moves[k].to.index()
                            == i;
                    assert(0 <= k < j + 1);
                }
            }
        } else {
            assert forall|i: int| 0 <= i < 81 implies (#[trigger] marks@[i] <==> exists|k: int|
                0 <= k < j + 1 && (#[trigger] moves[k]).to.is_valid() && moves[k].to.index()
                    == i) by {
                if marks@[i] {
                    let k = choose|k: int|
                        0 <= k < j && (#[trigger] moves[k]).to.is_valid() && moves[k].to.index()
                            == i;
                    assert(0 <= k < j + 1);
                }
            }
        }
        j += 1;
    }
    let mut count: usize = 0;
    let mut i: usize = 0;
    while i < 81
        invariant
            i <= 81,
            count == dest_count(moves, i as int),
            count <= i,
            forall|q: int| 0 <= q < 81 ==> (#[trigger] marks@[q] <==> reaches(moves, q)),
        decreases 81 - i,
    {
        if marks[i] {
            count += 1;
        }
        i += 1;
    }
    count
}

} // verus!
