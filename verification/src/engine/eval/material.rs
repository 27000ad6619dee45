//! Material and placement terms of the evaluation.
use vstd::prelude::*;
use crate::board::{Color, Piece, PieceType, Position};
use crate::engine::constants::{ADVANCE_WEIGHT, CENTRALITY_WEIGHT, TEMPO_BONUS};

verus! {

/// Material value of a piece type: Soldier 10, Guard 25, Paladin 30,
/// Bishop (Jester) 40, Knight (Dragon) 40, Ballista 45, Rook (Commander) 60,
/// King 1000.
pub open spec fn piece_worth(t: PieceType) -> int {
    match t {
        PieceType::Soldier => 10,
        PieceType::Guard => 25,
        PieceType::Paladin => 30,
        PieceType::Jester => 40,
        PieceType::Dragon => 40,
        PieceType::Ballista => 45,
        PieceType::Commander => 60,
        PieceType::King => 1000,
    }
}

/// Material value of a square's content: both pieces of a stack count.
pub open spec fn stack_worth(p: Piece) -> int {
    piece_worth(p.bottom) + match p.top {
        Some(t) => piece_worth(t),
        None => 0,
    }
}

pub open spec fn abs_diff(a: int, b: int) -> int {
    if a >= b { a - b } else { b - a }
}

/// Bonus for standing close to the centre: 8 minus the Manhattan distance
/// to the centre square.
pub open spec fn centrality(pos: Position) -> int {
    (8 - (abs_diff(pos.x as int, 4) + abs_diff(pos.y as int, 4))) * CENTRALITY_WEIGHT
}

/// Bonus of a Soldier or Ballista (the top piece of a stack, else the
/// piece) for each rank it has advanced towards promotion.
pub open spec fn advance_bonus(p: Piece, pos: Position) -> int {
    let active = match p.top {
        Some(t) => t,
        None => p.bottom,
    };
    if active == PieceType::Soldier || active == PieceType::Ballista {
        (if p.color == Color::White { 8 - pos.y } else { pos.y as int }) * ADVANCE_WEIGHT
    } else {
        0
    }
}

/// Bonus of the side to move, from White's point of view.
pub open spec fn tempo_value(white_to_move: bool) -> int {
    if white_to_move { TEMPO_BONUS as int } else { -TEMPO_BONUS }
}

/// Material value of a piece type.
pub fn base_value(t: PieceType) -> (v: i32)
    ensures
        v == piece_worth(t),
{
    match t {
        PieceType::Soldier => 10,
        PieceType::Guard => 25,
        PieceType::Paladin => 30,
        PieceType::Jester => 40,
        PieceType::Dragon => 40,
        PieceType::Ballista => 45,
        PieceType::Commander => 60,
        PieceType::King => 1000,
    }
}

/// Material value of a piece and the piece stacked on it.
pub fn stack_base_value(piece: &Piece) -> (v: i32)
    ensures
        v == stack_worth(*piece),
        0 < v <= 2000,
{
    let top = match piece.top {
        Some(t) => base_value(t),
        None => 0,
    };
    base_value(piece.bottom) + top
}

/// Placement bonus of a piece on `pos`.
pub fn pst_bonus(piece: &Piece, pos: Position) -> (v: i32)
    requires
        pos.is_valid(),
    ensures
        v == centrality(pos),
        0 <= v <= 8,
{
    let dx = if pos.x > 4 { pos.x - 4 } else { 4 - pos.x };
    let dy = if pos.y > 4 { pos.y - 4 } else { 4 - pos.y };
    ((8 - (dx + dy)) as i32) * CENTRALITY_WEIGHT
}

/// Bonus of a piece about to promote.
pub fn promotion_bonus(piece: &Piece, pos: Position) -> (v: i32)
    requires
        pos.is_valid(),
    ensures
        v == advance_bonus(*piece, pos),
        0 <= v <= 16,
{
    let active = match piece.top {
        Some(t) => t,
        None => piece.bottom,
    };
    if active == PieceType::Soldier || active == PieceType::Ballista {
        let rank: i32 = match piece.color {
            Color::White => (8 - pos.y) as i32,
            Color::Black => pos.y as i32,
        };
        rank * ADVANCE_WEIGHT
    } else {
        0
    }
}

/// Bonus of the side to move, from White's point of view.
pub fn tempo_score(white_to_move: bool) -> (v: i32)
    ensures
        v == tempo_value(white_to_move),
{
    if white_to_move {
        TEMPO_BONUS
    } else {
        -TEMPO_BONUS
    }
}

} // verus!
