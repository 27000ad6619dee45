//! Pinned-piece detection by ray casting.
//!
//! A piece is pinned when it stands between its own King and an enemy piece
//! that attacks along that line.  A pinned piece costs half its material
//! value.
use vstd::prelude::*;
use crate::board::{lemma_board_len, on_board, square_position, Board, BoardModel, Color, Piece, PieceType, Position, holds_king};
use crate::engine::eval::material::{stack_base_value, stack_worth};

verus! {

broadcast use lemma_board_len;

/// The first square, from `i` on, holding the King of `color`.
pub open spec fn king_square_from(cells: Seq<Option<Piece>>, color: Color, i: int) -> Option<int>
    decreases 81 - i,
{
    if i < 0 || i >= 81 {
        None
    } else if holds_king(cells, i, color) {
        Some(i)
    } else {
        king_square_from(cells, color, i + 1)
    }
}

/// The square of the King of `color` (the first one, in square order).
pub open spec fn king_square(m: BoardModel, color: Color) -> Option<int> {
    king_square_from(m.cells, color, 0)
}

/// A piece type attacking along a ray at distance `dist` from the King:
/// Bishop (Jester) on diagonals, Rook (Commander) and Ballista on lines,
/// Guard on diagonals and Paladin on lines within two squares.
pub open spec fn type_pins(t: PieceType, dist: int, diagonal: bool) -> bool {
    match t {
        PieceType::Jester => diagonal,
        PieceType::Commander => !diagonal,
        PieceType::Ballista => !diagonal,
        PieceType::Guard => diagonal && dist <= 2,
        PieceType::Paladin => !diagonal && dist <= 2,
        _ => false,
    }
}

/// The piece, or the piece on top of it, attacks along the ray.
pub open spec fn piece_pins(p: Piece, dist: int, diagonal: bool) -> bool {
    type_pins(p.bottom, dist, diagonal) || match p.top {
        Some(t) => type_pins(t, dist, diagonal),
        None => false,
    }
}

/// A stack attacks along a ray exactly when its bottom piece alone or its
/// top piece alone would: carrying a piece, or being carried, takes no
/// attacking power away and adds none.
pub proof fn lemma_stack_pins_by_either_piece(c: Color, b: PieceType, t: PieceType, dist: int, diagonal: bool)
    ensures
        piece_pins(Piece { color: c, bottom: b, top: Some(t) }, dist, diagonal) == (piece_pins(
            Piece { color: c, bottom: b, top: None },
            dist,
            diagonal,
        ) || piece_pins(Piece { color: c, bottom: t, top: None }, dist, diagonal)),
{
}

/// The single pieces that attack along a ray at distance `dist` (at least
/// one square) from the King: a Rook (Commander) or a Ballista along any
/// line, a Bishop (Jester) along any diagonal, a Paladin along a line and a
/// Guard along a diagonal within two squares; no other piece.
pub proof fn lemma_single_piece_pins(c: Color, t: PieceType, dist: int, diagonal: bool)
    requires
        dist >= 1,
    ensures
        piece_pins(Piece { color: c, bottom: t, top: None }, dist, diagonal) == (if diagonal {
            t == PieceType::Jester || (t == PieceType::Guard && dist <= 2)
        } else {
            t == PieceType::Commander || t == PieceType::Ballista || (t == PieceType::Paladin
                && dist <= 2)
        }),
{
}

/// Malus found walking from `king` along `(dx, dy)`, from distance `dist`,
/// with the value of the friendly piece met so far in `candidate`: the
/// first friendly piece is the candidate; a second one ends the walk; an
/// enemy ends it, pinning the candidate when it attacks along the ray.
pub open spec fn ray_pin(
    cells: Seq<Option<Piece>>,
    king: Position,
    dx: int,
    dy: int,
    color: Color,
    diagonal: bool,
    dist: int,
    candidate: Option<int>,
) -> int
    decreases 9 - dist,
{
    if dist < 1 || dist > 8 {
        0
    } else if !on_board(king.x + dx * dist, king.y + dy * dist) {
        0
    } else {
        match cells[(king.y + dy * dist) * 9 + king.x + dx * dist] {
            None => ray_pin(cells, king, dx, dy, color, diagonal, dist + 1, candidate),
            Some(p) => if p.color == color {
                if candidate is Some {
                    0
                } else {
                    ray_pin(cells, king, dx, dy, color, diagonal, dist + 1, Some(stack_worth(p)))
                }
            } else {
                match candidate {
                    Some(bv) => if piece_pins(p, dist, diagonal) { bv / 2 } else { 0 },
                    None => 0,
                }
            },
        }
    }
}

/// The square `dist` steps from `king` along `(dx, dy)` is on the board.
pub open spec fn ray_on_board(king: Position, dx: int, dy: int, dist: int) -> bool {
    on_board(king.x + dx * dist, king.y + dy * dist)
}

/// What stands `dist` steps from `king` along `(dx, dy)`.
pub open spec fn ray_square(cells: Seq<Option<Piece>>, king: Position, dx: int, dy: int, dist: int) -> Option<Piece> {
    cells[(king.y + dy * dist) * 9 + king.x + dx * dist]
}

proof fn lemma_ray_skips_empty(
    cells: Seq<Option<Piece>>,
    king: Position,
    dx: int,
    dy: int,
    color: Color,
    diagonal: bool,
    from: int,
    to: int,
    candidate: Option<int>,
)
    requires
        1 <= from <= to <= 8,
        forall|d: int|
            from <= d < to ==> ray_on_board(king, dx, dy, d) && #[trigger] ray_square(
                cells,
                king,
                dx,
                dy,
                d,
            ) is None,
    ensures
        ray_pin(cells, king, dx, dy, color, diagonal, from, candidate) == ray_pin(
            cells,
            king,
            dx,
            dy,
            color,
            diagonal,
            to,
            candidate,
        ),
    decreases to - from,
{
    if from < to {
        assert(ray_square(cells, king, dx, dy, from) is None);
        lemma_ray_skips_empty(cells, king, dx, dy, color, diagonal, from + 1, to, candidate);
    }
}

/// A pin along one ray: walking out from the King, when the first piece met
/// (at distance `a`) is friendly and the next (at distance `b`) is an
/// enemy, the ray costs half the value of the friendly piece if the enemy
/// attacks along the ray from where it stands, and nothing otherwise.
pub proof fn lemma_ray_pin_between(
    cells: Seq<Option<Piece>>,
    king: Position,
    dx: int,
    dy: int,
    color: Color,
    diagonal: bool,
    a: int,
    b: int,
)
    requires
        1 <= a < b <= 8,
        forall|d: int| 1 <= d <= b ==> #[trigger] ray_on_board(king, dx, dy, d),
        forall|d: int|
            1 <= d < b && d != a ==> #[trigger] ray_square(cells, king, dx, dy, d) is None,
        ray_square(cells, king, dx, dy, a) matches Some(q) && q.color == color,
        ray_square(cells, king, dx, dy, b) matches Some(p) && p.color != color,
    ensures
        ray_pin(cells, king, dx, dy, color, diagonal, 1, None) == if piece_pins(
            ray_square(cells, king, dx, dy, b).unwrap(),
            b,
            diagonal,
        ) {
            stack_worth(ray_square(cells, king, dx, dy, a).unwrap()) / 2
        } else {
            0
        },
{
    assert forall|d: int| 1 <= d < a implies ray_on_board(king, dx, dy, d) && #[trigger] ray_square(
        cells,
        king,
        dx,
        dy,
        d,
    ) is None by {
        assert(ray_on_board(king, dx, dy, d));
    }
    lemma_ray_skips_empty(cells, king, dx, dy, color, diagonal, 1, a, None);
    let q = ray_square(cells, king, dx, dy, a).unwrap();
    assert(ray_on_board(king, dx, dy, a));
    assert(ray_pin(cells, king, dx, dy, color, diagonal, a, None) == ray_pin(
        cells,
        king,
        dx,
        dy,
        color,
        diagonal,
        a + 1,
        Some(stack_worth(q)),
    ));
    assert forall|d: int| a + 1 <= d < b implies ray_on_board(king, dx, dy, d) && #[trigger] ray_square(
        cells,
        king,
        dx,
        dy,
        d,
    ) is None by {
        assert(ray_on_board(king, dx, dy, d));
    }
    lemma_ray_skips_empty(cells, king, dx, dy, color, diagonal, a + 1, b, Some(stack_worth(q)));
    assert(ray_on_board(king, dx, dy, b));
}

/// Malus of the pieces of `color` pinned against their King.
pub open spec fn pin_total(m: BoardModel, color: Color) -> int {
    match king_square(m, color) {
        None => 0,
        Some(i) => {
            let k = square_position(i);
            let c = m.cells;
            ray_pin(c, k, 1, 0, color, false, 1, None) + ray_pin(c, k, 0, 1, color, false, 1, None)
                + ray_pin(c, k, -1, 0, color, false, 1, None) + ray_pin(
                c,
                k,
                0,
                -1,
                color,
                false,
                1,
                None,
            ) + ray_pin(c, k, 1, 1, color, true, 1, None) + ray_pin(c, k, 1, -1, color, true, 1, None)
                + ray_pin(c, k, -1, -1, color, true, 1, None) + ray_pin(
                c,
                k,
                -1,
                1,
                color,
                true,
                1,
                None,
            )
        },
    }
}

proof fn lemma_ray_pin_bound(
    cells: Seq<Option<Piece>>,
    king: Position,
    dx: int,
    dy: int,
    color: Color,
    diagonal: bool,
    dist: int,
    candidate: Option<int>,
)
    requires
        candidate matches Some(bv) ==> 0 <= bv <= 2000,
    ensures
        0 <= ray_pin(cells, king, dx, dy, color, diagonal, dist, candidate) <= 1000,
    decreases 9 - dist,
{
    if dist < 1 || dist > 8 {
    } else if !on_board(king.x + dx * dist, king.y + dy * dist) {
    } else {
        match cells[(king.y + dy * dist) * 9 + king.x + dx * dist] {
            None => lemma_ray_pin_bound(cells, king, dx, dy, color, diagonal, dist + 1, candidate),
            Some(p) => {
                if p.color == color && candidate is None {
                    lemma_ray_pin_bound(
                        cells,
                        king,
                        dx,
                        dy,
                        color,
                        diagonal,
                        dist + 1,
                        Some(stack_worth(p)),
                    );
                }
            },
        }
    }
}

/// The pin malus is between 0 and 8000.
pub proof fn lemma_pin_total_bound(m: BoardModel, color: Color)
    ensures
        0 <= pin_total(m, color) <= 8000,
{
    match king_square(m, color) {
        None => {},
        Some(i) => {
            let k = square_position(i);
            let c = m.cells;
            lemma_ray_pin_bound(c, k, 1, 0, color, false, 1, None);
            lemma_ray_pin_bound(c, k, 0, 1, color, false, 1, None);
            lemma_ray_pin_bound(c, k, -1, 0, color, false, 1, None);
            lemma_ray_pin_bound(c, k, 0, -1, color, false, 1, None);
            lemma_ray_pin_bound(c, k, 1, 1, color, true, 1, None);
            lemma_ray_pin_bound(c, k, 1, -1, color, true, 1, None);
            lemma_ray_pin_bound(c, k, -1, -1, color, true, 1, None);
            lemma_ray_pin_bound(c, k, -1, 1, color, true, 1, None);
        },
    }
}

/// Find the square of the King of `color`.
pub fn find_king(board: &Board, color: Color) -> (r: Option<Position>)
    ensures
        r == match king_square(board@, color) {
            Some(i) => Some(square_position(i)),
            None => None,
        },
        r matches Some(p) ==> p.is_valid(),
{
    let mut i: usize = 0;
    while i < 81
        invariant
            i <= 81,
            king_square(board@, color) == king_square_from(board@.cells, color, i as int),
        decreases 81 - i,
    {
        let pos = Position::from_u8(i as u8);
        if let Some(piece) = board.get_piece(&pos) {
            if piece.color == color && piece.is_king() {
                return Some(pos);
            }
        }
        i += 1;
    }
    None
}

/// Total malus of the pieces of `color` pinned against their King; it is
/// subtracted from that side's score.
pub fn pinned_malus(board: &Board, color: Color) -> (v: i32)
    ensures
        v == pin_total(board@, color),
        0 <= v <= 8000,
{
    proof {
        lemma_pin_total_bound(board@, color);
    }
    let king_pos = match find_king(board, color) {
        Some(p) => p,
        None => {
            return 0;
        },
    };
    let orthogonal: [(isize, isize); 4] = [(1, 0), (0, 1), (-1, 0), (0, -1)];
    let diagonal: [(isize, isize); 4] = [(1, 1), (1, -1), (-1, -1), (-1, 1)];
    let mut total_malus: i32 = 0;
    let mut d: usize = 0;
    while d < 4
        invariant
            d <= 4,
            king_pos.is_valid(),
            orthogonal@ == seq![(1isize, 0isize), (0isize, 1isize), (-1isize, 0isize), (0isize, -1isize)],
            0 <= total_malus <= 1000 * d,
            total_malus == (if d > 0 { ray_pin(board@.cells, king_pos, 1, 0, color, false, 1, None) } else { 0 })
                + (if d > 1 { ray_pin(board@.cells, king_pos, 0, 1, color, false, 1, None) } else { 0 })
                + (if d > 2 { ray_pin(board@.cells, king_pos, -1, 0, color, false, 1, None) } else { 0 })
                + (if d > 3 { ray_pin(board@.cells, king_pos, 0, -1, color, false, 1, None) } else { 0 }),
        decreases 4 - d,
    {
        let (dx, dy) = orthogonal[d];
        let v = ray_pin_malus(board, king_pos, dx, dy, color, false);
        total_malus = total_malus + v;
        d += 1;
    }
    let mut d: usize = 0;
    let ghost ortho_total = total_malus as int;
    while d < 4
        invariant
            d <= 4,
            king_pos.is_valid(),
            diagonal@ == seq![(1isize, 1isize), (1isize, -1isize), (-1isize, -1isize), (-1isize, 1isize)],
            0 <= ortho_total <= 4000,
            0 <= total_malus - ortho_total <= 1000 * d,
            total_malus == ortho_total
                + (if d > 0 { ray_pin(board@.cells, king_pos, 1, 1, color, true, 1, None) } else { 0 })
                + (if d > 1 { ray_pin(board@.cells, king_pos, 1, -1, color, true, 1, None) } else { 0 })
                + (if d > 2 { ray_pin(board@.cells, king_pos, -1, -1, color, true, 1, None) } else { 0 })
                + (if d > 3 { ray_pin(board@.cells, king_pos, -1, 1, color, true, 1, None) } else { 0 }),
        decreases 4 - d,
    {
        let (dx, dy) = diagonal[d];
        let v = ray_pin_malus(board, king_pos, dx, dy, color, true);
        total_malus = total_malus + v;
        d += 1;
    }
    total_malus
}

/// Walk one ray from the King in direction `(dx, dy)` and return the malus
/// of the piece pinned on it, if any.
fn ray_pin_malus(
    board: &Board,
    king_pos: Position,
    dx: isize,
    dy: isize,
    friendly_color: Color,
    diagonal: bool,
) -> (v: i32)
    requires
        king_pos.is_valid(),
        -1 <= dx <= 1,
        -1 <= dy <= 1,
    ensures
        v == ray_pin(board@.cells, king_pos, dx as int, dy as int, friendly_color, diagonal, 1, None),
        0 <= v <= 1000,
{
    proof {
        lemma_ray_pin_bound(board@.cells, king_pos, dx as int, dy as int, friendly_color, diagonal, 1, None);
    }
    let ghost whole = ray_pin(board@.cells, king_pos, dx as int, dy as int, friendly_color, diagonal, 1, None);
    let mut pin_candidate: Option<(Position, i32)> = None;
    let mut dist: isize = 1;
    while dist <= 8
        invariant
            1 <= dist <= 9,
            king_pos.is_valid(),
            -1 <= dx <= 1,
            -1 <= dy <= 1,
            pin_candidate matches Some(c) ==> 0 < c.1 <= 2000,
            whole == ray_pin(board@.cells, king_pos, dx as int, dy as int, friendly_color, diagonal, 1, None),
            whole == ray_pin(
                board@.cells,
                king_pos,
                dx as int,
                dy as int,
                friendly_color,
                diagonal,
                dist as int,
                match pin_candidate {
                    Some(c) => Some(c.1 as int),
                    None => None,
                },
            ),
        decreases 9 - dist,
    {
        assert(-8 <= dx * dist <= 8 && -8 <= dy * dist <= 8) by (nonlinear_arith)
            requires
                -1 <= dx <= 1,
                -1 <= dy <= 1,
                1 <= dist <= 8,
        ;
        let ghost cand = match pin_candidate {
            Some(c) => Some(c.1 as int),
            None => None,
        };
        let ghost here = ray_pin(
            board@.cells,
            king_pos,
            dx as int,
            dy as int,
            friendly_color,
            diagonal,
            dist as int,
            cand,
        );
        let nx = king_pos.x as isize + dx * dist;
        let ny = king_pos.y as isize + dy * dist;
        if !Position::validate(nx, ny) {
            assert(here == 0);
            return 0;
        }
        let pos = Position::new(nx as usize, ny as usize);
        assert(pos.index() == (king_pos.y + dy * dist) * 9 + king_pos.x + dx * dist);
        match board.get_piece(&pos) {
            None => {
                dist += 1;
            },
            Some(piece) => {
                if piece.color == friendly_color {
                    if pin_candidate.is_some() {
                        assert(here == 0);
                        return 0;
                    }
                    let bv = stack_base_value(piece);
                    pin_candidate = Some((pos, bv));
                    dist += 1;
                } else {
                    if let Some((_, bv)) = pin_candidate {
                        if can_pin_along_ray(piece, dist, diagonal) {
                            return bv / 2;
                        }
                    }
                    return 0;
                }
            },
        }
    }
    0
}

/// The piece, or the piece on top of it, attacks along this kind of ray at
/// distance `dist`.
fn can_pin_along_ray(piece: &Piece, dist: isize, diagonal: bool) -> (r: bool)
    ensures
        r == piece_pins(*piece, dist as int, diagonal),
{
    let bottom_pins = match piece.bottom {
        PieceType::Jester => diagonal,
        PieceType::Commander => !diagonal,
        PieceType::Ballista => !diagonal,
        PieceType::Guard => diagonal && dist <= 2,
        PieceType::Paladin => !diagonal && dist <= 2,
        _ => false,
    };
    if bottom_pins {
        return true;
    }
    if let Some(top) = piece.top {
        match top {
            PieceType::Jester => {
                if diagonal {
                    return true;
                }
            },
            PieceType::Commander | PieceType::Ballista => {
                if !diagonal {
                    return true;
                }
            },
            PieceType::Guard => {
                if diagonal && dist <= 2 {
                    return true;
                }
            },
            PieceType::Paladin => {
                if !diagonal && dist <= 2 {
                    return true;
                }
            },
            _ => {},
        }
    }
    false
}

} // verus!
