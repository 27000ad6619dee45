//! End of game: missing Kings, the no-capture limit, and material too weak
//! to win on both sides.
use vstd::prelude::*;
use crate::board::{lemma_board_len, square_position, Board, BoardModel, Color, Piece, PieceType, Position};

verus! {

broadcast use lemma_board_len;

/// Moves without a capture after which the game is drawn.
pub const NO_CAPTURE_LIMIT: u8 = 40;

pub struct GameOverResult {
    pub game_over: bool,
    pub white_wins: bool,
    pub draw: bool,
}

impl GameOverResult {
    pub fn ongoing() -> (r: Self)
        ensures
            !r.game_over,
            !r.white_wins,
            !r.draw,
    {
        GameOverResult { game_over: false, white_wins: false, draw: false }
    }
}

/// Soldier becomes Paladin and Ballista becomes Rook (the Commander); other
/// types stay.
pub open spec fn promoted_type(t: PieceType) -> PieceType {
    match t {
        PieceType::Soldier => PieceType::Paladin,
        PieceType::Ballista => PieceType::Commander,
        _ => t,
    }
}

pub open spec fn promotable(t: PieceType) -> bool {
    t == PieceType::Soldier || t == PieceType::Ballista
}

/// The promoted piece when `piece` stands on its far rank with a Soldier or
/// Ballista in it: both components are promoted.
pub open spec fn stack_promotion(piece: Piece, position: Position) -> Option<Piece> {
    let far = match piece.color {
        Color::White => position.y == 0,
        Color::Black => position.y == 8,
    };
    let top_promotes = match piece.top {
        Some(t) => promotable(t),
        None => false,
    };
    if !far || !(promotable(piece.bottom) || top_promotes) {
        None
    } else {
        Some(
            Piece {
                color: piece.color,
                bottom: promoted_type(piece.bottom),
                top: match piece.top {
                    Some(t) => Some(promoted_type(t)),
                    None => None,
                },
            },
        )
    }
}

fn promote_piece_type(piece_type: PieceType) -> (r: PieceType)
    ensures
        r == promoted_type(piece_type),
{
    match piece_type {
        PieceType::Soldier => PieceType::Paladin,
        PieceType::Ballista => PieceType::Commander,
        _ => piece_type,
    }
}

/// The promoted piece if `piece` reached the opposite side carrying a
/// Soldier or a Ballista.
pub fn check_promotion(piece: &Piece, position: &Position) -> (r: Option<Piece>)
    requires
        !(piece.bottom == PieceType::King && piece.top is Some && stack_promotion(
            *piece,
            *position,
        ) is Some),
    ensures
        r == stack_promotion(*piece, *position),
{
    let reached_opposite_side = match piece.color {
        Color::White => position.y == 0,
        Color::Black => position.y == 8,
    };
    if !reached_opposite_side {
        return None;
    }
    let bottom_needs_promotion = piece.bottom == PieceType::Soldier || piece.bottom
        == PieceType::Ballista;
    let top_needs_promotion = match piece.top {
        Some(t) => t == PieceType::Soldier || t == PieceType::Ballista,
        None => false,
    };
    if !bottom_needs_promotion && !top_needs_promotion {
        return None;
    }
    let promoted_bottom = promote_piece_type(piece.bottom);
    let promoted_top = match piece.top {
        Some(t) => Some(promote_piece_type(t)),
        None => None,
    };
    Some(Piece::new(piece.color, promoted_bottom, promoted_top))
}

/// The pieces of `color` among the first `n` squares, with their squares,
/// in square order.
pub open spec fn side_prefix(cells: Seq<Option<Piece>>, n: int, color: Color) -> Seq<(Piece, Position)>
    decreases n,
{
    if n <= 0 {
        seq![]
    } else {
        side_prefix(cells, n - 1, color) + match cells[n - 1] {
            Some(p) => if p.color == color {
                seq![(p, square_position(n - 1))]
            } else {
                seq![]
            },
            None => seq![],
        }
    }
}

/// The pieces of `color` on the board.
pub open spec fn side_pieces(m: BoardModel, color: Color) -> Seq<(Piece, Position)> {
    side_prefix(m.cells, 81, color)
}

/// The King of `color` is on the board.
pub open spec fn has_king(m: BoardModel, color: Color) -> bool {
    exists|i: int|
        0 <= i < 81 && match #[trigger] m.cells[i] {
            Some(p) => p.bottom == PieceType::King && p.color == color,
            None => false,
        }
}

/// The entries of `ps` that are not Kings.
pub open spec fn non_kings(ps: Seq<(Piece, Position)>) -> Seq<(Piece, Position)>
    decreases ps.len(),
{
    if ps.len() == 0 {
        seq![]
    } else {
        non_kings(ps.drop_last()) + if ps.last().0.bottom == PieceType::King {
            seq![]
        } else {
            seq![ps.last()]
        }
    }
}

/// The piece is or carries a Bishop (the Jester) or a Guard.
pub open spec fn bishop_or_guard(p: Piece) -> bool {
    p.bottom == PieceType::Jester || p.bottom == PieceType::Guard || p.top == Some(
        PieceType::Jester,
    ) || p.top == Some(PieceType::Guard)
}

/// Colour of a square: light when `x + y` is even.
pub open spec fn light_square(pos: Position) -> bool {
    (pos.x + pos.y) % 2 == 0
}

/// A side that cannot win: only its King, or a lone single Knight (the
/// Dragon), or only Bishops and Guards all standing on squares of one
/// colour.
pub open spec fn insufficient_material(ps: Seq<(Piece, Position)>) -> bool {
    let nk = non_kings(ps);
    ||| nk.len() == 0
    ||| (nk.len() == 1 && nk[0].0.bottom == PieceType::Dragon && nk[0].0.top is None)
    ||| (forall|i: int|
        0 <= i < nk.len() ==> bishop_or_guard(#[trigger] nk[i].0) && light_square(nk[i].1)
            == light_square(nk[0].1))
}

proof fn lemma_side_prefix_has(cells: Seq<Option<Piece>>, n: int, color: Color, i: int)
    requires
        0 <= i < n <= cells.len(),
        cells[i] matches Some(p) && p.color == color,
    ensures
        side_prefix(cells, n, color).contains((cells[i].unwrap(), square_position(i))),
    decreases n,
{
    let e = (cells[i].unwrap(), square_position(i));
    let prev = side_prefix(cells, n - 1, color);
    if i < n - 1 {
        lemma_side_prefix_has(cells, n - 1, color, i);
        let k = choose|k: int| 0 <= k < prev.len() && prev[k] == e;
        assert(side_prefix(cells, n, color)[k] == e);
    } else {
        assert(side_prefix(cells, n, color)[prev.len() as int] == e);
    }
}

proof fn lemma_non_kings_has(ps: Seq<(Piece, Position)>, e: (Piece, Position))
    requires
        ps.contains(e),
        e.0.bottom != PieceType::King,
    ensures
        non_kings(ps).contains(e),
    decreases ps.len(),
{
    let prev = non_kings(ps.drop_last());
    if ps.last() == e {
        assert(non_kings(ps)[prev.len() as int] == e);
    } else {
        let k = choose|k: int| 0 <= k < ps.len() && ps[k] == e;
        assert(ps.drop_last()[k] == e);
        lemma_non_kings_has(ps.drop_last(), e);
        let j = choose|j: int| 0 <= j < prev.len() && prev[j] == e;
        assert(non_kings(ps)[j] == e);
    }
}

/// Bishops and Guards on squares of both colours can still win: when a
/// side has a Bishop (Jester) or a Guard on a light square and another on a
/// dark square, it does not lack material.
pub proof fn lemma_bishops_on_both_colours_suffice(m: BoardModel, color: Color, i: int, j: int)
    requires
        m.cells.len() == 81,
        0 <= i < 81,
        0 <= j < 81,
        m.cells[i] matches Some(p) && p.color == color && (p.bottom == PieceType::Jester
            || p.bottom == PieceType::Guard),
        m.cells[j] matches Some(q) && q.color == color && (q.bottom == PieceType::Jester
            || q.bottom == PieceType::Guard),
        (i % 9 + i / 9) % 2 != (j % 9 + j / 9) % 2,
    ensures
        !insufficient_material(side_pieces(m, color)),
{
    let ps = side_pieces(m, color);
    let ei = (m.cells[i].unwrap(), square_position(i));
    let ej = (m.cells[j].unwrap(), square_position(j));
    lemma_side_prefix_has(m.cells, 81, color, i);
    lemma_side_prefix_has(m.cells, 81, color, j);
    lemma_non_kings_has(ps, ei);
    lemma_non_kings_has(ps, ej);
    let nk = non_kings(ps);
    let a = choose|a: int| 0 <= a < nk.len() && nk[a] == ei;
    let b = choose|b: int| 0 <= b < nk.len() && nk[b] == ej;
    assert(light_square(ei.1) != light_square(ej.1));
    assert(a != b);
    assert(nk.len() != 1);
    if forall|k: int|
        0 <= k < nk.len() ==> bishop_or_guard(#[trigger] nk[k].0) && light_square(nk[k].1)
            == light_square(nk[0].1) {
        assert(bishop_or_guard(nk[a].0));
        assert(bishop_or_guard(nk[b].0));
        assert(light_square(nk[a].1) == light_square(nk[0].1));
        assert(light_square(nk[b].1) == light_square(nk[0].1));
        assert(false);
    }
}

/// A side without its King has lost: when no square holds a White King
/// the game is over and Black has won; when White's King stands and no
/// square holds a Black King, White has won.
pub proof fn lemma_missing_king_loses(m: BoardModel, moves_without_capture: u8)
    requires
        m.cells.len() == 81,
    ensures
        (forall|i: int| 0 <= i < 81 ==> !(#[trigger] m.cells[i] matches Some(p) && p.bottom
            == PieceType::King && p.color == Color::White)) ==> game_over_verdict(m, moves_without_capture) == (
            true,
            false,
            false,
        ),
        (exists|i: int| 0 <= i < 81 && (#[trigger] m.cells[i] matches Some(p) && p.bottom
            == PieceType::King && p.color == Color::White)) && (forall|i: int| 0 <= i < 81 ==> !(
        #[trigger] m.cells[i] matches Some(p) && p.bottom == PieceType::King && p.color
            == Color::Black)) ==> game_over_verdict(
            m,
            moves_without_capture,
        ) == (true, true, false),
{
}

/// Forty moves without a capture draw a game in which both Kings stand.
pub proof fn lemma_forty_moves_draw(m: BoardModel, moves_without_capture: u8, w: int, b: int)
    requires
        m.cells.len() == 81,
        moves_without_capture >= 40,
        0 <= w < 81,
        0 <= b < 81,
        m.cells[w] matches Some(p) && p.bottom == PieceType::King && p.color == Color::White,
        m.cells[b] matches Some(p) && p.bottom == PieceType::King && p.color == Color::Black,
    ensures
        game_over_verdict(m, moves_without_capture) == (true, false, true),
{
}

/// Any other fighting piece is enough to win: a side with a piece that is
/// neither a King nor a Dragon and carries no Bishop (Jester) or Guard at
/// either level does not lack material.
pub proof fn lemma_other_piece_suffices(m: BoardModel, color: Color, i: int)
    requires
        m.cells.len() == 81,
        0 <= i < 81,
        m.cells[i] matches Some(p) && p.color == color && p.bottom != PieceType::King
            && p.bottom != PieceType::Dragon && p.bottom != PieceType::Jester && p.bottom
            != PieceType::Guard && p.top != Some(PieceType::Jester) && p.top != Some(
            PieceType::Guard,
        ),
    ensures
        !insufficient_material(side_pieces(m, color)),
{
    let ps = side_pieces(m, color);
    let e = (m.cells[i].unwrap(), square_position(i));
    lemma_side_prefix_has(m.cells, 81, color, i);
    lemma_non_kings_has(ps, e);
    let nk = non_kings(ps);
    let a = choose|a: int| 0 <= a < nk.len() && nk[a] == e;
    assert(!bishop_or_guard(nk[a].0));
}

/// With both Kings on the board and fewer than 40 moves without a
/// capture, a side with a Bishop or a Guard on squares of each colour
/// keeps the game going: it is neither over nor drawn.
pub proof fn lemma_bishops_on_both_colours_play_on(
    m: BoardModel,
    moves_without_capture: u8,
    color: Color,
    i: int,
    j: int,
)
    requires
        m.cells.len() == 81,
        has_king(m, Color::White),
        has_king(m, Color::Black),
        moves_without_capture < 40,
        0 <= i < 81,
        0 <= j < 81,
        m.cells[i] matches Some(p) && p.color == color && (p.bottom == PieceType::Jester
            || p.bottom == PieceType::Guard),
        m.cells[j] matches Some(q) && q.color == color && (q.bottom == PieceType::Jester
            || q.bottom == PieceType::Guard),
        (i % 9 + i / 9) % 2 != (j % 9 + j / 9) % 2,
    ensures
        game_over_verdict(m, moves_without_capture) == (false, false, false),
{
    lemma_bishops_on_both_colours_suffice(m, color, i, j);
}

/// The verdict on a board after `moves_without_capture` moves without a
/// capture.
pub open spec fn game_over_verdict(m: BoardModel, moves_without_capture: u8) -> (bool, bool, bool) {
    if !has_king(m, Color::White) {
        (true, false, false)
    } else if !has_king(m, Color::Black) {
        (true, true, false)
    } else if moves_without_capture >= 40 {
        (true, false, true)
    } else if insufficient_material(side_pieces(m, Color::White)) && insufficient_material(
        side_pieces(m, Color::Black),
    ) {
        (true, false, true)
    } else {
        (false, false, false)
    }
}

/// Decide whether the game on `board` is over: a side without King has
/// lost; the game is drawn after 40 moves without capture, or when neither
/// side has the material to win.
pub fn check_game_over(board: &Board, moves_without_capture: u8) -> (r: GameOverResult)
    ensures
        (r.game_over, r.white_wins, r.draw) == game_over_verdict(board@, moves_without_capture),
{
    let ghost m = board@;
    let mut white_king_exists = false;
    let mut black_king_exists = false;
    let mut white_pieces: Vec<(Piece, Position)> = Vec::new();
    let mut black_pieces: Vec<(Piece, Position)> = Vec::new();
    let mut i: usize = 0;
    while i < 81
        invariant
            i <= 81,
            m == board@,
            white_pieces@ == side_prefix(m.cells, i as int, Color::White),
            black_pieces@ == side_prefix(m.cells, i as int, Color::Black),
            white_king_exists <==> exists|j: int|
                0 <= j < i && match #[trigger] m.cells[j] {
                    Some(p) => p.bottom == PieceType::King && p.color == Color::White,
                    None => false,
                },
            black_king_exists <==> exists|j: int|
                0 <= j < i && match #[trigger] m.cells[j] {
                    Some(p) => p.bottom == PieceType::King && p.color == Color::Black,
                    None => false,
                },
        decreases 81 - i,
    {
        let pos = Position::from_u8(i as u8);
        if let Some(piece) = board.get_piece(&pos) {
            let piece = *piece;
            if piece.is_king() {
                if piece.color == Color::White {
                    white_king_exists = true;
                } else {
                    black_king_exists = true;
                }
            }
            if piece.color == Color::White {
                white_pieces.push((piece, pos));
            } else {
                black_pieces.push((piece, pos));
            }
        }
        i += 1;
    }
    if !white_king_exists {
        return GameOverResult { game_over: true, white_wins: false, draw: false };
    }
    if !black_king_exists {
        return GameOverResult { game_over: true, white_wins: true, draw: false };
    }
    if moves_without_capture >= NO_CAPTURE_LIMIT {
        return GameOverResult { game_over: true, white_wins: false, draw: true };
    }
    let white_draw = check_draw_condition_for_side(white_pieces.as_slice());
    let black_draw = check_draw_condition_for_side(black_pieces.as_slice());
    if white_draw && black_draw {
        return GameOverResult { game_over: true, white_wins: false, draw: true };
    }
    GameOverResult::ongoing()
}

fn check_draw_condition_for_side(pieces: &[(Piece, Position)]) -> (r: bool)
    ensures
        r == insufficient_material(pieces@),
{
    let mut non_king_pieces: Vec<(Piece, Position)> = Vec::new();
    let mut i: usize = 0;
    while i < pieces.len()
        invariant
            i <= pieces@.len(),
            non_king_pieces@ == non_kings(pieces@.take(i as int)),
        decreases pieces@.len() - i,
    {
        let (piece, pos) = pieces[i];
        if !piece.is_king() {
            non_king_pieces.push((piece, pos));
        }
        assert(pieces@.take(i + 1).drop_last() =~= pieces@.take(i as int));
        i += 1;
    }
    assert(pieces@.take(pieces@.len() as int) =~= pieces@);
    let ghost nk = non_king_pieces@;
    assert(nk == non_kings(pieces@));
    if non_king_pieces.len() == 0 {
        return true;
    }
    if non_king_pieces.len() == 1 {
        let (piece, _) = non_king_pieces[0];
        if piece.bottom == PieceType::Dragon && piece.top.is_none() {
            return true;
        }
    }
    let ghost lone_knight = nk.len() == 1 && nk[0].0.bottom == PieceType::Dragon && nk[0].0.top is None;
    assert(!lone_knight);
    let first_square_color = (non_king_pieces[0].1.x % 2 + non_king_pieces[0].1.y % 2) % 2 == 0;
    assert(first_square_color == light_square(nk[0].1));
    let mut j: usize = 0;
    while j < non_king_pieces.len()
        invariant
            j <= nk.len(),
            nk == non_king_pieces@,
            nk == non_kings(pieces@),
            nk.len() > 0,
            first_square_color == light_square(nk[0].1),
            !(nk.len() == 1 && nk[0].0.bottom == PieceType::Dragon && nk[0].0.top is None),
            forall|k: int|
                0 <= k < j ==> bishop_or_guard(#[trigger] nk[k].0) && light_square(nk[k].1)
                    == light_square(nk[0].1),
        decreases nk.len() - j,
    {
        let (piece, pos) = non_king_pieces[j];
        let is_bishop_or_guard = piece.bottom == PieceType::Jester || piece.bottom
            == PieceType::Guard || piece.top == Some(PieceType::Jester) || piece.top == Some(
            PieceType::Guard,
        );
        if !is_bishop_or_guard {
            assert(!bishop_or_guard(nk[j as int].0));
            assert(!(nk.len() == 1 && nk[0].0.bottom == PieceType::Dragon && nk[0].0.top is None));
            assert(bishop_or_guard(nk[j as int].0) ==> light_square(nk[j as int].1) == light_square(nk[0].1) ==> false);
            assert(nk == non_kings(pieces@));
            return false;
        }
        let square_is_white = (pos.x % 2 + pos.y % 2) % 2 == 0;
        assert(square_is_white == light_square(pos));
        if first_square_color != square_is_white {
            assert(light_square(nk[j as int].1) != light_square(nk[0].1));
            assert(!(nk.len() == 1 && nk[0].0.bottom == PieceType::Dragon && nk[0].0.top is None));
            assert(bishop_or_guard(nk[j as int].0) ==> light_square(nk[j as int].1) == light_square(nk[0].1) ==> false);
            assert(nk == non_kings(pieces@));
            return false;
        }
        j += 1;
    }
    true
}

} // verus!
