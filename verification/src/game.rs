//! Moves, move generation and move application.
use vstd::prelude::*;
use vstd::arithmetic::div_mod::lemma_fundamental_div_mod_converse;
use vstd::string::StringExecFns;
use crate::board::{
    string_from_chars,
    decode_board, encode_byte, initial_model, lemma_board_len, on_board, square_position,
    stack_error, valid_piece_code, Board, BoardModel, Color, Piece, PieceType, Position,
};

verus! {

broadcast use lemma_board_len;

#[derive(Clone, Copy, Debug, PartialEq, Eq, Structural)]
pub struct PotentialMove {
    pub from: Position,
    pub to: Position,
    /// The piece making the move is the top of a stack, so the player may
    /// move the top piece alone.
    pub unstackable: bool,
    /// The move is only possible with the top piece alone.
    pub force_unstack: bool,
}

#[derive(Clone, Copy, Debug, PartialEq, Eq, Structural)]
pub struct Move {
    pub from: Position,
    pub to: Position,
    /// Move only the top piece of the stack.
    pub unstack: bool,
}

/// Both ends of a move are squares of the board.
pub open spec fn move_on_board(from: Position, to: Position) -> bool {
    from.is_valid() && to.is_valid()
}

/// A square can be written as a letter and a digit: its column, as a
/// byte, stays within one byte once added to `A`, and its rank is a digit.
pub open spec fn square_text_defined(p: Position) -> bool {
    (p.x as u8) <= 190 && p.y <= 9
}

/// Both squares of a move can be written.
pub open spec fn move_text_defined(mv: Move) -> bool {
    square_text_defined(mv.from) && square_text_defined(mv.to)
}

/// The text of a move: origin and destination squares, each a column
/// letter and a rank digit.
pub open spec fn move_text(mv: Move) -> Seq<char> {
    seq![
        (65 + (mv.from.x as u8)) as char,
        (48 + 9 - mv.from.y) as char,
        (65 + (mv.to.x as u8)) as char,
        (48 + 9 - mv.to.y) as char,
    ]
}

/// The 16-bit encoding of a potential move: flags in bits 15 and 14, the
/// destination square in bits 13..7 and the origin square in bits 6..0.
pub open spec fn potential_move_code(pm: PotentialMove) -> int {
    (if pm.force_unstack { 32768int } else { 0 }) + (if pm.unstackable { 16384int } else { 0 })
        + pm.to.index() * 128 + pm.from.index()
}

/// The 16-bit encoding of a move: the unstack flag in bit 14, the
/// destination square in bits 13..7 and the origin square in bits 6..0.
pub open spec fn move_code(m: Move) -> int {
    (if m.unstack { 16384int } else { 0 }) + m.to.index() * 128 + m.from.index()
}

/// The squares named by the low 14 bits of `v` exist.
pub open spec fn squares_code_valid(v: u16) -> bool {
    (v / 128) % 128 < 81 && v % 128 < 81
}

impl PotentialMove {
    pub fn to_u16(self) -> (r: u16)
        requires
            move_on_board(self.from, self.to),
        ensures
            r == potential_move_code(self),
    {
        let force: u16 = if self.force_unstack { 1 } else { 0 };
        let unst: u16 = if self.unstackable { 1 } else { 0 };
        let to = self.to.to_u8() as u16;
        let from = self.from.to_u8() as u16;
        assert((force << 15u16) | (unst << 14u16) | (to << 7u16) | from == force * 32768 + unst
            * 16384 + to * 128 + from) by (bit_vector)
            requires
                force <= 1,
                unst <= 1,
                to < 81,
                from < 81,
        ;
        (force << 15) | (unst << 14) | (to << 7) | from
    }

    pub fn from_u16(v: u16) -> (r: Self)
        requires
            squares_code_valid(v),
        ensures
            r.force_unstack == (v / 32768 == 1),
            r.unstackable == ((v / 16384) % 2 == 1),
            r.to == square_position(((v / 128) % 128) as int),
            r.from == square_position((v % 128) as int),
    {
        assert((v & 0x8000u16) != 0 <==> v / 32768 == 1) by (bit_vector);
        assert((v & 0x4000u16) != 0 <==> (v / 16384) % 2 == 1) by (bit_vector);
        assert((v >> 7u16) & 0x7Fu16 == (v / 128) % 128) by (bit_vector);
        assert(v & 0x007Fu16 == v % 128) by (bit_vector);
        PotentialMove {
            force_unstack: (v & 0x8000) != 0,
            unstackable: (v & 0x4000) != 0,
            to: Position::from_u8(((v >> 7) & 0x7F) as u8),
            from: Position::from_u8((v & 0x007F) as u8),
        }
    }

    /// The move a player makes with this potential move, moving the top
    /// piece alone when `unstack` is set.
    pub fn to_move(&self, unstack: bool) -> (m: Move)
        requires
            !(unstack && !self.unstackable),
            !(!unstack && self.force_unstack),
        ensures
            m == (Move { from: self.from, to: self.to, unstack }),
    {
        Move { from: self.from, to: self.to, unstack }
    }
}

impl Move {
    pub fn to_u16(self) -> (r: u16)
        requires
            move_on_board(self.from, self.to),
        ensures
            r == move_code(self),
    {
        let unst: u16 = if self.unstack { 1 } else { 0 };
        let to = self.to.to_u8() as u16;
        let from = self.from.to_u8() as u16;
        assert((unst << 14u16) | (to << 7u16) | from == unst * 16384 + to * 128 + from)
            by (bit_vector)
            requires
                unst <= 1,
                to < 81,
                from < 81,
        ;
        (unst << 14) | (to << 7) | from
    }

    pub fn from_u16(v: u16) -> (r: Self)
        requires
            squares_code_valid(v),
        ensures
            r.unstack == ((v / 16384) % 2 == 1),
            r.to == square_position(((v / 128) % 128) as int),
            r.from == square_position((v % 128) as int),
    {
        assert((v & 0x4000u16) != 0 <==> (v / 16384) % 2 == 1) by (bit_vector);
        assert((v >> 7u16) & 0x7Fu16 == (v / 128) % 128) by (bit_vector);
        assert(v & 0x007Fu16 == v % 128) by (bit_vector);
        Move {
            unstack: (v & 0x4000) != 0,
            to: Position::from_u8(((v >> 7) & 0x7F) as u8),
            from: Position::from_u8((v & 0x007F) as u8),
        }
    }

    /// Origin and destination squares, e.g. `E3-F4` written `E3F4`.
    pub fn to_string(&self) -> (s: String)
        requires
            move_text_defined(*self),
        ensures
            s@ == move_text(*self),
    {
        let from_rank = 9 - self.from.y;
        let to_rank = 9 - self.to.y;
        let chars = vec![
            (65u8 + self.from.x as u8) as char,
            (48u8 + from_rank as u8) as char,
            (65u8 + self.to.x as u8) as char,
            (48u8 + to_rank as u8) as char,
        ];
        string_from_chars(chars)
    }
}

/// Encoding then decoding a potential move gives it back.
pub proof fn lemma_potential_move_code_roundtrip(pm: PotentialMove)
    requires
        move_on_board(pm.from, pm.to),
    ensures
        0 <= potential_move_code(pm) < 65536,
        squares_code_valid(potential_move_code(pm) as u16),
        ({
            let v = potential_move_code(pm) as u16;
            &&& (v / 32768 == 1) == pm.force_unstack
            &&& ((v / 16384) % 2 == 1) == pm.unstackable
            &&& square_position(((v / 128) % 128) as int) == pm.to
            &&& square_position((v % 128) as int) == pm.from
        }),
{
    lemma_square_position_index(pm.to);
    lemma_square_position_index(pm.from);
    let f: int = if pm.force_unstack { 1 } else { 0 };
    let u: int = if pm.unstackable { 1 } else { 0 };
    let v = potential_move_code(pm);
    let a = pm.to.index();
    let b = pm.from.index();
    assert(v == (f * 256 + u * 128 + a) * 128 + b);
    lemma_fundamental_div_mod_converse(v, 128, f * 256 + u * 128 + a, b);
    lemma_fundamental_div_mod_converse(v / 128, 128, f * 2 + u, a);
    lemma_fundamental_div_mod_converse(v, 16384, f * 2 + u, a * 128 + b);
    lemma_fundamental_div_mod_converse(v, 32768, f, u * 16384 + a * 128 + b);
    lemma_fundamental_div_mod_converse(v / 16384, 2, f, u);
}

/// Encoding then decoding a move gives it back.
pub proof fn lemma_move_code_roundtrip(m: Move)
    requires
        move_on_board(m.from, m.to),
    ensures
        0 <= move_code(m) < 32768,
        squares_code_valid(move_code(m) as u16),
        ({
            let v = move_code(m) as u16;
            &&& ((v / 16384) % 2 == 1) == m.unstack
            &&& square_position(((v / 128) % 128) as int) == m.to
            &&& square_position((v % 128) as int) == m.from
        }),
{
    lemma_square_position_index(m.to);
    lemma_square_position_index(m.from);
    let u: int = if m.unstack { 1 } else { 0 };
    let v = move_code(m);
    let a = m.to.index();
    let b = m.from.index();
    assert(v == (u * 128 + a) * 128 + b);
    lemma_fundamental_div_mod_converse(v, 128, u * 128 + a, b);
    lemma_fundamental_div_mod_converse(v / 128, 128, u, a);
    lemma_fundamental_div_mod_converse(v, 16384, u, a * 128 + b);
    lemma_fundamental_div_mod_converse(v / 16384, 2, 0, u);
}

/// A square is the square of its index.
pub proof fn lemma_square_position_index(p: Position)
    requires
        p.is_valid(),
    ensures
        square_position(p.index()) == p,
        0 <= p.index() < 81,
{
    lemma_fundamental_div_mod_converse(p.index(), 9, p.y as int, p.x as int);
}

// ---------------------------------------------------------------------------
// Movement rules
// ---------------------------------------------------------------------------

/// Forward direction of a colour along the y axis.
pub open spec fn forward(color: Color) -> int {
    if color == Color::White { -1 } else { 1 }
}

pub open spec fn orthogonal_dirs() -> Seq<(isize, isize)> {
    seq![(1isize, 0isize), (0isize, 1isize), (-1isize, 0isize), (0isize, -1isize)]
}

pub open spec fn diagonal_dirs() -> Seq<(isize, isize)> {
    seq![(1isize, 1isize), (1isize, -1isize), (-1isize, -1isize), (-1isize, 1isize)]
}

pub open spec fn knight_dirs() -> Seq<(isize, isize)> {
    seq![(2isize, 1isize), (2isize, -1isize), (-2isize, 1isize), (-2isize, -1isize), (1isize, 2isize), (1isize, -2isize), (-1isize, 2isize), (-1isize, -2isize)]
}

/// Directions in which a piece type moves, in generation order.
pub open spec fn piece_dirs(t: PieceType, color: Color) -> Seq<(isize, isize)> {
    match t {
        PieceType::Soldier => seq![(1isize, forward(color) as isize), (-1isize, forward(color) as isize)],
        PieceType::Jester => diagonal_dirs(),
        PieceType::Commander => orthogonal_dirs(),
        PieceType::Paladin => orthogonal_dirs(),
        PieceType::Guard => diagonal_dirs(),
        PieceType::Dragon => knight_dirs(),
        PieceType::Ballista => seq![(0isize, forward(color) as isize)],
        PieceType::King => orthogonal_dirs() + diagonal_dirs(),
    }
}

/// Number of steps a piece type may take along one of its directions.
pub open spec fn piece_range(t: PieceType) -> int {
    match t {
        PieceType::Jester | PieceType::Commander | PieceType::Ballista => 9,
        PieceType::Paladin | PieceType::Guard => 2,
        _ => 1,
    }
}

pub open spec fn small_dirs(dirs: Seq<(isize, isize)>) -> bool {
    forall|i: int|
        0 <= i < dirs.len() ==> -2 <= (#[trigger] dirs[i]).0 <= 2 && -2 <= dirs[i].1 <= 2
}

/// What exploring `to` contributes for a piece of `color` at `from`: the
/// potential move found there, if any, and whether the ray continues
/// beyond `to`.  An empty square is a move and lets the ray go on; an enemy
/// is a capture and stops it; a friendly piece stops it and can be stacked
/// upon when it is neither a King nor a stack, unless the moving piece is
/// the bottom of a stack.
pub open spec fn explore_target(
    cells: Seq<Option<Piece>>,
    from: Position,
    color: Color,
    to: Position,
    is_top: bool,
    has_top: bool,
) -> (Seq<PotentialMove>, bool) {
    match cells[to.index()] {
        None => (
            seq![PotentialMove { from, to, unstackable: is_top, force_unstack: false }],
            true,
        ),
        Some(target) => if target.color != color {
            (seq![PotentialMove { from, to, unstackable: is_top, force_unstack: false }], false)
        } else if !is_top && has_top {
            (seq![], false)
        } else if !(target.bottom != PieceType::King && target.top is None) {
            (seq![], false)
        } else {
            (seq![PotentialMove { from, to, unstackable: is_top, force_unstack: is_top }], false)
        },
    }
}

/// The square `k` steps from `from` along `(dx, dy)`.
pub open spec fn step_target(from: Position, dx: int, dy: int, k: int) -> Position {
    Position { x: (from.x + k * dx) as usize, y: (from.y + k * dy) as usize }
}

/// Potential moves along one direction, from step `k` to step `range`.
pub open spec fn ray_moves(
    cells: Seq<Option<Piece>>,
    from: Position,
    color: Color,
    is_top: bool,
    has_top: bool,
    dx: int,
    dy: int,
    k: int,
    range: int,
) -> Seq<PotentialMove>
    decreases range - k + 1,
{
    if k > range || k < 1 {
        seq![]
    } else if !on_board(from.x + k * dx, from.y + k * dy) {
        ray_moves(cells, from, color, is_top, has_top, dx, dy, k + 1, range)
    } else {
        let e = explore_target(cells, from, color, step_target(from, dx, dy, k), is_top, has_top);
        e.0 + if e.1 {
            ray_moves(cells, from, color, is_top, has_top, dx, dy, k + 1, range)
        } else {
            seq![]
        }
    }
}

/// Potential moves along each of `dirs` in turn.
pub open spec fn dirs_moves(
    cells: Seq<Option<Piece>>,
    from: Position,
    color: Color,
    is_top: bool,
    has_top: bool,
    dirs: Seq<(isize, isize)>,
    range: int,
) -> Seq<PotentialMove>
    decreases dirs.len(),
{
    if dirs.len() == 0 {
        seq![]
    } else {
        dirs_moves(cells, from, color, is_top, has_top, dirs.drop_last(), range) + ray_moves(
            cells,
            from,
            color,
            is_top,
            has_top,
            dirs.last().0 as int,
            dirs.last().1 as int,
            1,
            range,
        )
    }
}

/// Potential moves of one component of the piece at `from`.  The King is
/// treated as the bottom of a stack so that it never stacks.
pub open spec fn type_moves(
    cells: Seq<Option<Piece>>,
    from: Position,
    color: Color,
    t: PieceType,
    is_top: bool,
    has_top: bool,
) -> Seq<PotentialMove> {
    if t == PieceType::King {
        dirs_moves(cells, from, color, false, true, piece_dirs(t, color), piece_range(t))
    } else {
        dirs_moves(cells, from, color, is_top, has_top, piece_dirs(t, color), piece_range(t))
    }
}

/// Potential moves of the piece at `pos`: none unless it belongs to the
/// side to move; for a stack, the moves of the top piece come first.
pub open spec fn position_moves(m: BoardModel, pos: Position) -> Seq<PotentialMove> {
    match m.cells[pos.index()] {
        None => seq![],
        Some(p) => if p.color != m.color_to_move() {
            seq![]
        } else {
            (match p.top {
                Some(t) => type_moves(m.cells, pos, p.color, t, true, true),
                None => seq![],
            }) + type_moves(m.cells, pos, p.color, p.bottom, false, p.top is Some)
        },
    }
}

/// Potential moves of the pieces on the first `n` squares, in square order.
pub open spec fn moves_prefix(m: BoardModel, n: int) -> Seq<PotentialMove>
    decreases n,
{
    if n <= 0 {
        seq![]
    } else {
        moves_prefix(m, n - 1) + position_moves(m, square_position(n - 1))
    }
}

/// All potential moves of the side to move.
pub open spec fn all_moves(m: BoardModel) -> Seq<PotentialMove> {
    moves_prefix(m, 81)
}

// ---------------------------------------------------------------------------
// Applying moves
// ---------------------------------------------------------------------------

/// The piece leaving `from`: the top alone when unstacking, else all of it.
pub open spec fn moving_piece(p: Piece, unstack: bool) -> Piece {
    if unstack {
        Piece { color: p.color, bottom: p.top.unwrap(), top: None }
    } else {
        p
    }
}

/// Squares after the moving piece left `from`.
pub open spec fn after_lift(cells: Seq<Option<Piece>>, mv: Move) -> Seq<Option<Piece>> {
    let p = cells[mv.from.index()].unwrap();
    if mv.unstack {
        cells.update(mv.from.index(), Some(Piece { color: p.color, bottom: p.bottom, top: None }))
    } else {
        cells.update(mv.from.index(), None)
    }
}

/// The move can be applied: a piece stands on `from`, unstacking only
/// applies to a stack (never a King), and a friendly piece on `to` accepts
/// the moving piece on top.
pub open spec fn move_applicable(m: BoardModel, mv: Move) -> bool {
    match m.cells[mv.from.index()] {
        None => false,
        Some(p) => {
            &&& !(p.bottom == PieceType::King && mv.unstack)
            &&& (mv.unstack ==> p.top is Some)
            &&& match after_lift(m.cells, mv)[mv.to.index()] {
                None => true,
                Some(d) => d.color != p.color || (d.bottom != PieceType::King && d.top is None
                    && moving_piece(p, mv.unstack).top is None),
            }
        },
    }
}

/// The promoted form of `p` on `pos`, if it reaches the far rank as a
/// Soldier or Ballista: the top piece of a stack is promoted, else the
/// piece itself (Soldier to Paladin, Ballista to Commander).
pub open spec fn promotion(p: Piece, pos: Position) -> Option<Piece> {
    let far = match p.color {
        Color::White => pos.y == 0,
        Color::Black => pos.y == 8,
    };
    if !far {
        None
    } else {
        match p.top {
            Some(PieceType::Soldier) => Some(Piece { top: Some(PieceType::Paladin), ..p }),
            Some(PieceType::Ballista) => Some(Piece { top: Some(PieceType::Commander), ..p }),
            Some(_) => None,
            None => match p.bottom {
                PieceType::Soldier => Some(Piece { bottom: PieceType::Paladin, ..p }),
                PieceType::Ballista => Some(Piece { bottom: PieceType::Commander, ..p }),
                _ => None,
            },
        }
    }
}

/// The piece standing on `to` once the move is made, before promotion.
pub open spec fn landed_piece(m: BoardModel, mv: Move) -> Piece {
    let p = m.cells[mv.from.index()].unwrap();
    let src = moving_piece(p, mv.unstack);
    match after_lift(m.cells, mv)[mv.to.index()] {
        None => src,
        Some(d) => if d.color != src.color {
            src
        } else {
            Piece { color: d.color, bottom: d.bottom, top: Some(src.bottom) }
        },
    }
}

/// The move captures the enemy King.
pub open spec fn captures_king(m: BoardModel, mv: Move) -> bool {
    let p = m.cells[mv.from.index()].unwrap();
    match after_lift(m.cells, mv)[mv.to.index()] {
        Some(d) => d.color != p.color && d.bottom == PieceType::King,
        None => false,
    }
}

/// The board after an applicable move: the piece lands (capturing or
/// stacking), is promoted on the far rank, the turn passes, and capturing
/// the King ends the game in favour of the mover.
pub open spec fn apply_model(m: BoardModel, mv: Move) -> BoardModel {
    let p = m.cells[mv.from.index()].unwrap();
    let landed = landed_piece(m, mv);
    let final_piece = match promotion(landed, mv.to) {
        Some(q) => q,
        None => landed,
    };
    let king = captures_king(m, mv);
    BoardModel {
        cells: after_lift(m.cells, mv).update(mv.to.index(), Some(final_piece)),
        white_to_move: !m.white_to_move,
        game_over: if king { true } else { m.game_over },
        white_won: if king { p.color == Color::White } else { m.white_won },
        drawn: if king { false } else { m.drawn },
    }
}

/// Capturing the King ends the game, undrawn, in favour of the side that
/// moved: whatever the board and the move, when a piece lands on the
/// square of the enemy King, the game is over, not drawn, and White has won
/// exactly when the piece that moved is White.
pub proof fn lemma_king_capture_wins(m: BoardModel, mv: Move)
    requires
        m.cells.len() == 81,
        mv.from.index() < 81,
        mv.to.index() < 81,
        mv.from.index() != mv.to.index(),
        move_applicable(m, mv),
        m.cells[mv.to.index()] matches Some(k) && k.bottom == PieceType::King && k.color
            != m.cells[mv.from.index()].unwrap().color,
    ensures
        apply_model(m, mv).game_over,
        apply_model(m, mv).is_over(),
        !apply_model(m, mv).drawn,
        apply_model(m, mv).white_won == (m.cells[mv.from.index()].unwrap().color == Color::White),
{
    assert(after_lift(m.cells, mv)[mv.to.index()] == m.cells[mv.to.index()]);
}

/// What a move does to the board: the turn passes; the origin square is
/// left empty, or holding the bottom piece alone when only the top piece
/// moves; every other square but the destination is untouched; the
/// destination holds a piece of the mover's colour: away from the far rank,
/// the moving piece itself when the square was empty or held an enemy, and
/// the friendly piece carrying it when it stacks.  Unless the enemy King
/// was taken, the result of the game does not change.
pub proof fn lemma_move_effects(m: BoardModel, mv: Move)
    requires
        m.cells.len() == 81,
        mv.from.index() < 81,
        mv.to.index() < 81,
        mv.from.index() != mv.to.index(),
        move_applicable(m, mv),
    ensures
        ({
            let r = apply_model(m, mv);
            let p = m.cells[mv.from.index()].unwrap();
            let moving = if mv.unstack {
                Piece { color: p.color, bottom: p.top.unwrap(), top: None }
            } else {
                p
            };
            let far = if p.color == Color::White { mv.to.y == 0 } else { mv.to.y == 8 };
            &&& r.white_to_move == !m.white_to_move
            &&& r.cells.len() == 81
            &&& r.cells[mv.from.index()] == if mv.unstack {
                Some(Piece { color: p.color, bottom: p.bottom, top: None })
            } else {
                None
            }
            &&& forall|i: int|
                0 <= i < 81 && i != mv.from.index() && i != mv.to.index() ==> #[trigger] r.cells[i]
                    == m.cells[i]
            &&& r.cells[mv.to.index()] matches Some(q) && q.color == p.color
            &&& !far ==> match m.cells[mv.to.index()] {
                None => r.cells[mv.to.index()] == Some(moving),
                Some(d) => if d.color != p.color {
                    r.cells[mv.to.index()] == Some(moving)
                } else {
                    r.cells[mv.to.index()] == Some(
                        Piece { color: d.color, bottom: d.bottom, top: Some(moving.bottom) },
                    )
                },
            }
            &&& !(m.cells[mv.to.index()] matches Some(d) && d.color != p.color && d.bottom
                == PieceType::King) ==> (r.game_over == m.game_over && r.white_won == m.white_won
                && r.drawn == m.drawn)
        }),
{
    assert(after_lift(m.cells, mv)[mv.to.index()] == m.cells[mv.to.index()]);
}

/// Promotion: a single piece that moves onto an empty square of the far
/// rank becomes a Paladin if it was a Soldier and a Rook (Commander) if it
/// was a Ballista, and stays what it was otherwise.
pub proof fn lemma_far_rank_promotion(m: BoardModel, mv: Move)
    requires
        m.cells.len() == 81,
        mv.from.index() < 81,
        mv.to.index() < 81,
        mv.from.index() != mv.to.index(),
        move_applicable(m, mv),
        !mv.unstack,
        m.cells[mv.from.index()] matches Some(p) && p.top is None && (if p.color == Color::White {
            mv.to.y == 0
        } else {
            mv.to.y == 8
        }),
        m.cells[mv.to.index()] is None,
    ensures
        ({
            let p = m.cells[mv.from.index()].unwrap();
            apply_model(m, mv).cells[mv.to.index()] == Some(
                Piece {
                    color: p.color,
                    bottom: if p.bottom == PieceType::Soldier {
                        PieceType::Paladin
                    } else if p.bottom == PieceType::Ballista {
                        PieceType::Commander
                    } else {
                        p.bottom
                    },
                    top: None,
                },
            )
        }),
{
    assert(after_lift(m.cells, mv)[mv.to.index()] == m.cells[mv.to.index()]);
}

/// The one applicable move the rules cannot carry out: a King carrying a
/// Soldier or a Ballista lands on the far rank, where the piece it carries
/// would be promoted, and a King may carry nothing.
pub open spec fn promotes_loaded_king(m: BoardModel, mv: Move) -> bool {
    &&& move_applicable(m, mv)
    &&& landed_piece(m, mv).bottom == PieceType::King
    &&& landed_piece(m, mv).top is Some
    &&& promotion(landed_piece(m, mv), mv.to) is Some
}

/// Why `mv` cannot be applied to `m`: the first rule it breaks.
pub open spec fn move_error(m: BoardModel, mv: Move) -> Seq<char> {
    match m.cells[mv.from.index()] {
        None => "No piece at 'from' position"@,
        Some(p) => if p.bottom == PieceType::King && mv.unstack {
            "Cannot unstack King"@
        } else if mv.unstack && p.top is None {
            "No top piece to unstack"@
        } else {
            "Cannot complete move: "@ + stack_error(
                after_lift(m.cells, mv)[mv.to.index()],
                moving_piece(p, mv.unstack),
            )
        },
    }
}

#[derive(Clone, Debug)]
pub struct Game {
    pub board: Board,
}

impl Game {
    pub fn new() -> (g: Self)
        ensures
            g.board@ == initial_model(),
    {
        Game { board: Board::new() }
    }

    pub fn from_board(board: Board) -> (g: Self)
        ensures
            g.board == board,
    {
        Game { board }
    }

    pub fn is_white_to_move(&self) -> (r: bool)
        ensures
            r == self.board@.white_to_move,
    {
        self.board.is_white_to_move()
    }

    pub fn set_white_to_move(&mut self, white_to_move: bool)
        ensures
            final(self).board@ == (BoardModel { white_to_move, ..old(self).board@ }),
    {
        self.board.set_white_to_move(white_to_move);
    }

    pub fn color_to_move(&self) -> (c: Color)
        ensures
            c == self.board@.color_to_move(),
    {
        self.board.color_to_move()
    }

    /// Make a move on this game.  On failure the game is unchanged and the
    /// error is the one `apply_move_copy` gives.
    pub fn apply_move(&mut self, mv: Move) -> (r: Result<(), String>)
        requires
            mv.from.index() < 81,
            mv.to.index() < 81,
            !promotes_loaded_king(old(self).board@, mv),
        ensures
            r is Ok <==> move_applicable(old(self).board@, mv),
            r is Ok ==> final(self).board@ == apply_model(old(self).board@, mv),
            r is Err ==> final(self).board@ == old(self).board@,
            r matches Err(e) ==> e@ == move_error(old(self).board@, mv),
    {
        let new_board = self.apply_move_copy(mv)?;
        self.board = new_board;
        Ok(())
    }

    /// Whether `mv` is the move the rules cannot carry out: a King carrying
    /// a Soldier or a Ballista landing on the far rank.  Callers test it
    /// before making a move.
    pub fn promotes_loaded_king(&self, mv: &Move) -> (r: bool)
        requires
            mv.from.index() < 81,
            mv.to.index() < 81,
        ensures
            r == promotes_loaded_king(self.board@, *mv),
    {
        let p = match self.board.get_piece(&mv.from) {
            Some(p) => *p,
            None => {
                return false;
            },
        };
        if p.bottom != PieceType::King || mv.unstack {
            return false;
        }
        let carries_promotable = p.top == Some(PieceType::Soldier) || p.top == Some(
            PieceType::Ballista,
        );
        let far = match p.color {
            Color::White => mv.to.y == 0,
            Color::Black => mv.to.y == 8,
        };
        if !carries_promotable || !far {
            return false;
        }
        if mv.to.to_absolute() == mv.from.to_absolute() {
            return true;
        }
        match self.board.get_piece(&mv.to) {
            None => true,
            Some(d) => d.color != p.color,
        }
    }

    /// The board after `mv`, leaving this game unchanged; the error names
    /// the first rule the move breaks.
    pub fn apply_move_copy(&self, mv: Move) -> (r: Result<Board, String>)
        requires
            mv.from.index() < 81,
            mv.to.index() < 81,
            !promotes_loaded_king(self.board@, mv),
        ensures
            r is Ok <==> move_applicable(self.board@, mv),
            r matches Ok(b) ==> b@ == apply_model(self.board@, mv),
            r matches Err(e) ==> e@ == move_error(self.board@, mv),
    {
        let ghost m = self.board@;
        let piece = match self.board.get_piece(&mv.from) {
            Some(p) => *p,
            None => {
                return Err("No piece at 'from' position".to_owned());
            },
        };
        if piece.bottom == PieceType::King && mv.unstack {
            return Err("Cannot unstack King".to_owned());
        }
        let source_piece: Piece;
        let mut new_board = self.board;
        if mv.unstack {
            if !piece.top.is_some() {
                return Err("No top piece to unstack".to_owned());
            }
            let new_piece = new_board.unstack_piece(&mv.from);
            source_piece = match new_piece {
                Ok(p) => p,
                Err(e) => {
                    return Err(e);
                },
            };
        } else {
            source_piece = piece;
            new_board.set_piece(&mv.from, None);
        }
        assert(new_board@.cells == after_lift(m.cells, mv));
        assert(source_piece == moving_piece(piece, mv.unstack));
        let destination_piece_opt = match new_board.get_piece(&mv.to) {
            Some(d) => Some(*d),
            None => None,
        };
        let mut final_piece = source_piece;
        let mut king_captured = false;
        match destination_piece_opt {
            None => {
                new_board.set_piece(&mv.to, Some(final_piece));
            },
            Some(destination_piece) => {
                if destination_piece.color != source_piece.color {
                    king_captured = destination_piece.is_king();
                    new_board.set_piece(&mv.to, Some(final_piece));
                } else {
                    if let Err(e) = new_board.stack_piece(&mv.to, source_piece) {
                        return Err(concat_strings("Cannot complete move: ", e.as_str()));
                    }
                    final_piece = *new_board.get_piece(&mv.to).unwrap();
                }
            },
        }
        assert(final_piece == landed_piece(m, mv));
        let promote_piece = Self::check_promotion(&final_piece, &mv.to);
        if let Some(promoted) = promote_piece {
            new_board.set_piece(&mv.to, Some(promoted));
        }
        if king_captured {
            let mover_is_white = source_piece.color == Color::White;
            new_board.set_game_over(true, mover_is_white, false);
        }
        let turn = new_board.is_white_to_move();
        new_board.set_white_to_move(!turn);
        assert(new_board@ =~= apply_model(m, mv));
        Ok(new_board)
    }

    /// All potential moves of the side to move, square by square.
    pub fn get_all_moves(&self) -> (r: Vec<PotentialMove>)
        ensures
            r@ == all_moves(self.board@),
    {
        let mut all: Vec<PotentialMove> = Vec::new();
        let mut i: usize = 0;
        while i < 81
            invariant
                i <= 81,
                all@ == moves_prefix(self.board@, i as int),
            decreases 81 - i,
        {
            let position = Position::from_u8(i as u8);
            let mut moves = self.get_moves(&position);
            all.append(&mut moves);
            i += 1;
        }
        all
    }

    /// Potential moves of the piece on `position`.
    pub fn get_moves(&self, position: &Position) -> (r: Vec<PotentialMove>)
        requires
            position.is_valid(),
        ensures
            r@ == position_moves(self.board@, *position),
    {
        let mut moves: Vec<PotentialMove> = Vec::new();
        let piece = match self.board.get_piece(position) {
            Some(p) => *p,
            None => {
                return moves;
            },
        };
        if piece.color != self.board.color_to_move() {
            return moves;
        }
        if let Some(top_piece_type) = piece.top {
            let mut top_moves = self.compute_moves_for_piece_type(
                position,
                piece.color,
                top_piece_type,
                true,
                true,
            );
            moves.append(&mut top_moves);
        }
        let mut bottom_moves = self.compute_moves_for_piece_type(
            position,
            piece.color,
            piece.bottom,
            false,
            piece.top.is_some(),
        );
        moves.append(&mut bottom_moves);
        assert(moves@ =~= position_moves(self.board@, *position));
        moves
    }

    fn compute_moves_for_piece_type(
        &self,
        position: &Position,
        color: Color,
        piece_type: PieceType,
        is_top: bool,
        has_top: bool,
    ) -> (r: Vec<PotentialMove>)
        requires
            position.is_valid(),
        ensures
            r@ == type_moves(self.board@.cells, *position, color, piece_type, is_top, has_top),
    {
        let mut moves: Vec<PotentialMove> = Vec::new();
        let orthogonal: [(isize, isize); 4] = [(1, 0), (0, 1), (-1, 0), (0, -1)];
        let diagonal: [(isize, isize); 4] = [(1, 1), (1, -1), (-1, -1), (-1, 1)];
        let all_directions: [(isize, isize); 8] = [
            (1, 0),
            (0, 1),
            (-1, 0),
            (0, -1),
            (1, 1),
            (1, -1),
            (-1, -1),
            (-1, 1),
        ];
        assert(orthogonal@ =~= orthogonal_dirs());
        assert(diagonal@ =~= diagonal_dirs());
        assert(all_directions@ =~= orthogonal_dirs() + diagonal_dirs());
        match piece_type {
            PieceType::Soldier => self.compute_soldier_moves(
                position,
                color,
                is_top,
                has_top,
                &mut moves,
            ),
            PieceType::Jester => self.compute_generic_moves(
                position,
                color,
                is_top,
                has_top,
                &mut moves,
                diagonal.as_slice(),
                9,
            ),
            PieceType::Commander => self.compute_generic_moves(
                position,
                color,
                is_top,
                has_top,
                &mut moves,
                orthogonal.as_slice(),
                9,
            ),
            PieceType::Paladin => self.compute_generic_moves(
                position,
                color,
                is_top,
                has_top,
                &mut moves,
                orthogonal.as_slice(),
                2,
            ),
            PieceType::Guard => self.compute_generic_moves(
                position,
                color,
                is_top,
                has_top,
                &mut moves,
                diagonal.as_slice(),
                2,
            ),
            PieceType::Dragon => self.compute_dragon_moves(
                position,
                color,
                is_top,
                has_top,
                &mut moves,
            ),
            PieceType::Ballista => self.compute_ballista_moves(
                position,
                color,
                is_top,
                has_top,
                &mut moves,
            ),
            PieceType::King => self.compute_generic_moves(
                position,
                color,
                false,
                true,
                &mut moves,
                all_directions.as_slice(),
                1,
            ),
        }
        assert(moves@ =~= type_moves(
            self.board@.cells,
            *position,
            color,
            piece_type,
            is_top,
            has_top,
        ));
        moves
    }

    /// Explore a potential move from `position` to `target_position`.
    /// Returns true if the square does not block the ray.
    fn explore_position(
        &self,
        position: &Position,
        color: Color,
        target_position: &Position,
        is_top: bool,
        has_top: bool,
        moves: &mut Vec<PotentialMove>,
    ) -> (r: bool)
        requires
            target_position.is_valid(),
        ensures
            final(moves)@ == old(moves)@ + explore_target(
                self.board@.cells,
                *position,
                color,
                *target_position,
                is_top,
                has_top,
            ).0,
            r == explore_target(
                self.board@.cells,
                *position,
                color,
                *target_position,
                is_top,
                has_top,
            ).1,
    {
        let target_piece = match self.board.get_piece(target_position) {
            Some(t) => *t,
            None => {
                moves.push(
                    PotentialMove {
                        from: *position,
                        to: *target_position,
                        unstackable: is_top,
                        force_unstack: false,
                    },
                );
                return true;
            },
        };
        if target_piece.color != color {
            moves.push(
                PotentialMove {
                    from: *position,
                    to: *target_position,
                    unstackable: is_top,
                    force_unstack: false,
                },
            );
            return false;
        }
        if !is_top && has_top {
            return false;
        }
        if !target_piece.is_stackable() {
            return false;
        }
        moves.push(
            PotentialMove {
                from: *position,
                to: *target_position,
                unstackable: is_top,
                force_unstack: is_top,
            },
        );
        false
    }

    pub fn to_binary(&self) -> (r: [u8; 83])
        requires
            self.board@.encodable(),
        ensures
            r@ == Seq::new(83, |i: int| encode_byte(self.board@, i)),
    {
        self.board.to_binary()
    }

    pub fn from_binary(binary: [u8; 83]) -> (r: Result<Self, String>)
        requires
            forall|i: int| 0 <= i < 81 ==> valid_piece_code(#[trigger] binary@[i]),
        ensures
            r is Ok,
            r matches Ok(g) ==> g.board@ == decode_board(binary@),
    {
        let board = Board::from_binary(binary)?;
        Ok(Game::from_board(board))
    }

    /// The promoted piece if `piece` reached the far rank as a Soldier or a
    /// Ballista (Soldier becomes Paladin, Ballista becomes Commander; for a
    /// stack, the top piece).
    fn check_promotion(piece: &Piece, position: &Position) -> (r: Option<Piece>)
        requires
            piece.bottom == PieceType::King && piece.top is Some ==> promotion(*piece, *position) is None,
        ensures
            r == promotion(*piece, *position),
    {
        let reached_opposite_side = match piece.color {
            Color::White => position.y == 0,
            Color::Black => position.y == 8,
        };
        if !reached_opposite_side {
            return None;
        }
        let needs_promotion = if piece.top.is_some() {
            piece.top == Some(PieceType::Soldier) || piece.top == Some(PieceType::Ballista)
        } else {
            piece.bottom == PieceType::Soldier || piece.bottom == PieceType::Ballista
        };
        if !needs_promotion {
            return None;
        }
        if piece.top.is_some() {
            let promoted_top = match piece.top.unwrap() {
                PieceType::Soldier => PieceType::Paladin,
                PieceType::Ballista => PieceType::Commander,
                _ => {
                    return None;
                },
            };
            Some(Piece::new(piece.color, piece.bottom, Some(promoted_top)))
        } else {
            let promoted_bottom = match piece.bottom {
                PieceType::Soldier => PieceType::Paladin,
                PieceType::Ballista => PieceType::Commander,
                _ => {
                    return None;
                },
            };
            Some(Piece::new(piece.color, promoted_bottom, None))
        }
    }

    fn compute_soldier_moves(
        &self,
        position: &Position,
        color: Color,
        is_top: bool,
        has_top: bool,
        moves: &mut Vec<PotentialMove>,
    )
        requires
            position.is_valid(),
        ensures
            final(moves)@ == old(moves)@ + dirs_moves(
                self.board@.cells,
                *position,
                color,
                is_top,
                has_top,
                piece_dirs(PieceType::Soldier, color),
                1,
            ),
    {
        let dy: isize = if color == Color::White { -1 } else { 1 };
        let directions: [(isize, isize); 2] = [(1, dy), (-1, dy)];
        assert(directions@ =~= piece_dirs(PieceType::Soldier, color));
        self.compute_generic_moves(position, color, is_top, has_top, moves, directions.as_slice(), 1);
    }

    fn compute_ballista_moves(
        &self,
        position: &Position,
        color: Color,
        is_top: bool,
        has_top: bool,
        moves: &mut Vec<PotentialMove>,
    )
        requires
            position.is_valid(),
        ensures
            final(moves)@ == old(moves)@ + dirs_moves(
                self.board@.cells,
                *position,
                color,
                is_top,
                has_top,
                piece_dirs(PieceType::Ballista, color),
                9,
            ),
    {
        let dy: isize = if color == Color::White { -1 } else { 1 };
        let directions: [(isize, isize); 1] = [(0, dy)];
        assert(directions@ =~= piece_dirs(PieceType::Ballista, color));
        self.compute_generic_moves(position, color, is_top, has_top, moves, directions.as_slice(), 9);
    }

    fn compute_dragon_moves(
        &self,
        position: &Position,
        color: Color,
        is_top: bool,
        has_top: bool,
        moves: &mut Vec<PotentialMove>,
    )
        requires
            position.is_valid(),
        ensures
            final(moves)@ == old(moves)@ + dirs_moves(
                self.board@.cells,
                *position,
                color,
                is_top,
                has_top,
                knight_dirs(),
                1,
            ),
    {
        let directions: [(isize, isize); 8] = [
            (2, 1),
            (2, -1),
            (-2, 1),
            (-2, -1),
            (1, 2),
            (1, -2),
            (-1, 2),
            (-1, -2),
        ];
        assert(directions@ =~= knight_dirs());
        self.compute_generic_moves(position, color, is_top, has_top, moves, directions.as_slice(), 1);
    }

    fn compute_generic_moves(
        &self,
        position: &Position,
        color: Color,
        is_top: bool,
        has_top: bool,
        moves: &mut Vec<PotentialMove>,
        directions: &[(isize, isize)],
        max_distance: isize,
    )
        requires
            position.is_valid(),
            small_dirs(directions@),
            0 <= max_distance <= 9,
        ensures
            final(moves)@ == old(moves)@ + dirs_moves(
                self.board@.cells,
                *position,
                color,
                is_top,
                has_top,
                directions@,
                max_distance as int,
            ),
    {
        let mut i: usize = 0;
        while i < directions.len()
            invariant
                i <= directions@.len(),
                position.is_valid(),
                small_dirs(directions@),
                0 <= max_distance <= 9,
                moves@ == old(moves)@ + dirs_moves(
                    self.board@.cells,
                    *position,
                    color,
                    is_top,
                    has_top,
                    directions@.take(i as int),
                    max_distance as int,
                ),
            decreases directions@.len() - i,
        {
            let (dx, dy) = directions[i];
            assert(-2 <= directions@[i as int].0 <= 2 && -2 <= directions@[i as int].1 <= 2);
            self.compute_ray_moves(position, color, is_top, has_top, moves, dx, dy, max_distance);
            assert(directions@.take(i + 1).drop_last() =~= directions@.take(i as int));
            i += 1;
        }
        assert(directions@.take(directions@.len() as int) =~= directions@);
    }

    /// Walk one direction, step by step, until the ray is blocked or
    /// `max_distance` steps have been taken.
    fn compute_ray_moves(
        &self,
        position: &Position,
        color: Color,
        is_top: bool,
        has_top: bool,
        moves: &mut Vec<PotentialMove>,
        dx: isize,
        dy: isize,
        max_distance: isize,
    )
        requires
            position.is_valid(),
            -2 <= dx <= 2,
            -2 <= dy <= 2,
            0 <= max_distance <= 9,
        ensures
            final(moves)@ == old(moves)@ + ray_moves(
                self.board@.cells,
                *position,
                color,
                is_top,
                has_top,
                dx as int,
                dy as int,
                1,
                max_distance as int,
            ),
    {
        let ghost cells = self.board@.cells;
        let ghost whole = ray_moves(
            cells,
            *position,
            color,
            is_top,
            has_top,
            dx as int,
            dy as int,
            1,
            max_distance as int,
        );
        let mut mult: isize = 1;
        let mut blocked = false;
        while !blocked && mult <= max_distance
            invariant
                1 <= mult <= max_distance + 1,
                blocked ==> moves@ == old(moves)@ + whole,
                position.is_valid(),
                -2 <= dx <= 2,
                -2 <= dy <= 2,
                0 <= max_distance <= 9,
                cells == self.board@.cells,
                !blocked ==> old(moves)@ + whole == moves@ + ray_moves(
                    cells,
                    *position,
                    color,
                    is_top,
                    has_top,
                    dx as int,
                    dy as int,
                    mult as int,
                    max_distance as int,
                ),
            decreases max_distance + 1 - mult,
        {
            let ghost before = moves@;
            assert(-18 <= dx * mult <= 18 && -18 <= dy * mult <= 18) by (nonlinear_arith)
                requires
                    -2 <= dx <= 2,
                    -2 <= dy <= 2,
                    1 <= mult <= 9,
            ;
            assert(dx * mult == mult * dx && dy * mult == mult * dy) by (nonlinear_arith);
            match position.get_new(dx * mult, dy * mult) {
                Some(target_position) => {
                    let ghost e = explore_target(
                        cells,
                        *position,
                        color,
                        target_position,
                        is_top,
                        has_top,
                    );
                    assert(target_position == step_target(
                        *position,
                        dx as int,
                        dy as int,
                        mult as int,
                    ));
                    assert(ray_moves(
                        cells,
                        *position,
                        color,
                        is_top,
                        has_top,
                        dx as int,
                        dy as int,
                        mult as int,
                        max_distance as int,
                    ) == e.0 + if e.1 {
                        ray_moves(
                            cells,
                            *position,
                            color,
                            is_top,
                            has_top,
                            dx as int,
                            dy as int,
                            mult + 1,
                            max_distance as int,
                        )
                    } else {
                        seq![]
                    });
                    let go_on = self.explore_position(
                        position,
                        color,
                        &target_position,
                        is_top,
                        has_top,
                        moves,
                    );
                    if !go_on {
                        assert(e.0 + seq![] =~= e.0);
                        assert(moves@ == before + e.0);
                        assert(old(moves)@ + whole == before + e.0);
                        assert(moves@ =~= old(moves)@ + whole);
                        blocked = true;
                    } else {
                    assert(moves@ + ray_moves(
                        cells,
                        *position,
                        color,
                        is_top,
                        has_top,
                        dx as int,
                        dy as int,
                        mult + 1,
                        max_distance as int,
                    ) =~= before + ray_moves(
                        cells,
                        *position,
                        color,
                        is_top,
                        has_top,
                        dx as int,
                        dy as int,
                        mult as int,
                        max_distance as int,
                    ));
                    }
                },
                None => {},
            }
            mult += 1;
        }
        assert(moves@ =~= old(moves)@ + whole);
    }
}

/// The concatenation of two strings.
pub(crate) fn concat_strings(a: &str, b: &str) -> (s: String)
    ensures
        s@ == a@ + b@,
{
    let mut s = a.to_owned();
    s.append(b);
    s
}

/// Generates the moves of one colour, whoever is to move on the board.
pub struct MoveGenerator {
    game: Game,
}

impl MoveGenerator {
    pub closed spec fn model(&self) -> BoardModel {
        self.game.board@
    }

    pub fn new(board: &Board, white_to_move: bool) -> (g: Self)
        ensures
            g.model() == (BoardModel { white_to_move, ..board@ }),
    {
        let mut b = *board;
        b.set_white_to_move(white_to_move);
        MoveGenerator { game: Game::from_board(b) }
    }

    /// Potential moves of the piece on `position`, if it has the generator's
    /// colour.
    pub fn get_moves(&self, position: &Position) -> (r: Vec<PotentialMove>)
        requires
            position.is_valid(),
        ensures
            r@ == position_moves(self.model(), *position),
    {
        self.game.get_moves(position)
    }
}

} // verus!
