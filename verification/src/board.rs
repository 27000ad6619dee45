//! Board representation: squares, pieces, stacks and the binary wire format.
use vstd::prelude::*;

verus! {

/// Width and height of the board.
pub const BOARD_DIMENSION: usize = 9;

/// Number of squares on the board.
pub const BOARD_SIZE: usize = 81;

/// Length of the binary encoding of a board: one byte per square, one byte
/// for the side to move and one status byte.
pub const BINARY_SIZE: usize = 83;

#[derive(Clone, Copy, Debug, PartialEq, Eq, Structural)]
pub enum Color {
    White,
    Black,
}

impl Color {
    pub open spec fn opponent(self) -> Color {
        match self {
            Color::White => Color::Black,
            Color::Black => Color::White,
        }
    }
}

#[derive(Clone, Copy, Debug, PartialEq, Eq, Structural)]
pub struct Position {
    /// Column, 0 (A) to 8 (I).
    pub x: usize,
    /// Row, 0 (top, rank 9) to 8 (bottom, rank 1).
    pub y: usize,
}

/// The square at absolute index `i` (row-major).
pub open spec fn square_position(i: int) -> Position {
    Position { x: (i % 9) as usize, y: (i / 9) as usize }
}

/// True when `(x, y)` lies on the board.
pub open spec fn on_board(x: int, y: int) -> bool {
    0 <= x < 9 && 0 <= y < 9
}

impl Position {
    pub open spec fn is_valid(self) -> bool {
        self.x < 9 && self.y < 9
    }

    /// Row-major index of the square.
    pub open spec fn index(self) -> int {
        self.y * 9 + self.x
    }

    pub fn new(x: usize, y: usize) -> (p: Self)
        requires
            x < BOARD_DIMENSION,
            y < BOARD_DIMENSION,
        ensures
            p == (Position { x, y }),
    {
        Position { x, y }
    }

    pub fn validate(x: isize, y: isize) -> (r: bool)
        ensures
            r == on_board(x as int, y as int),
    {
        x >= 0 && x < 9 && y >= 0 && y < 9
    }

    pub fn to_absolute(&self) -> (r: usize)
        requires
            self.index() <= usize::MAX,
        ensures
            r == self.index(),
    {
        self.y * 9 + self.x
    }

    pub fn to_u8(&self) -> (r: u8)
        requires
            self.index() <= usize::MAX,
        ensures
            r == self.index() as u8,
    {
        self.to_absolute() as u8
    }

    pub fn from_u8(value: u8) -> (p: Self)
        requires
            value < BOARD_SIZE,
        ensures
            p == square_position(value as int),
            p.is_valid(),
            p.index() == value,
    {
        let x = value as usize % 9;
        let y = value as usize / 9;
        Position::new(x, y)
    }

    /// The square displaced by `(dx, dy)`, if it is on the board.
    pub fn get_new(&self, dx: isize, dy: isize) -> (r: Option<Self>)
        requires
            self.x <= isize::MAX,
            self.y <= isize::MAX,
            isize::MIN <= self.x + dx <= isize::MAX,
            isize::MIN <= self.y + dy <= isize::MAX,
        ensures
            r == (if on_board(self.x + dx, self.y + dy) {
                Some(Position { x: (self.x + dx) as usize, y: (self.y + dy) as usize })
            } else {
                None
            }),
    {
        let new_x = self.x as isize + dx;
        let new_y = self.y as isize + dy;
        if !Self::validate(new_x, new_y) {
            return None;
        }
        Some(Position::new(new_x as usize, new_y as usize))
    }

    /// Column letter followed by rank digit, e.g. `E1` for the bottom centre.
    pub fn to_string(&self) -> (s: String)
        requires
            (self.x as u8) <= 190,
            self.y <= 9,
        ensures
            s@ == seq![(65 + (self.x as u8)) as char, (48 + 9 - self.y) as char],
    {
        let col = (65u8 + self.x as u8) as char;
        let row = (48u8 + (9 - self.y) as u8) as char;
        string_from_chars(vec![col, row])
    }
}

/// The string made of `chars`, in order.
/// Trusted: collecting an iterator of characters into a `String` appends
/// each character in turn.
#[verifier::external_body]
pub(crate) fn string_from_chars(chars: Vec<char>) -> (s: String)
    ensures
        s@ == chars@,
{
    chars.into_iter().collect()
}

#[derive(Clone, Copy, Debug, PartialEq, Eq, Structural)]
pub enum PieceType {
    /// Moves one square diagonally forward.
    Soldier,
    /// Slides diagonally (the bishop of Keres).
    Jester,
    /// Slides orthogonally (the rook of Keres).
    Commander,
    /// Up to two squares orthogonally.
    Paladin,
    /// Up to two squares diagonally.
    Guard,
    /// Jumps like a chess knight.
    Dragon,
    /// Slides straight forward.
    Ballista,
    /// One square in any direction; never stacks.
    King,
}

#[allow(non_upper_case_globals)]
impl PieceType {
    /// The Jester under its chess name.
    pub const Bishop: PieceType = PieceType::Jester;
    /// The Dragon under its chess name.
    pub const Knight: PieceType = PieceType::Dragon;
    /// The Commander under its chess name.
    pub const Rook: PieceType = PieceType::Commander;
}

/// The 3-bit code of a piece type (8 for the King, which has its own encoding).
pub open spec fn type_code(t: PieceType) -> int {
    match t {
        PieceType::Soldier => 1,
        PieceType::Jester => 2,
        PieceType::Commander => 3,
        PieceType::Paladin => 4,
        PieceType::Guard => 5,
        PieceType::Dragon => 6,
        PieceType::Ballista => 7,
        PieceType::King => 8,
    }
}

/// The piece type carrying 3-bit code `c`, King excluded.
pub open spec fn code_type(c: int) -> Option<PieceType> {
    if c == 1 {
        Some(PieceType::Soldier)
    } else if c == 2 {
        Some(PieceType::Jester)
    } else if c == 3 {
        Some(PieceType::Commander)
    } else if c == 4 {
        Some(PieceType::Paladin)
    } else if c == 5 {
        Some(PieceType::Guard)
    } else if c == 6 {
        Some(PieceType::Dragon)
    } else if c == 7 {
        Some(PieceType::Ballista)
    } else {
        None
    }
}

fn piece_type_code(t: PieceType) -> (c: u8)
    ensures
        c == type_code(t),
{
    match t {
        PieceType::Soldier => 1,
        PieceType::Jester => 2,
        PieceType::Commander => 3,
        PieceType::Paladin => 4,
        PieceType::Guard => 5,
        PieceType::Dragon => 6,
        PieceType::Ballista => 7,
        PieceType::King => 8,
    }
}

#[derive(Clone, Copy, Debug, PartialEq, Eq, Structural)]
pub struct Piece {
    pub color: Color,
    /// Base piece, always present.
    pub bottom: PieceType,
    /// Optional piece stacked on top.
    pub top: Option<PieceType>,
}

/// Byte `v` decodes without error.
pub open spec fn valid_piece_code(v: u8) -> bool {
    v == 0 || v % 64 == 56 || v % 8 != 0
}

/// The square content encoded by byte `v`: bit 6 is the colour (white when
/// the byte is in 64..128), bits 5..3 the top piece and bits 2..0 the bottom
/// piece; `0b111000` in the low six bits is the King.
pub open spec fn decode_piece(v: u8) -> Option<Piece> {
    if v == 0 {
        None
    } else {
        let color = if v / 64 == 1 { Color::White } else { Color::Black };
        let payload = v % 64;
        if payload == 56 {
            Some(Piece { color, bottom: PieceType::King, top: None })
        } else {
            Some(Piece {
                color,
                bottom: code_type((payload % 8) as int).unwrap(),
                top: code_type((payload / 8) as int),
            })
        }
    }
}

impl Piece {
    /// A piece that the rules can produce: a King never carries nor is
    /// carried.
    pub open spec fn wf(self) -> bool {
        &&& (self.bottom == PieceType::King ==> self.top is None)
        &&& self.top != Some(PieceType::King)
    }

    /// The piece can be encoded in a byte.
    pub open spec fn encodable(self) -> bool {
        self.bottom == PieceType::King || self.top != Some(PieceType::King)
    }

    /// The byte encoding of the piece.
    pub open spec fn code(self) -> int {
        let color_bit: int = if self.color == Color::White { 64 } else { 0 };
        if self.bottom == PieceType::King {
            color_bit + 56
        } else {
            let top: int = match self.top {
                Some(t) => type_code(t),
                None => 0,
            };
            color_bit + top * 8 + type_code(self.bottom)
        }
    }

    pub fn new(color: Color, bottom: PieceType, top: Option<PieceType>) -> (p: Self)
        requires
            !(bottom == PieceType::King && top is Some),
        ensures
            p == (Piece { color, bottom, top }),
    {
        Piece { color, bottom, top }
    }

    /// Another piece may be stacked on this one.
    pub fn is_stackable(&self) -> (r: bool)
        ensures
            r == (self.bottom != PieceType::King && self.top is None),
    {
        !self.is_king() && !self.is_stacked()
    }

    pub fn is_stacked(&self) -> (r: bool)
        ensures
            r == self.top is Some,
    {
        self.top.is_some()
    }

    pub fn is_king(&self) -> (r: bool)
        ensures
            r == (self.bottom == PieceType::King),
    {
        self.bottom == PieceType::King
    }

    pub fn to_u8(&self) -> (r: u8)
        requires
            self.encodable(),
        ensures
            r == self.code(),
    {
        let color_bit: u8 = match self.color {
            Color::White => 64,
            Color::Black => 0,
        };
        if self.bottom == PieceType::King {
            assert(color_bit | 56u8 == color_bit + 56) by (bit_vector)
                requires
                    color_bit == 0 || color_bit == 64,
            ;
            return color_bit | 0b0111000;
        }
        let bottom_code = piece_type_code(self.bottom);
        match self.top {
            Some(top_type) => {
                let top_code = piece_type_code(top_type);
                assert(color_bit | (top_code << 3u8) | bottom_code == color_bit + top_code * 8
                    + bottom_code) by (bit_vector)
                    requires
                        color_bit == 0 || color_bit == 64,
                        1 <= top_code <= 7,
                        1 <= bottom_code <= 7,
                ;
                color_bit | (top_code << 3) | bottom_code
            },
            None => {
                assert(color_bit | bottom_code == color_bit + bottom_code) by (bit_vector)
                    requires
                        color_bit == 0 || color_bit == 64,
                        1 <= bottom_code <= 7,
                ;
                color_bit | bottom_code
            },
        }
    }

    pub fn from_u8(value: u8) -> (r: Option<Piece>)
        requires
            valid_piece_code(value),
        ensures
            r == decode_piece(value),
    {
        if value == 0 {
            return None;
        }
        assert(value >> 6u8 == value / 64) by (bit_vector);
        assert(value & 0b00111111u8 == value % 64) by (bit_vector);
        let color = if (value >> 6) == 1 {
            Color::White
        } else {
            Color::Black
        };
        let payload = value & 0b00111111;
        if payload == 0b0111000 {
            return Some(Piece { color, bottom: PieceType::King, top: None });
        }
        assert((payload >> 3u8) & 7u8 == payload / 8) by (bit_vector)
            requires
                payload < 64,
        ;
        assert(payload & 7u8 == payload % 8) by (bit_vector);
        let uuu = (payload >> 3) & 0b111;
        let lll = payload & 0b111;
        let bottom_piece_type = Self::code_to_piece_type(lll).unwrap();
        if uuu == 0 {
            Some(Piece { color, bottom: bottom_piece_type, top: None })
        } else {
            let top_piece_type = Self::code_to_piece_type(uuu).unwrap();
            Some(Piece { color, bottom: bottom_piece_type, top: Some(top_piece_type) })
        }
    }

    fn code_to_piece_type(code: u8) -> (r: Option<PieceType>)
        ensures
            r == code_type(code as int),
    {
        match code {
            1 => Some(PieceType::Soldier),
            2 => Some(PieceType::Jester),
            3 => Some(PieceType::Commander),
            4 => Some(PieceType::Paladin),
            5 => Some(PieceType::Guard),
            6 => Some(PieceType::Dragon),
            7 => Some(PieceType::Ballista),
            _ => None,
        }
    }
}

/// Decoding the byte encoding of a well-formed piece gives the piece back,
/// and the byte is a valid, non-empty code.
pub proof fn lemma_piece_code_roundtrip(p: Piece)
    requires
        p.wf(),
    ensures
        0 < p.code() < 128,
        valid_piece_code(p.code() as u8),
        decode_piece(p.code() as u8) == Some(p),
{
}

/// The abstract content of a board.
#[verifier::ext_equal]
pub struct BoardModel {
    /// The 81 squares in row-major order.
    pub cells: Seq<Option<Piece>>,
    pub white_to_move: bool,
    /// The game was declared over.
    pub game_over: bool,
    /// With `game_over`: White won.
    pub white_won: bool,
    /// With `game_over`: the game is drawn.
    pub drawn: bool,
}

/// Number of Kings (of either colour) among `cells`.
pub open spec fn king_count(cells: Seq<Option<Piece>>) -> nat
    decreases cells.len(),
{
    if cells.len() == 0 {
        0
    } else {
        king_count(cells.drop_last()) + match cells.last() {
            Some(p) => if p.bottom == PieceType::King { 1nat } else { 0nat },
            None => 0nat,
        }
    }
}

/// The piece types of the back three ranks of Black's starting set-up,
/// in row-major order.
pub open spec fn setup_type(i: int) -> Option<PieceType> {
    if i == 0 || i == 8 {
        Some(PieceType::Ballista)
    } else if i == 1 || i == 7 {
        Some(PieceType::Dragon)
    } else if i == 2 || i == 6 {
        Some(PieceType::Paladin)
    } else if i == 3 || i == 5 {
        Some(PieceType::Guard)
    } else if i == 4 {
        Some(PieceType::King)
    } else if i == 11 {
        Some(PieceType::Commander)
    } else if i == 15 {
        Some(PieceType::Jester)
    } else if 18 <= i < 27 {
        Some(PieceType::Soldier)
    } else {
        None
    }
}

/// Content of square `i` in the starting position: Black's set-up on the
/// first 27 squares, White's mirrored through the centre on the last 27.
pub open spec fn initial_cell(i: int) -> Option<Piece> {
    if 0 <= i < 27 {
        match setup_type(i) {
            Some(t) => Some(Piece { color: Color::Black, bottom: t, top: None }),
            None => None,
        }
    } else if 54 <= i < 81 {
        match setup_type(80 - i) {
            Some(t) => Some(Piece { color: Color::White, bottom: t, top: None }),
            None => None,
        }
    } else {
        None
    }
}

pub open spec fn initial_model() -> BoardModel {
    BoardModel {
        cells: Seq::new(81, |i: int| initial_cell(i)),
        white_to_move: true,
        game_over: false,
        white_won: false,
        drawn: false,
    }
}

/// The status byte: bit 0 game over, bit 1 White won, bit 2 drawn.
pub open spec fn status_byte(m: BoardModel) -> int {
    (if m.game_over { 1int } else { 0 }) + (if m.white_won { 2int } else { 0 }) + (if m.drawn {
        4int
    } else {
        0
    })
}

/// Byte `i` of the binary encoding of `m`.
pub open spec fn encode_byte(m: BoardModel, i: int) -> u8 {
    if i < 81 {
        match m.cells[i] {
            Some(p) => p.code() as u8,
            None => 0,
        }
    } else if i == 81 {
        if m.white_to_move { 1 } else { 0 }
    } else {
        status_byte(m) as u8
    }
}

/// The board described by a binary encoding.
pub open spec fn decode_board(bytes: Seq<u8>) -> BoardModel {
    BoardModel {
        cells: Seq::new(81, |i: int| decode_piece(bytes[i])),
        white_to_move: bytes[81] == 1,
        game_over: bytes[82] % 2 == 1,
        white_won: (bytes[82] / 2) % 2 == 1,
        drawn: (bytes[82] / 4) % 2 == 1,
    }
}

/// The first 81 bytes are valid square codes.
pub open spec fn codes_valid(bytes: Seq<u8>) -> bool {
    forall|i: int| 0 <= i < 81 ==> valid_piece_code(#[trigger] bytes[i])
}

/// A board decoded from valid codes is one the rules can produce, and can
/// be encoded again.
pub proof fn lemma_decoded_board_wf(bytes: Seq<u8>)
    requires
        bytes.len() >= 83,
        codes_valid(bytes),
    ensures
        decode_board(bytes).wf(),
        decode_board(bytes).encodable(),
{
    let m = decode_board(bytes);
    assert forall|i: int| 0 <= i < m.cells.len() implies match #[trigger] m.cells[i] {
        Some(p) => p.wf() && p.encodable(),
        None => true,
    } by {
        let v = bytes[i];
        assert(valid_piece_code(v));
        assert((v % 64) % 8 == v % 8) by (bit_vector);
    }
}

/// The `(position, piece)` pairs of the occupied squares among the first `n`,
/// in square order.
pub open spec fn occupied_prefix(cells: Seq<Option<Piece>>, n: int) -> Seq<(Position, Piece)>
    decreases n,
{
    if n <= 0 {
        seq![]
    } else {
        occupied_prefix(cells, n - 1) + match cells[n - 1] {
            Some(p) => seq![(square_position(n - 1), p)],
            None => seq![],
        }
    }
}

/// Square `i` holds the King of `color`.
pub open spec fn holds_king(cells: Seq<Option<Piece>>, i: int, color: Color) -> bool {
    match cells[i] {
        Some(p) => p.color == color && p.bottom == PieceType::King,
        None => false,
    }
}

#[derive(Clone, Copy, Debug, PartialEq, Eq)]
pub struct Board {
    data: [Option<Piece>; 81],
    white_to_move: bool,
    game_over: bool,
    white_won: bool,
    drawn: bool,
}

impl View for Board {
    type V = BoardModel;

    closed spec fn view(&self) -> BoardModel {
        BoardModel {
            cells: self.data@,
            white_to_move: self.white_to_move,
            game_over: self.game_over,
            white_won: self.white_won,
            drawn: self.drawn,
        }
    }
}

/// Every board has 81 squares.
pub broadcast proof fn lemma_board_len(b: Board)
    ensures
        #[trigger] b@.cells.len() == 81,
{
}

impl BoardModel {
    /// Every piece on the board is well formed.
    pub open spec fn wf(self) -> bool {
        &&& self.cells.len() == 81
        &&& forall|i: int| 0 <= i < self.cells.len() ==> match #[trigger] self.cells[i] {
            Some(p) => p.wf(),
            None => true,
        }
    }

    /// Every piece on the board can be written to a byte.
    pub open spec fn encodable(self) -> bool {
        forall|i: int| 0 <= i < self.cells.len() ==> match #[trigger] self.cells[i] {
            Some(p) => p.encodable(),
            None => true,
        }
    }

    /// The game is over: declared so, or fewer than two Kings remain.
    pub open spec fn is_over(self) -> bool {
        self.game_over || king_count(self.cells) < 2
    }

    pub open spec fn color_to_move(self) -> Color {
        if self.white_to_move { Color::White } else { Color::Black }
    }
}

/// The board after splitting the stack on `pos`, with the top piece
/// taken off as a single piece; none without a stack there.
pub open spec fn unstacked(m: BoardModel, pos: Position) -> Option<(BoardModel, Piece)> {
    match m.cells[pos.index()] {
        Some(p) => match p.top {
            Some(t) => Some(
                (
                    BoardModel {
                        cells: m.cells.update(
                            pos.index(),
                            Some(Piece { color: p.color, bottom: p.bottom, top: None }),
                        ),
                        ..m
                    },
                    Piece { color: p.color, bottom: t, top: None },
                ),
            ),
            None => None,
        },
        None => None,
    }
}

/// The board after putting the single piece `moving` on top of the piece
/// on `pos`; none unless that piece is a single non-King of the same
/// colour.
pub open spec fn stacked(m: BoardModel, pos: Position, moving: Piece) -> Option<BoardModel> {
    match m.cells[pos.index()] {
        Some(p) => if p.bottom != PieceType::King && p.top is None && p.color == moving.color
            && moving.top is None {
            Some(
                BoardModel {
                    cells: m.cells.update(
                        pos.index(),
                        Some(Piece { color: p.color, bottom: p.bottom, top: Some(moving.bottom) }),
                    ),
                    ..m
                },
            )
        } else {
            None
        },
        None => None,
    }
}

/// Why the piece on a square cannot be unstacked.
pub open spec fn unstack_error(c: Option<Piece>) -> Seq<char> {
    match c {
        None => "No piece at the specified position"@,
        Some(_) => "No top piece to unstack"@,
    }
}

/// Why `moving` cannot be stacked onto what stands on a square: the first
/// rule it breaks.
pub open spec fn stack_error(c: Option<Piece>, moving: Piece) -> Seq<char> {
    match c {
        None => "No piece at position to stack onto"@,
        Some(p) => if !(p.bottom != PieceType::King && p.top is None) {
            "Cannot stack onto this piece (King or already stacked)"@
        } else if p.color != moving.color {
            "Cannot stack pieces of different colors"@
        } else {
            "Cannot stack an already stacked piece"@
        },
    }
}

/// Unstacking undoes stacking: after a piece is stacked on `pos`,
/// unstacking gives it back and restores the board.
pub proof fn lemma_unstack_undoes_stack(m: BoardModel, pos: Position, moving: Piece)
    requires
        pos.index() < m.cells.len(),
        stacked(m, pos, moving) is Some,
    ensures
        unstacked(stacked(m, pos, moving).unwrap(), pos) == Some((m, moving)),
{
    let after = stacked(m, pos, moving).unwrap();
    assert(after.cells.update(pos.index(), m.cells[pos.index()]) =~= m.cells);
}

/// Stacking undoes unstacking: putting the piece taken off a stack back on
/// its square restores the board.
pub proof fn lemma_stack_undoes_unstack(m: BoardModel, pos: Position)
    requires
        pos.index() < m.cells.len(),
        unstacked(m, pos) is Some,
    ensures
        ({
            let (after, top) = unstacked(m, pos).unwrap();
            m.cells[pos.index()].unwrap().bottom != PieceType::King ==> stacked(after, pos, top)
                == Some(m)
        }),
{
    let (after, top) = unstacked(m, pos).unwrap();
    assert(after.cells.update(pos.index(), m.cells[pos.index()]) =~= m.cells);
}

fn half_board_setup(i: usize) -> (r: Option<PieceType>)
    requires
        i < 27,
    ensures
        r == setup_type(i as int),
{
    if i == 0 || i == 8 {
        Some(PieceType::Ballista)
    } else if i == 1 || i == 7 {
        Some(PieceType::Dragon)
    } else if i == 2 || i == 6 {
        Some(PieceType::Paladin)
    } else if i == 3 || i == 5 {
        Some(PieceType::Guard)
    } else if i == 4 {
        Some(PieceType::King)
    } else if i == 11 {
        Some(PieceType::Commander)
    } else if i == 15 {
        Some(PieceType::Jester)
    } else if i >= 18 {
        Some(PieceType::Soldier)
    } else {
        None
    }
}

impl Board {
    /// The starting position, White to move.
    pub fn new() -> (b: Self)
        ensures
            b@ == initial_model(),
    {
        let mut data: [Option<Piece>; 81] = [None; 81];
        let mut i: usize = 0;
        while i < 27
            invariant
                i <= 27,
                forall|j: int| 0 <= j < i ==> data@[j] == initial_cell(j),
                forall|j: int| 27 <= j < 54 ==> data@[j] is None,
                forall|j: int| 81 - i <= j < 81 ==> data@[j] == initial_cell(j),
                forall|j: int| i <= j < 27 ==> data@[j] is None,
                forall|j: int| 54 <= j < 81 - i ==> data@[j] is None,
            decreases 27 - i,
        {
            match half_board_setup(i) {
                Some(t) => {
                    let position = Position::from_u8(i as u8);
                    data[position.to_absolute()] = Some(
                        Piece { color: Color::Black, bottom: t, top: None },
                    );
                    data[BOARD_SIZE - position.to_absolute() - 1] = Some(
                        Piece { color: Color::White, bottom: t, top: None },
                    );
                },
                None => {},
            }
            i += 1;
        }
        let b = Board {
            data,
            white_to_move: true,
            game_over: false,
            white_won: false,
            drawn: false,
        };
        assert(b@.cells =~= initial_model().cells);
        b
    }

    /// A board without pieces, White to move.
    pub fn empty() -> (b: Self)
        ensures
            b@.cells == Seq::new(81, |i: int| None::<Piece>),
            b@.white_to_move,
            !b@.game_over,
            !b@.white_won,
            !b@.drawn,
    {
        let b = Board {
            data: [None; 81],
            white_to_move: true,
            game_over: false,
            white_won: false,
            drawn: false,
        };
        assert(b@.cells =~= Seq::new(81, |i: int| None::<Piece>));
        b
    }

    pub fn is_white_to_move(&self) -> (r: bool)
        ensures
            r == self@.white_to_move,
    {
        self.white_to_move
    }

    pub fn set_white_to_move(&mut self, white_to_move: bool)
        ensures
            final(self)@ == (BoardModel { white_to_move, ..old(self)@ }),
    {
        self.white_to_move = white_to_move;
    }

    pub fn color_to_move(&self) -> (c: Color)
        ensures
            c == self@.color_to_move(),
    {
        if self.white_to_move {
            Color::White
        } else {
            Color::Black
        }
    }

    /// Declare the outcome of the game.
    pub fn set_game_over(&mut self, game_over: bool, white_wins: bool, draw: bool)
        ensures
            final(self)@ == (BoardModel {
                game_over,
                white_won: white_wins,
                drawn: draw,
                ..old(self)@
            }),
    {
        self.game_over = game_over;
        self.white_won = white_wins;
        self.drawn = draw;
    }

    /// White won (meaningful once the game is over).
    pub fn white_wins(&self) -> (r: bool)
        ensures
            r == self@.white_won,
    {
        self.white_won
    }

    /// The game ended in a draw.
    pub fn is_draw(&self) -> (r: bool)
        ensures
            r == self@.drawn,
    {
        self.drawn
    }

    /// The game is over: it was declared over, or fewer than two Kings are
    /// left on the board.
    pub fn is_game_over(&self) -> (r: bool)
        ensures
            r == self@.is_over(),
    {
        if self.game_over {
            return true;
        }
        let mut king_found = false;
        let mut i: usize = 0;
        while i < 81
            invariant
                i <= 81,
                !self.game_over,
                king_count(self.data@.subrange(0, i as int)) == (if king_found { 1nat } else {
                    0nat
                }),
            decreases 81 - i,
        {
            assert(self.data@.subrange(0, i + 1).drop_last() =~= self.data@.subrange(0, i as int));
            if let Some(piece) = &self.data[i] {
                if piece.is_king() {
                    if king_found {
                        proof {
                            lemma_king_count_prefix_mono(self.data@, i + 1, 81);
                            assert(self.data@.subrange(0, 81) =~= self.data@);
                        }
                        return false;
                    }
                    king_found = true;
                }
            }
            i += 1;
        }
        assert(self.data@.subrange(0, 81) =~= self.data@);
        true
    }

    pub fn get_piece(&self, position: &Position) -> (r: Option<&Piece>)
        requires
            position.index() < 81,
        ensures
            r is Some <==> self@.cells[position.index()] is Some,
            r is Some ==> self@.cells[position.index()] == Some(*r->0),
    {
        let idx = position.y * 9 + position.x;
        self.data[idx].as_ref()
    }

    pub fn set_piece(&mut self, position: &Position, piece: Option<Piece>)
        requires
            position.index() < 81,
        ensures
            final(self)@ == (BoardModel {
                cells: old(self)@.cells.update(position.index(), piece),
                ..old(self)@
            }),
    {
        let idx = position.y * 9 + position.x;
        self.data[idx] = piece;
    }

    /// Split the stack at `position`: the bottom piece stays, the top piece
    /// is returned as a single piece.
    pub fn unstack_piece(&mut self, position: &Position) -> (r: Result<Piece, String>)
        requires
            position.index() < 81,
        ensures
            match unstacked(old(self)@, *position) {
                None => r is Err && final(self)@ == old(self)@,
                Some((after, top)) => r == Ok::<Piece, String>(top) && final(self)@ == after,
            },
            r matches Err(e) ==> e@ == unstack_error(old(self)@.cells[position.index()]),
    {
        let piece = self.get_piece(position);
        if piece.is_none() {
            return Err("No piece at the specified position".to_owned());
        }
        let piece = *piece.unwrap();
        if piece.top.is_none() {
            return Err("No top piece to unstack".to_owned());
        }
        let bottom_piece = Piece { color: piece.color, bottom: piece.bottom, top: None };
        let new_piece = Piece { color: piece.color, bottom: piece.top.unwrap(), top: None };
        self.set_piece(position, Some(bottom_piece));
        Ok(new_piece)
    }

    /// Stack `moving_piece` onto the piece at `position`.
    pub fn stack_piece(&mut self, position: &Position, moving_piece: Piece) -> (r: Result<
        (),
        String,
    >)
        requires
            position.index() < 81,
        ensures
            match stacked(old(self)@, *position, moving_piece) {
                None => r is Err && final(self)@ == old(self)@,
                Some(after) => r is Ok && final(self)@ == after,
            },
            r matches Err(e) ==> e@ == stack_error(old(self)@.cells[position.index()], moving_piece),
    {
        let existing_piece = self.get_piece(position);
        if existing_piece.is_none() {
            return Err("No piece at position to stack onto".to_owned());
        }
        let existing_piece = *existing_piece.unwrap();
        if !existing_piece.is_stackable() {
            return Err("Cannot stack onto this piece (King or already stacked)".to_owned());
        }
        if existing_piece.color != moving_piece.color {
            return Err("Cannot stack pieces of different colors".to_owned());
        }
        if moving_piece.top.is_some() {
            return Err("Cannot stack an already stacked piece".to_owned());
        }
        let stacked_piece = Piece {
            color: existing_piece.color,
            bottom: existing_piece.bottom,
            top: Some(moving_piece.bottom),
        };
        self.set_piece(position, Some(stacked_piece));
        Ok(())
    }

    /// The binary encoding: 81 square bytes, the side to move (1 for White)
    /// and the status byte.
    pub fn to_binary(&self) -> (r: [u8; 83])
        requires
            self@.encodable(),
        ensures
            r@ == Seq::new(83, |i: int| encode_byte(self@, i)),
    {
        let mut binary: [u8; 83] = [0; 83];
        let mut i: usize = 0;
        while i < 81
            invariant
                i <= 81,
                self@.encodable(),
                forall|j: int| 0 <= j < i ==> binary@[j] == encode_byte(self@, j),
                forall|j: int| i <= j < 83 ==> binary@[j] == 0,
            decreases 81 - i,
        {
            if let Some(piece) = &self.data[i] {
                assert(self@.cells[i as int] == Some(*piece));
                binary[i] = piece.to_u8();
            }
            i += 1;
        }
        binary[81] = if self.white_to_move { 1 } else { 0 };
        let status: u8 = (if self.game_over { 1u8 } else { 0u8 }) + (if self.white_won {
            2u8
        } else {
            0u8
        }) + (if self.drawn { 4u8 } else { 0u8 });
        binary[82] = status;
        assert(binary@ =~= Seq::new(83, |i: int| encode_byte(self@, i)));
        binary
    }

    /// Read a board from its binary encoding.
    pub fn from_binary(binary: [u8; 83]) -> (r: Result<Self, String>)
        requires
            forall|i: int| 0 <= i < 81 ==> valid_piece_code(#[trigger] binary@[i]),
        ensures
            r is Ok,
            r matches Ok(b) ==> b@ == decode_board(binary@),
    {
        let mut data: [Option<Piece>; 81] = [None; 81];
        let mut i: usize = 0;
        while i < 81
            invariant
                i <= 81,
                forall|j: int| 0 <= j < 81 ==> valid_piece_code(#[trigger] binary@[j]),
                forall|j: int| 0 <= j < i ==> data@[j] == decode_piece(binary@[j]),
            decreases 81 - i,
        {
            data[i] = Piece::from_u8(binary[i]);
            i += 1;
        }
        let status = binary[82];
        let b = Board {
            data,
            white_to_move: binary[81] == 1,
            game_over: status % 2 == 1,
            white_won: (status / 2) % 2 == 1,
            drawn: (status / 4) % 2 == 1,
        };
        assert(b@.cells =~= decode_board(binary@).cells);
        Ok(b)
    }

    /// Every piece on the board is one the rules can produce.
    pub fn is_well_formed(&self) -> (r: bool)
        ensures
            r == self@.wf(),
    {
        let mut i: usize = 0;
        while i < 81
            invariant
                i <= 81,
                forall|j: int| 0 <= j < i ==> match #[trigger] self@.cells[j] {
                    Some(p) => p.wf(),
                    None => true,
                },
            decreases 81 - i,
        {
            if let Some(p) = &self.data[i] {
                assert(self@.cells[i as int] == Some(*p));
                let king_loaded = p.bottom == PieceType::King && p.top.is_some();
                let king_on_top = match p.top {
                    Some(t) => t == PieceType::King,
                    None => false,
                };
                if king_loaded || king_on_top {
                    return false;
                }
            }
            i += 1;
        }
        true
    }

    /// Every piece on the board can be written to a byte.
    pub fn is_encodable(&self) -> (r: bool)
        ensures
            r == self@.encodable(),
    {
        let mut i: usize = 0;
        while i < 81
            invariant
                i <= 81,
                forall|j: int| 0 <= j < i ==> match #[trigger] self@.cells[j] {
                    Some(p) => p.encodable(),
                    None => true,
                },
            decreases 81 - i,
        {
            if let Some(p) = &self.data[i] {
                assert(self@.cells[i as int] == Some(*p));
                let king_on_top = match p.top {
                    Some(t) => t == PieceType::King,
                    None => false,
                };
                if p.bottom != PieceType::King && king_on_top {
                    return false;
                }
            }
            i += 1;
        }
        true
    }

    /// The occupied squares with their pieces, in square order.
    pub fn pieces(&self) -> (r: Vec<(Position, Piece)>)
        ensures
            r@ == occupied_prefix(self@.cells, 81),
    {
        let mut out: Vec<(Position, Piece)> = Vec::new();
        let mut i: usize = 0;
        while i < 81
            invariant
                i <= 81,
                out@ == occupied_prefix(self@.cells, i as int),
            decreases 81 - i,
        {
            if let Some(piece) = &self.data[i] {
                out.push((Position::from_u8(i as u8), *piece));
            }
            proof {
                assert(self@.cells[i as int] == self.data@[i as int]);
            }
            i += 1;
        }
        out
    }
}

proof fn lemma_king_count_prefix_mono(cells: Seq<Option<Piece>>, i: int, n: int)
    requires
        0 <= i <= n <= cells.len(),
    ensures
        king_count(cells.subrange(0, i)) <= king_count(cells.subrange(0, n)),
    decreases n - i,
{
    if i < n {
        lemma_king_count_prefix_mono(cells, i, n - 1);
        assert(cells.subrange(0, n).drop_last() =~= cells.subrange(0, n - 1));
    }
}

/// Reading back the binary encoding of a board gives the same board.
pub proof fn lemma_binary_roundtrip(b: Board)
    requires
        b@.wf(),
    ensures
        b@.encodable(),
        ({
            let bytes = Seq::new(83, |i: int| encode_byte(b@, i));
            &&& forall|i: int| 0 <= i < 81 ==> valid_piece_code(#[trigger] bytes[i])
            &&& decode_board(bytes) == b@
        }),
{
    let bytes = Seq::new(83, |i: int| encode_byte(b@, i));
    assert forall|i: int| 0 <= i < 81 implies valid_piece_code(#[trigger] bytes[i])
        && decode_piece(bytes[i]) == b@.cells[i] by {
        match b@.cells[i] {
            Some(p) => lemma_piece_code_roundtrip(p),
            None => {},
        }
    }
    assert(decode_board(bytes).cells =~= b@.cells);
}

} // verus!
