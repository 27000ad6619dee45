//! Zobrist hashing of board positions: the XOR of one key per occupied
//! square and piece code, and one key for White to move.  The keys come
//! from a fixed xorshift64 sequence, so hashes are reproducible.
use vstd::prelude::*;
use crate::game::Game;
use crate::board::{lemma_board_len, Board, BoardModel, Piece};

verus! {

broadcast use lemma_board_len;

/// Number of distinct 7-bit piece codes.
pub const NUM_PIECE_CODES: usize = 128;

/// Number of keys drawn for the squares.
pub const NUM_SQUARE_KEYS: usize = 10368;

/// Seed of the key sequence.
pub const SEED: u64 = 0x12345678_DEADBEEF;

/// One step of the xorshift64 generator.
pub open spec fn xorshift(s: u64) -> u64 {
    let a = s ^ (s << 13u64);
    let b = a ^ (a >> 7u64);
    b ^ (b << 17u64)
}

/// The generator state after `n` steps from the seed.
pub open spec fn xorshift_state(n: nat) -> u64
    decreases n,
{
    if n == 0 {
        SEED
    } else {
        xorshift(xorshift_state((n - 1) as nat))
    }
}

/// Key of piece code `code` on square `sq`.
pub open spec fn square_key(sq: int, code: int) -> u64 {
    xorshift_state((sq * 128 + code + 1) as nat)
}

/// Key of White to move.
pub open spec fn side_key() -> u64 {
    xorshift_state(10369)
}

/// The keys used for hashing.
pub struct ZobristKeys {
    piece_square: Vec<u64>,
    side_to_move: u64,
}

impl ZobristKeys {
    /// The keys are those of the fixed sequence.
    pub closed spec fn valid(&self) -> bool {
        &&& self.piece_square@.len() == NUM_SQUARE_KEYS
        &&& forall|j: int|
            0 <= j < NUM_SQUARE_KEYS ==> #[trigger] self.piece_square@[j] == xorshift_state(
                (j + 1) as nat,
            )
        &&& self.side_to_move == side_key()
    }
}

fn next_state(s: u64) -> (r: u64)
    ensures
        r == xorshift(s),
{
    let a = s ^ (s << 13);
    let b = a ^ (a >> 7);
    b ^ (b << 17)
}

/// Draw the keys: one per square and piece code, then the side key.
pub fn init_keys() -> (k: ZobristKeys)
    ensures
        k.valid(),
{
    let mut state: u64 = SEED;
    let mut piece_square: Vec<u64> = Vec::new();
    let mut j: usize = 0;
    while j < NUM_SQUARE_KEYS
        invariant
            j <= NUM_SQUARE_KEYS,
            state == xorshift_state(j as nat),
            piece_square@.len() == j,
            forall|i: int| 0 <= i < j ==> #[trigger] piece_square@[i] == xorshift_state((i + 1) as nat),
        decreases NUM_SQUARE_KEYS - j,
    {
        state = next_state(state);
        piece_square.push(state);
        j += 1;
    }
    state = next_state(state);
    ZobristKeys { piece_square, side_to_move: state }
}

/// XOR of the keys of the pieces on the first `n` squares.
pub open spec fn pieces_hash(cells: Seq<Option<Piece>>, n: int) -> u64
    decreases n,
{
    if n <= 0 {
        0
    } else {
        pieces_hash(cells, n - 1) ^ match cells[n - 1] {
            Some(p) => square_key(n - 1, p.code()),
            None => 0u64,
        }
    }
}

/// The Zobrist hash of a board.
pub open spec fn zobrist(m: BoardModel) -> u64 {
    pieces_hash(m.cells, 81) ^ if m.white_to_move { side_key() } else { 0u64 }
}

/// Hash `board` with the keys `keys`.
pub fn hash_board_with(keys: &ZobristKeys, board: &Board) -> (h: u64)
    requires
        keys.valid(),
        board@.encodable(),
    ensures
        h == zobrist(board@),
{
    let mut h: u64 = 0;
    let mut sq: usize = 0;
    while sq < 81
        invariant
            sq <= 81,
            keys.valid(),
            board@.encodable(),
            h == pieces_hash(board@.cells, sq as int),
        decreases 81 - sq,
    {
        let ghost before = h;
        if let Some(piece) = board.get_piece(&crate::board::Position::from_u8(sq as u8)) {
            let code = piece.to_u8() as usize;
            assert(board@.cells[sq as int] == Some(*piece));
            assert(keys.piece_square@[sq * 128 + code] == square_key(sq as int, piece.code()));
            h = h ^ keys.piece_square[sq * 128 + code];
        } else {
            assert(before ^ 0u64 == before) by (bit_vector);
        }
        sq += 1;
    }
    if board.is_white_to_move() {
        h = h ^ keys.side_to_move;
    } else {
        assert(h ^ 0u64 == h) by (bit_vector);
    }
    h
}

/// Compute the Zobrist hash of a board position.
pub fn hash_board(board: &Board) -> (h: u64)
    requires
        board@.encodable(),
    ensures
        h == zobrist(board@),
{
    let keys = init_keys();
    hash_board_with(&keys, board)
}

proof fn lemma_xorshift_nonzero(s: u64)
    requires
        s != 0,
    ensures
        xorshift(s) != 0,
{
    let a = s ^ (s << 13u64);
    assert(a != 0) by (bit_vector)
        requires
            s != 0,
            a == s ^ (s << 13u64),
    ;
    let b = a ^ (a >> 7u64);
    assert(b != 0) by (bit_vector)
        requires
            a != 0,
            b == a ^ (a >> 7u64),
    ;
    let c = b ^ (b << 17u64);
    assert(c != 0) by (bit_vector)
        requires
            b != 0,
            c == b ^ (b << 17u64),
    ;
}

proof fn lemma_xorshift_state_nonzero(n: nat)
    ensures
        xorshift_state(n) != 0,
    decreases n,
{
    if n > 0 {
        lemma_xorshift_state_nonzero((n - 1) as nat);
        lemma_xorshift_nonzero(xorshift_state((n - 1) as nat));
    }
}

/// Boards that differ only in the side to move have different hashes.
pub proof fn lemma_side_to_move_changes_hash(a: BoardModel, b: BoardModel)
    requires
        a.cells == b.cells,
        a.white_to_move != b.white_to_move,
    ensures
        zobrist(a) != zobrist(b),
{
    lemma_xorshift_state_nonzero(10369);
    let p = pieces_hash(a.cells, 81);
    let k = side_key();
    assert(p ^ k != p ^ 0u64) by (bit_vector)
        requires
            k != 0,
    ;
}

impl Game {
    /// The Zobrist hash of the game's board.
    pub fn board_hash(&self) -> (h: u64)
        requires
            self.board@.encodable(),
        ensures
            h == zobrist(self.board@),
    {
        hash_board(&self.board)
    }
}

} // verus!
