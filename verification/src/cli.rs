//! What the command line reads and prints: squares named like `B4`, and
//! boards exchanged as base64 text so that a game can be resumed later.
use vstd::prelude::*;
use vstd::string::StringSliceAdditionalSpecFns;
use base64::Engine as _;
use crate::board::{lemma_board_len, codes_valid, decode_board, encode_byte, initial_model, BoardModel, Position};
use crate::game::{concat_strings, move_error, move_text, promotes_loaded_king, Game, Move};
use crate::protocol::{code_at, code_squares_valid, decoded_move, lemma_replay_stays_failed, replay_step, replayed};

verus! {

broadcast use lemma_board_len;

/// What standard base64 (with padding) makes of `text`: the bytes it
/// decodes to, or, when `text` is not valid base64, the message of the
/// decoding error.
pub uninterp spec fn base64_decoding(text: Seq<char>) -> Result<Seq<u8>, Seq<char>>;

/// The standard base64 text (with padding) of `bytes`.
pub uninterp spec fn base64_encoding(bytes: Seq<u8>) -> Seq<char>;

/// `text` is valid base64 of `bytes`.
pub open spec fn decodes_to(text: Seq<char>, bytes: Seq<u8>) -> bool {
    base64_decoding(text) == Ok::<Seq<u8>, Seq<char>>(bytes)
}

/// Decodes standard base64.
/// Trusted: `base64::engine::general_purpose::STANDARD.decode` returns the
/// decoded bytes, or an error exactly when the text is not valid base64;
/// the error is passed on as its `Display` text.  Both depend on the text
/// alone; which bytes and which message is left to the name.
#[verifier::external_body]
fn decode_base64(text: &str) -> (r: Result<Vec<u8>, String>)
    ensures
        match base64_decoding(text@) {
            Ok(bytes) => r matches Ok(v) && v@ == bytes,
            Err(msg) => r matches Err(e) && e@ == msg,
        },
{
    base64::engine::general_purpose::STANDARD.decode(text).map_err(|e| format!("{}", e))
}

/// Encodes standard base64.
/// Trusted: `base64::engine::general_purpose::STANDARD.encode` returns the
/// base64 text of the bytes, and decoding that text with the same engine
/// gives the bytes back (the crate's round-trip tests and fuzz targets
/// check exactly this).
#[verifier::external_body]
fn encode_base64(bytes: &[u8]) -> (s: String)
    ensures
        s@ == base64_encoding(bytes@),
        decodes_to(s@, bytes@),
{
    base64::engine::general_purpose::STANDARD.encode(bytes)
}

/// The decimal digits of `n`.
pub open spec fn decimal(n: nat) -> Seq<char>
    decreases n,
{
    if n < 10 {
        seq![(48 + n) as char]
    } else {
        decimal(n / 10).push((48 + n % 10) as char)
    }
}

/// The decimal text of `n`.
/// Trusted: `ToString::to_string` on a `usize` goes through its `Display`
/// impl, which writes the number in decimal digits, without sign or
/// leading zeros.
#[verifier::external_body]
fn decimal_string(n: usize) -> (s: String)
    ensures
        s@ == decimal(n as nat),
{
    n.to_string()
}

/// The message for board data of the wrong length.
fn length_message(expected: usize, got: usize) -> (s: String)
    ensures
        s@ == "Invalid data length: expected "@ + decimal(expected as nat) + " bytes, got "@
            + decimal(got as nat),
{
    let e = decimal_string(expected);
    let g = decimal_string(got);
    let a = concat_strings("Invalid data length: expected ", e.as_str());
    let b = concat_strings(a.as_str(), " bytes, got ");
    concat_strings(b.as_str(), g.as_str())
}

/// Board data exchanged as text: the 81 squares and the side to move.
pub const BOARD_DATA_LEN: usize = 82;

/// The board a resumed game starts from: the squares and side to move
/// that were saved, with no result recorded.
pub open spec fn resumed_board(bytes: Seq<u8>) -> BoardModel {
    decode_board(bytes.push(0u8))
}

/// The game in board data: 81 square codes and the side to move.
pub fn game_from_board_data(bytes: &Vec<u8>) -> (r: Result<Game, String>)
    requires
        bytes@.len() == 82 ==> codes_valid(bytes@),
    ensures
        bytes@.len() != 82 ==> (r matches Err(e) && e@ == "Invalid data length: expected "@
            + decimal(82) + " bytes, got "@ + decimal(bytes@.len())),
        bytes@.len() == 82 ==> (r matches Ok(g) && g.board@ == resumed_board(bytes@)),
{
    if bytes.len() != BOARD_DATA_LEN {
        return Err(length_message(BOARD_DATA_LEN, bytes.len()));
    }
    let mut board_data: [u8; 83] = [0; 83];
    let mut i: usize = 0;
    while i < 82
        invariant
            i <= 82,
            bytes@.len() == 82,
            forall|j: int| 0 <= j < i ==> #[trigger] board_data@[j] == bytes@[j],
            board_data@[82] == 0,
        decreases 82 - i,
    {
        board_data[i] = bytes[i];
        i += 1;
    }
    proof {
        assert(board_data@ =~= bytes@.push(0u8));
    }
    Game::from_binary(board_data)
}

/// The game to play: a new one without board data, else the one whose
/// base64 board data is given.  Fails on text that is not base64, on data
/// of the wrong length, and on a square code that names no piece.
pub fn create_game(board_str: Option<&str>) -> (r: Result<Game, String>)
    ensures
        match board_str {
            None => r matches Ok(g) && g.board@ == initial_model(),
            Some(s) => if s@.len() == 0 {
                r matches Ok(g) && g.board@ == initial_model()
            } else {
                match base64_decoding(s@) {
                    Err(msg) => r matches Err(e) && e@ == "Failed to decode base64 string: "@ + msg,
                    Ok(bytes) => if bytes.len() != 82 {
                        r matches Err(e) && e@ == "Invalid data length: expected "@ + decimal(82)
                            + " bytes, got "@ + decimal(bytes.len())
                    } else if !codes_valid(bytes) {
                        r matches Err(e) && e@ == "Invalid piece code in board data"@
                    } else {
                        r matches Ok(g) && g.board@ == resumed_board(bytes)
                    },
                }
            },
        },
{
    match board_str {
        None => Ok(Game::new()),
        Some(s) => {
            if s.is_empty() {
                return Ok(Game::new());
            }
            match decode_base64(s) {
                Ok(bytes) => {
                    if bytes.len() == BOARD_DATA_LEN {
                        let mut i: usize = 0;
                        while i < 81
                            invariant
                                i <= 81,
                                bytes@.len() == 82,
                                board_str == Some(s),
                                s@.len() != 0,
                                decodes_to(s@, bytes@),
                                forall|j: int|
                                    0 <= j < i ==> crate::board::valid_piece_code(
                                        #[trigger] bytes@[j],
                                    ),
                            decreases 81 - i,
                        {
                            let v = bytes[i];
                            if !(v == 0 || v % 64 == 56 || v % 8 != 0) {
                                proof {
                                    assert(!crate::board::valid_piece_code(bytes@[i as int]));
                                }
                                return Err("Invalid piece code in board data".to_owned());
                            }
                            i += 1;
                        }
                    }
                    game_from_board_data(&bytes)
                },
                Err(e) => Err(concat_strings("Failed to decode base64 string: ", e.as_str())),
            }
        },
    }
}

/// Why replaying the move with code `c` on `m` fails: a square off the
/// board, the King carrying a piece to be promoted, or the first rule the
/// move breaks.
#[verifier::opaque]
pub open spec fn step_failure(m: BoardModel, c: int) -> Seq<char> {
    let mv = decoded_move(c);
    if !code_squares_valid(c) {
        "Failed to apply move: square off the board"@
    } else if promotes_loaded_king(m, mv) {
        "Invalid piece configuration: King cannot have a piece on top of it."@
    } else {
        "Failed to apply move "@ + move_text(mv) + ": "@ + move_error(m, mv)
    }
}

/// Why replaying the first `n` move codes of `bytes` fails: the failure
/// of the first move that cannot be replayed.
#[verifier::opaque]
pub open spec fn replay_failure(bytes: Seq<u8>, n: int) -> Seq<char>
    decreases n,
{
    if n <= 0 {
        seq![]
    } else {
        match replayed(bytes, n - 1) {
            None => replay_failure(bytes, n - 1),
            Some(m) => step_failure(m, code_at(bytes, 2 * (n - 1))),
        }
    }
}

proof fn lemma_replay_failure_stays(bytes: Seq<u8>, k: int, n: int)
    requires
        0 <= k <= n,
        replayed(bytes, k) is None,
    ensures
        replay_failure(bytes, n) == replay_failure(bytes, k),
    decreases n - k,
{
    reveal(replay_failure);
    if k < n {
        lemma_replay_stays_failed(bytes, k, n - 1);
        lemma_replay_failure_stays(bytes, k, n - 1);
    }
}

/// Why the move with code `code` cannot be replayed on `game`.
fn replay_failure_text(game: &Game, code: u16) -> (s: String)
    requires
        !(code_squares_valid(code as int) && replay_step(game.board@, code as int) is Some),
    ensures
        s@ == step_failure(game.board@, code as int),
{
    reveal(step_failure);
    if !((code / 128) % 128 < 81 && code % 128 < 81) {
        return "Failed to apply move: square off the board".to_owned();
    }
    let mv = Move::from_u16(code);
    assert(mv == decoded_move(code as int));
    if game.promotes_loaded_king(&mv) {
        return "Invalid piece configuration: King cannot have a piece on top of it.".to_owned();
    }
    match game.apply_move_copy(mv) {
        Ok(_) => {
            proof {
                assert(false);
            }
            String::new()
        },
        Err(e) => {
            let a = concat_strings("Failed to apply move ", mv.to_string().as_str());
            let b = concat_strings(a.as_str(), ": ");
            concat_strings(b.as_str(), e.as_str())
        },
    }
}

/// The game after the moves whose 16-bit codes, little-endian, make up
/// the base64 `text`.  Fails on text that is not base64, on an odd number
/// of bytes, and at the first move that cannot be replayed.
pub fn game_from_move_text(text: &str) -> (r: Result<Game, String>)
    ensures
        match base64_decoding(text@) {
            Err(msg) => r matches Err(e) && e@ == "Failed to decode base64 moves: "@ + msg,
            Ok(bytes) => if bytes.len() % 2 != 0 {
                r matches Err(e) && e@ == "Move data must be an even number of bytes"@
            } else {
                match replayed(bytes, bytes.len() as int / 2) {
                    Some(m) => r matches Ok(g) && g.board@ == m,
                    None => r matches Err(e) && e@ == replay_failure(
                        bytes,
                        bytes.len() as int / 2,
                    ),
                }
            },
        },
{
    let bytes = match decode_base64(text) {
        Ok(b) => b,
        Err(e) => {
            return Err(concat_strings("Failed to decode base64 moves: ", e.as_str()));
        },
    };
    if bytes.len() % 2 != 0 {
        return Err("Move data must be an even number of bytes".to_owned());
    }
    replay_codes(bytes.as_slice())
}

/// The code of the `i`-th move in `bytes`, little-endian.
fn code_of(bytes: &[u8], i: usize) -> (c: u16)
    requires
        2 * i + 1 < bytes@.len(),
    ensures
        c == code_at(bytes@, 2 * i as int),
{
    let len = bytes.len();
    assert(2 * i + 1 < len);
    let lo: u16 = bytes[2 * i] as u16;
    let hi: u16 = bytes[2 * i + 1] as u16;
    assert(lo < 256 && hi < 256);
    lo + 256 * hi
}

proof fn lemma_replay_next(bytes: Seq<u8>, i: int, m: BoardModel, c: int)
    requires
        0 <= i,
        replayed(bytes, i) == Some(m),
        c == code_at(bytes, 2 * i),
    ensures
        replayed(bytes, i + 1) == (if code_squares_valid(c) {
            replay_step(m, c)
        } else {
            None
        }),
        replayed(bytes, i + 1) is None ==> replay_failure(bytes, i + 1) == step_failure(m, c),
{
    reveal(replay_failure);
}

/// The game after the moves whose codes, little-endian, make up `bytes`,
/// an even number of them; fails at the first move that cannot be
/// replayed.
fn replay_codes(bytes: &[u8]) -> (r: Result<Game, String>)
    requires
        bytes@.len() % 2 == 0,
    ensures
        match replayed(bytes@, bytes@.len() as int / 2) {
            Some(m) => r matches Ok(g) && g.board@ == m,
            None => r matches Err(e) && e@ == replay_failure(bytes@, bytes@.len() as int / 2),
        },
{
    let n = bytes.len() / 2;
    let mut game = Game::new();
    let mut i: usize = 0;
    while i < n
        invariant
            2 * n == bytes@.len(),
            bytes@.len() as int / 2 == n as int,
            i <= n,
            replayed(bytes@, i as int) == Some(game.board@),
        decreases n - i,
    {
        let code = code_of(bytes, i);
        let ghost m = game.board@;
        proof {
            lemma_replay_next(bytes@, i as int, m, code as int);
        }
        if !((code / 128) % 128 < 81 && code % 128 < 81) {
            proof {
                lemma_replay_failure_stays(bytes@, i + 1, n as int);
                lemma_replay_stays_failed(bytes@, i + 1, n as int);
            }
            return Err(replay_failure_text(&game, code));
        }
        let mv = Move::from_u16(code);
        if game.promotes_loaded_king(&mv) {
            proof {
                lemma_replay_failure_stays(bytes@, i + 1, n as int);
                lemma_replay_stays_failed(bytes@, i + 1, n as int);
            }
            return Err(replay_failure_text(&game, code));
        }
        match game.apply_move(mv) {
            Ok(()) => {},
            Err(_) => {
                proof {
                    lemma_replay_failure_stays(bytes@, i + 1, n as int);
                lemma_replay_stays_failed(bytes@, i + 1, n as int);
                }
                return Err(replay_failure_text(&game, code));
            },
        }
        i += 1;
    }
    Ok(game)
}

/// The text to resume a game from: the base64 of the board's squares and
/// side to move.
pub fn get_board_hash(game: &Game) -> (s: String)
    requires
        game.board@.encodable(),
    ensures
        s@ == base64_encoding(Seq::new(82, |i: int| encode_byte(game.board@, i))),
        decodes_to(s@, Seq::new(82, |i: int| encode_byte(game.board@, i))),
{
    let binary = game.to_binary();
    let mut data: Vec<u8> = Vec::new();
    let mut i: usize = 0;
    while i < 82
        invariant
            i <= 82,
            binary@ == Seq::new(83, |k: int| encode_byte(game.board@, k)),
            data@ == Seq::new(i as nat, |k: int| encode_byte(game.board@, k)),
        decreases 82 - i,
    {
        data.push(binary[i]);
        i += 1;
        proof {
            assert(data@ =~= Seq::new(i as nat, |k: int| encode_byte(game.board@, k)));
        }
    }
    encode_base64(data.as_slice())
}

/// Resuming from the saved text gives back the squares and the side to
/// move of the saved game (its result, if any, is not saved).
pub proof fn lemma_resume_restores_board(m: BoardModel)
    requires
        m.wf(),
        m.encodable(),
    ensures
        ({
            let data = Seq::new(82, |i: int| encode_byte(m, i));
            &&& codes_valid(data)
            &&& resumed_board(data).cells == m.cells
            &&& resumed_board(data).white_to_move == m.white_to_move
        }),
{
    let data = Seq::new(82, |i: int| encode_byte(m, i));
    let full = data.push(0u8);
    assert forall|i: int| 0 <= i < 81 implies crate::board::valid_piece_code(#[trigger] data[i])
        && crate::board::decode_piece(full[i]) == m.cells[i] by {
        match m.cells[i] {
            Some(p) => {
                crate::board::lemma_piece_code_roundtrip(p);
            },
            None => {},
        }
    }
    assert(resumed_board(data).cells =~= m.cells);
}

/// The text `position`, two characters such as `B4`: a column letter (A to
/// I, either case) and a rank digit (1 to 9).
pub open spec fn column_ok(b: u8) -> bool {
    (65 <= b <= 73) || (97 <= b <= 105)
}

pub open spec fn rank_ok(b: u8) -> bool {
    49 <= b <= 57
}

/// Parse a square written as a column letter and a rank digit, `A1` being
/// the bottom-left square.  The column is counted from the letter as
/// written, so a lower-case letter names a column off the board.
pub fn parse_position(position: &str) -> (r: Result<Position, String>)
    ensures
        ({
            let b = position.spec_bytes();
            if b.len() != 2 {
                r matches Err(e) && e@ == "Invalid position format. Use e.g. 'B4'."@
            } else if !column_ok(b[0]) {
                r matches Err(e) && e@ == "Invalid column. Use letters A-I."@
            } else if !rank_ok(b[1]) {
                r matches Err(e) && e@ == "Invalid row. Use numbers 1-9."@
            } else {
                r == Ok::<Position, String>(
                    Position { x: (b[0] - 65) as usize, y: (8 - (b[1] - 49)) as usize },
                )
            }
        }),
{
    let bytes = position.as_bytes();
    if position.len() != 2 {
        return Err("Invalid position format. Use e.g. 'B4'.".to_owned());
    }
    let c0 = bytes[0];
    let c1 = bytes[1];
    if !((c0 >= 65 && c0 <= 73) || (c0 >= 97 && c0 <= 105)) {
        return Err("Invalid column. Use letters A-I.".to_owned());
    }
    if !(c1 >= 49 && c1 <= 57) {
        return Err("Invalid row. Use numbers 1-9.".to_owned());
    }
    let x = (c0 - 65) as usize;
    let y = 8 - (c1 - 49) as usize;
    Ok(Position { x, y })
}

} // verus!
