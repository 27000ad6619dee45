//! The request protocol of the game server: a board travels as its 83-byte
//! encoding, a move as its 16-bit code in little-endian byte order.
use vstd::prelude::*;
use crate::board::{
    codes_valid, decode_board, encode_byte, initial_model, lemma_board_len, lemma_decoded_board_wf,
    square_position, Board, BoardModel, PieceType,
};
use crate::engine::ab_engine::{is_engine_choice, search_depth, Engine};
use crate::engine::config::EngineConfig;
use crate::engine::zobrist::{hash_board_with, init_keys, zobrist};
use crate::game::{
    all_moves, apply_model, move_applicable, move_code, potential_move_code, promotes_loaded_king, Game,
    Move, PotentialMove,
};
use crate::legality::{lemma_all_moves_from_mover, lemma_legal_move_applies, legal_moves};

verus! {

broadcast use lemma_board_len;

/// Why a request is refused.
#[derive(Clone, Copy, Debug, PartialEq, Eq, Structural)]
pub enum RequestError {
    /// The request is malformed: wrong length, or a move naming a square
    /// off the board, or a move list that cannot be replayed.
    BadRequest,
    /// The bytes do not describe a board.
    InvalidBoard,
    /// The engine has no move to offer.
    NoMove,
}

/// A 16-bit value in little-endian byte order.
pub open spec fn le_pair(c: int) -> Seq<u8> {
    seq![(c % 256) as u8, (c / 256) as u8]
}

/// The codes of the first `n` potential moves, each in little-endian order.
pub open spec fn encoded_moves(pms: Seq<PotentialMove>, n: int) -> Seq<u8>
    decreases n,
{
    if n <= 0 {
        seq![]
    } else {
        encoded_moves(pms, n - 1) + le_pair(potential_move_code(pms[n - 1]))
    }
}

/// The 83-byte encoding of a board.
pub open spec fn board_bytes(m: BoardModel) -> Seq<u8> {
    Seq::new(83, |i: int| encode_byte(m, i))
}

/// The little-endian 16-bit value at byte `i`.
pub open spec fn code_at(bytes: Seq<u8>, i: int) -> int {
    bytes[i] + 256 * bytes[i + 1]
}

/// Both squares named by move code `c` exist.
pub open spec fn code_squares_valid(c: int) -> bool {
    (c / 128) % 128 < 81 && c % 128 < 81
}

/// The move with code `c`.
pub open spec fn decoded_move(c: int) -> Move {
    Move {
        from: square_position(c % 128),
        to: square_position((c / 128) % 128),
        unstack: (c / 16384) % 2 == 1,
    }
}

/// The move with code `c` played on `m`, when it can be played and is not
/// a King carrying a piece to be promoted onto the far rank.
pub open spec fn replay_step(m: BoardModel, c: int) -> Option<BoardModel> {
    let mv = decoded_move(c);
    if !promotes_loaded_king(m, mv) && move_applicable(m, mv) {
        Some(apply_model(m, mv))
    } else {
        None
    }
}

/// The game after the first `n` move codes of `bytes`, played from the
/// start; none if a code names a square off the board or a move cannot be
/// played.
pub open spec fn replayed(bytes: Seq<u8>, n: int) -> Option<BoardModel>
    decreases n,
{
    if n <= 0 {
        Some(initial_model())
    } else {
        match replayed(bytes, n - 1) {
            Some(m) => {
                let c = code_at(bytes, 2 * (n - 1));
                if code_squares_valid(c) {
                    replay_step(m, c)
                } else {
                    None
                }
            },
            None => None,
        }
    }
}

/// The game after the first `n` move codes of `bytes`, played from the
/// start and passing over moves that cannot be played; none if a code
/// names a square off the board.
pub open spec fn replayed_leniently(bytes: Seq<u8>, n: int) -> Option<BoardModel>
    decreases n,
{
    if n <= 0 {
        Some(initial_model())
    } else {
        match replayed_leniently(bytes, n - 1) {
            Some(m) => {
                let c = code_at(bytes, 2 * (n - 1));
                if code_squares_valid(c) {
                    match replay_step(m, c) {
                        Some(next) => Some(next),
                        None => Some(m),
                    }
                } else {
                    None
                }
            },
            None => None,
        }
    }
}

/// The hashes of the positions from which the first `n` move codes of
/// `bytes` were played, replaying leniently; a position that no byte can
/// hold is left out, as no search ever comes back to it.
pub open spec fn replay_history(bytes: Seq<u8>, n: int) -> Set<u64>
    decreases n,
{
    if n <= 0 {
        Set::empty()
    } else {
        let h = replay_history(bytes, n - 1);
        match replayed_leniently(bytes, n - 1) {
            Some(m) => if m.encodable() {
                h.insert(zobrist(m))
            } else {
                h
            },
            None => h,
        }
    }
}

/// The engine's answer on a position reached after the positions with
/// the hashes in `history`: no move on a finished game or where no move
/// is left, else the code of the move it plays, little-endian.
pub open spec fn engine_answer(
    m: BoardModel,
    history: Set<u64>,
    r: Result<Vec<u8>, RequestError>,
) -> bool {
    let d = search_depth(EngineConfig { stage1_depth: 4, threads: 1 });
    &&& (r == Err::<Vec<u8>, RequestError>(RequestError::NoMove)) <==> (m.is_over()
        || legal_moves(m).len() == 0)
    &&& r matches Ok(v) ==> (exists|k: int|
        is_engine_choice(m, d, history, k) && v@ == le_pair(move_code(legal_moves(m)[k])))
}

pub proof fn lemma_replay_stays_failed(bytes: Seq<u8>, k: int, n: int)
    requires
        0 <= k <= n,
        replayed(bytes, k) is None,
    ensures
        replayed(bytes, n) is None,
    decreases n - k,
{
    if k < n {
        lemma_replay_stays_failed(bytes, k, n - 1);
    }
}

proof fn lemma_lenient_replay_stays_failed(bytes: Seq<u8>, k: int, n: int)
    requires
        0 <= k <= n,
        replayed_leniently(bytes, k) is None,
    ensures
        replayed_leniently(bytes, n) is None,
    decreases n - k,
{
    if k < n {
        lemma_lenient_replay_stays_failed(bytes, k, n - 1);
    }
}

/// Append `c` in little-endian byte order.
fn push_le(out: &mut Vec<u8>, c: u16)
    ensures
        final(out)@ == old(out)@ + le_pair(c as int),
{
    out.push((c % 256) as u8);
    out.push((c / 256) as u8);
}

/// The little-endian 16-bit value at byte `i`.
fn read_code(payload: &[u8], i: usize) -> (c: u16)
    requires
        i + 1 < payload@.len(),
    ensures
        c == code_at(payload@, i as int),
{
    payload[i] as u16 + 256 * payload[i + 1] as u16
}

/// The board encoded in the first 83 bytes of `payload`.
pub fn read_board(payload: &[u8]) -> (r: Result<Board, RequestError>)
    requires
        payload@.len() >= 83,
    ensures
        r is Ok <==> codes_valid(payload@),
        r matches Ok(b) ==> (b@ == decode_board(payload@) && b@.wf() && b@.encodable()),
        r matches Err(e) ==> e == RequestError::InvalidBoard,
{
    let mut bytes: [u8; 83] = [0; 83];
    let mut i: usize = 0;
    while i < 83
        invariant
            i <= 83,
            payload@.len() >= 83,
            forall|j: int| 0 <= j < 81 && j < i ==> valid_code(#[trigger] payload@[j]),
            forall|j: int| 0 <= j < i ==> #[trigger] bytes@[j] == payload@[j],
        decreases 83 - i,
    {
        let v = payload[i];
        if i < 81 && !(v == 0 || v % 64 == 56 || v % 8 != 0) {
            return Err(RequestError::InvalidBoard);
        }
        bytes[i] = v;
        i += 1;
    }
    proof {
        assert(bytes@ =~= payload@.subrange(0, 83));
        assert(decode_board(bytes@).cells =~= decode_board(payload@).cells);
        lemma_decoded_board_wf(payload@);
    }
    match Board::from_binary(bytes) {
        Ok(b) => Ok(b),
        Err(_) => Err(RequestError::InvalidBoard),
    }
}

/// A byte is a valid square code.
pub open spec fn valid_code(v: u8) -> bool {
    crate::board::valid_piece_code(v)
}

/// The board of a new game.
pub fn new_game_response() -> (r: [u8; 83])
    ensures
        r@ == board_bytes(initial_model()),
{
    let game = Game::new();
    proof {
        assert(initial_model().encodable());
    }
    game.to_binary()
}

/// The codes of every potential move on the board in `payload`.
pub fn moves_response(payload: &[u8]) -> (r: Result<Vec<u8>, RequestError>)
    ensures
        payload@.len() != 83 ==> r == Err::<Vec<u8>, RequestError>(RequestError::BadRequest),
        payload@.len() == 83 && !codes_valid(payload@) ==> r == Err::<Vec<u8>, RequestError>(
            RequestError::InvalidBoard,
        ),
        payload@.len() == 83 && codes_valid(payload@) ==> {
            let pms = all_moves(decode_board(payload@));
            r matches Ok(v) && v@ == encoded_moves(pms, pms.len() as int)
        },
{
    if payload.len() != 83 {
        return Err(RequestError::BadRequest);
    }
    let board = read_board(payload)?;
    let game = Game::from_board(board);
    let ghost m = game.board@;
    let moves = game.get_all_moves();
    let mut response: Vec<u8> = Vec::new();
    let mut i: usize = 0;
    while i < moves.len()
        invariant
            m == game.board@,
            m.wf(),
            moves@ == all_moves(m),
            i <= moves.len(),
            response@ == encoded_moves(moves@, i as int),
        decreases moves.len() - i,
    {
        proof {
            lemma_all_moves_from_mover(m, i as int);
        }
        let code = moves[i].to_u16();
        push_le(&mut response, code);
        i += 1;
    }
    Ok(response)
}

/// The board in `payload` after the move in its next two bytes, when that
/// move can be played.
pub fn play_response(payload: &[u8]) -> (r: Result<Vec<u8>, RequestError>)
    ensures
        payload@.len() < 85 ==> r == Err::<Vec<u8>, RequestError>(RequestError::BadRequest),
        payload@.len() >= 85 && !codes_valid(payload@) ==> r == Err::<Vec<u8>, RequestError>(
            RequestError::InvalidBoard,
        ),
        payload@.len() >= 85 && codes_valid(payload@) && !code_squares_valid(code_at(payload@, 83))
            ==> r == Err::<Vec<u8>, RequestError>(RequestError::BadRequest),
        payload@.len() >= 85 && codes_valid(payload@) && code_squares_valid(code_at(payload@, 83))
            ==> {
            let m = decode_board(payload@);
            let mv = decoded_move(code_at(payload@, 83));
            let after = if move_applicable(m, mv) {
                apply_model(m, mv)
            } else {
                m
            };
            &&& after.encodable() ==> (r matches Ok(v) && v@ == board_bytes(after))
            &&& !after.encodable() ==> r == Err::<Vec<u8>, RequestError>(
                RequestError::InvalidBoard,
            )
        },
{
    if payload.len() < 85 {
        return Err(RequestError::BadRequest);
    }
    let board = read_board(payload)?;
    let mut game = Game::from_board(board);
    let code = read_code(payload, 83);
    if !((code / 128) % 128 < 81 && code % 128 < 81) {
        return Err(RequestError::BadRequest);
    }
    let mv = Move::from_u16(code);
    proof {
        let p = game.board@.cells[mv.from.index()];
        if p is Some {
            assert(p.unwrap().wf());
        }
    }
    let _played = game.apply_move(mv);
    if !game.board.is_encodable() {
        return Err(RequestError::InvalidBoard);
    }
    let bytes = game.to_binary();
    Ok(bytes_to_vec(&bytes))
}

fn bytes_to_vec(bytes: &[u8; 83]) -> (v: Vec<u8>)
    ensures
        v@ == bytes@,
{
    let mut v: Vec<u8> = Vec::new();
    let mut i: usize = 0;
    while i < 83
        invariant
            i <= 83,
            v@ == bytes@.subrange(0, i as int),
        decreases 83 - i,
    {
        v.push(bytes[i]);
        i += 1;
        proof {
            assert(v@ =~= bytes@.subrange(0, i as int));
        }
    }
    proof {
        assert(bytes@.subrange(0, 83) =~= bytes@);
    }
    v
}

/// The board after replaying the moves in `payload` from the start.
pub fn replay_response(payload: &[u8]) -> (r: Result<Vec<u8>, RequestError>)
    ensures
        payload@.len() % 2 != 0 ==> r == Err::<Vec<u8>, RequestError>(RequestError::BadRequest),
        payload@.len() % 2 == 0 ==> match replayed(payload@, payload@.len() as int / 2) {
            None => r == Err::<Vec<u8>, RequestError>(RequestError::BadRequest),
            Some(m) => if m.encodable() {
                r matches Ok(v) && v@ == board_bytes(m)
            } else {
                r == Err::<Vec<u8>, RequestError>(RequestError::InvalidBoard)
            },
        },
{
    if payload.len() % 2 != 0 {
        return Err(RequestError::BadRequest);
    }
    let total: usize = payload.len();
    let n = total / 2;
    let mut game = Game::new();
    let mut i: usize = 0;
    while i < n
        invariant
            n == payload@.len() / 2,
            payload@.len() % 2 == 0,
            2 * n == payload@.len(),
            total == payload@.len(),
            i <= n,
            replayed(payload@, i as int) == Some(game.board@),
        decreases n - i,
    {
        let code = read_code(payload, 2 * i);
        if !((code / 128) % 128 < 81 && code % 128 < 81) {
            proof {
                lemma_replay_stays_failed(payload@, i + 1, n as int);
            }
            return Err(RequestError::BadRequest);
        }
        let mv = Move::from_u16(code);
        if game.promotes_loaded_king(&mv) {
            proof {
                lemma_replay_stays_failed(payload@, i + 1, n as int);
            }
            return Err(RequestError::BadRequest);
        }
        match game.apply_move(mv) {
            Ok(()) => {},
            Err(_) => {
                proof {
                    lemma_replay_stays_failed(payload@, i + 1, n as int);
                }
                return Err(RequestError::BadRequest);
            },
        }
        i += 1;
    }
    if !game.board.is_encodable() {
        return Err(RequestError::InvalidBoard);
    }
    let bytes = game.to_binary();
    Ok(bytes_to_vec(&bytes))
}

/// The engine's move on a well-formed position reached after the
/// positions with the hashes in `history`, as a little-endian code.
fn engine_move_on(board: &Board, history: &Vec<u64>) -> (r: Result<Vec<u8>, RequestError>)
    requires
        board@.wf(),
    ensures
        engine_answer(board@, history@.to_set(), r),
{
    let engine = Engine::new(EngineConfig::default());
    match engine.find_move_after(board, history) {
        Ok((mv, _stats)) => {
            let ghost m = board@;
            let ghost d = search_depth(EngineConfig { stage1_depth: 4, threads: 1 });
            proof {
                let k = choose|k: int|
                    is_engine_choice(m, d, history@.to_set(), k) && legal_moves(m)[k] == mv;
                lemma_legal_move_applies(m, k);
            }
            let mut out: Vec<u8> = Vec::new();
            push_le(&mut out, mv.to_u16());
            Ok(out)
        },
        Err(_) => Err(RequestError::NoMove),
    }
}

/// The engine's move on the board in `payload`.
pub fn engine_move_board_response(payload: &[u8]) -> (r: Result<Vec<u8>, RequestError>)
    ensures
        payload@.len() != 83 ==> r == Err::<Vec<u8>, RequestError>(RequestError::BadRequest),
        payload@.len() == 83 && !codes_valid(payload@) ==> r == Err::<Vec<u8>, RequestError>(
            RequestError::InvalidBoard,
        ),
        payload@.len() == 83 && codes_valid(payload@) ==> engine_answer(
            decode_board(payload@),
            Set::empty(),
            r,
        ),
{
    if payload.len() != 83 {
        return Err(RequestError::BadRequest);
    }
    let board = read_board(payload)?;
    let history: Vec<u64> = Vec::new();
    proof {
        assert(history@.to_set() =~= Set::<u64>::empty());
    }
    engine_move_on(&board, &history)
}

/// The engine's move after the game whose moves are in `payload`; moves
/// that cannot be played are passed over, and a line coming back to a
/// position of the game scores as a draw.
pub fn engine_move_game_response(payload: &[u8]) -> (r: Result<Vec<u8>, RequestError>)
    ensures
        payload@.len() % 2 != 0 ==> r == Err::<Vec<u8>, RequestError>(RequestError::BadRequest),
        payload@.len() % 2 == 0 ==> match replayed_leniently(payload@, payload@.len() as int / 2) {
            None => r == Err::<Vec<u8>, RequestError>(RequestError::BadRequest),
            Some(m) => if m.wf() {
                engine_answer(m, replay_history(payload@, payload@.len() as int / 2), r)
            } else {
                r == Err::<Vec<u8>, RequestError>(RequestError::InvalidBoard)
            },
        },
{
    if payload.len() % 2 != 0 {
        return Err(RequestError::BadRequest);
    }
    let total: usize = payload.len();
    let n = total / 2;
    let keys = init_keys();
    let mut game = Game::new();
    let mut history: Vec<u64> = Vec::new();
    let mut i: usize = 0;
    proof {
        assert(history@.to_set() =~= Set::<u64>::empty());
    }
    while i < n
        invariant
            n == payload@.len() / 2,
            payload@.len() % 2 == 0,
            2 * n == payload@.len(),
            total == payload@.len(),
            i <= n,
            keys.valid(),
            replayed_leniently(payload@, i as int) == Some(game.board@),
            history@.to_set() == replay_history(payload@, i as int),
        decreases n - i,
    {
        let code = read_code(payload, 2 * i);
        if !((code / 128) % 128 < 81 && code % 128 < 81) {
            proof {
                lemma_lenient_replay_stays_failed(payload@, i + 1, n as int);
            }
            return Err(RequestError::BadRequest);
        }
        if game.board.is_encodable() {
            let h = hash_board_with(&keys, &game.board);
            proof {
                history@.lemma_push_to_set_commute(h);
            }
            history.push(h);
        }
        let mv = Move::from_u16(code);
        if !game.promotes_loaded_king(&mv) {
            let _played = game.apply_move(mv);
        }
        i += 1;
    }
    if !game.board.is_well_formed() {
        return Err(RequestError::InvalidBoard);
    }
    engine_move_on(&game.board, &history)
}

} // verus!
