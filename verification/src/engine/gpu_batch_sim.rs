//! The data exchanged with a batch simulation device: boards widened to
//! 32-bit words, move applications, and their results.
use vstd::prelude::*;

verus! {

/// Largest batch processed at once.
pub const MAX_BATCH_SIZE: usize = 1024;

/// Largest number of moves a move generation pass reports.
pub const MAX_MOVES: usize = 2048;

/// Board state in device layout: one word per square and one for the side
/// to move.
#[derive(Copy, Clone, Debug)]
pub struct GpuBoardState {
    pub squares: [u32; 81],
    pub white_to_move: u32,
    pub _padding: [u32; 3],
}

/// One move to apply to one board, with room for its result.
#[derive(Copy, Clone, Debug)]
pub struct GpuMoveApplication {
    pub board: GpuBoardState,
    pub move_encoding: u32,
    pub result_score: i32,
    pub valid: u32,
    pub _padding: [u32; 3],
}

/// Result of a batch simulation.
#[derive(Clone, Copy, Debug)]
pub struct BatchSimulationResult {
    pub score: i32,
    pub valid: bool,
    pub board: [u8; 82],
}

/// Widen a board (81 squares and the side to move) to device layout.
pub fn board_to_gpu(board_binary: &[u8; 82]) -> (g: GpuBoardState)
    ensures
        g.white_to_move == board_binary@[81],
        forall|i: int| 0 <= i < 81 ==> #[trigger] g.squares@[i] == board_binary@[i],
{
    let mut squares: [u32; 81] = [0; 81];
    let mut i: usize = 0;
    while i < 81
        invariant
            i <= 81,
            forall|k: int| 0 <= k < i ==> #[trigger] squares@[k] == board_binary@[k],
        decreases 81 - i,
    {
        squares[i] = board_binary[i] as u32;
        i += 1;
    }
    GpuBoardState { squares, white_to_move: board_binary[81] as u32, _padding: [0; 3] }
}

/// Narrow a board in device layout back to bytes (each word truncated to
/// its low byte).
pub fn gpu_to_board(gpu_board: &GpuBoardState) -> (b: [u8; 82])
    ensures
        b@[81] == gpu_board.white_to_move as u8,
        forall|i: int| 0 <= i < 81 ==> #[trigger] b@[i] == gpu_board.squares@[i] as u8,
{
    let mut board: [u8; 82] = [0; 82];
    let mut i: usize = 0;
    while i < 81
        invariant
            i <= 81,
            forall|k: int| 0 <= k < i ==> #[trigger] board@[k] == gpu_board.squares@[k] as u8,
        decreases 81 - i,
    {
        board[i] = gpu_board.squares[i] as u8;
        i += 1;
    }
    board[81] = gpu_board.white_to_move as u8;
    board
}

/// The move applications of a batch: one per board and move, for at most
/// the first `MAX_BATCH_SIZE` of them.  Fails when the counts differ.
pub fn prepare_batch(boards: &[[u8; 82]], moves: &[u16]) -> (r: Result<Vec<GpuMoveApplication>, String>)
    ensures
        r is Err <==> boards@.len() != moves@.len(),
        r matches Err(e) ==> e@ == "boards and moves must have the same length"@,
        r matches Ok(apps) ==> {
            &&& apps@.len() == if boards@.len() < MAX_BATCH_SIZE {
                boards@.len() as int
            } else {
                MAX_BATCH_SIZE as int
            }
            &&& forall|i: int|
                0 <= i < apps@.len() ==> {
                    let a = #[trigger] apps@[i];
                    &&& a.move_encoding == moves@[i]
                    &&& a.result_score == 0
                    &&& a.valid == 0
                    &&& a.board.white_to_move == boards@[i]@[81]
                    &&& forall|k: int| 0 <= k < 81 ==> #[trigger] a.board.squares@[k] == boards@[i]@[k]
                }
        },
{
    if boards.len() != moves.len() {
        return Err("boards and moves must have the same length".to_owned());
    }
    let batch_size = if boards.len() < MAX_BATCH_SIZE {
        boards.len()
    } else {
        MAX_BATCH_SIZE
    };
    let mut applications: Vec<GpuMoveApplication> = Vec::new();
    let mut i: usize = 0;
    while i < batch_size
        invariant
            batch_size <= boards@.len(),
            boards@.len() == moves@.len(),
            i <= batch_size,
            applications@.len() == i,
            forall|j: int|
                0 <= j < i ==> {
                    let a = #[trigger] applications@[j];
                    &&& a.move_encoding == moves@[j]
                    &&& a.result_score == 0
                    &&& a.valid == 0
                    &&& a.board.white_to_move == boards@[j]@[81]
                    &&& forall|k: int| 0 <= k < 81 ==> #[trigger] a.board.squares@[k] == boards@[j]@[k]
                },
        decreases batch_size - i,
    {
        let gpu_board = board_to_gpu(&boards[i]);
        applications.push(
            GpuMoveApplication {
                board: gpu_board,
                move_encoding: moves[i] as u32,
                result_score: 0,
                valid: 0,
                _padding: [0; 3],
            },
        );
        i += 1;
    }
    Ok(applications)
}

/// The results of the first `batch_size` processed applications.
pub fn collect_results(applications: &[GpuMoveApplication], batch_size: usize) -> (r: Vec<
    BatchSimulationResult,
>)
    ensures
        r@.len() == if applications@.len() < batch_size {
            applications@.len() as int
        } else {
            batch_size as int
        },
        forall|i: int|
            0 <= i < r@.len() ==> {
                let res = #[trigger] r@[i];
                let a = applications@[i];
                &&& res.score == a.result_score
                &&& res.valid == (a.valid != 0)
                &&& res.board@[81] == a.board.white_to_move as u8
                &&& forall|k: int| 0 <= k < 81 ==> #[trigger] res.board@[k] == a.board.squares@[k] as u8
            },
{
    let n = if applications.len() < batch_size {
        applications.len()
    } else {
        batch_size
    };
    let mut results: Vec<BatchSimulationResult> = Vec::new();
    let mut i: usize = 0;
    while i < n
        invariant
            n <= applications@.len(),
            i <= n,
            results@.len() == i,
            forall|j: int|
                0 <= j < i ==> {
                    let res = #[trigger] results@[j];
                    let a = applications@[j];
                    &&& res.score == a.result_score
                    &&& res.valid == (a.valid != 0)
                    &&& res.board@[81] == a.board.white_to_move as u8
                    &&& forall|k: int| 0 <= k < 81 ==> #[trigger] res.board@[k] == a.board.squares@[k] as u8
                },
        decreases n - i,
    {
        let app = &applications[i];
        results.push(
            BatchSimulationResult {
                score: app.result_score,
                valid: app.valid != 0,
                board: gpu_to_board(&app.board),
            },
        );
        i += 1;
    }
    results
}

/// The moves reported by a move generation pass: the first `count` words
/// (at most `MAX_MOVES`), each cut to its 16-bit move encoding.
pub fn decode_move_buffer(moves: &[u32], count: u32) -> (r: Vec<u16>)
    ensures
        r@.len() == {
            let c = if count as int <= MAX_MOVES as int { count as int } else { MAX_MOVES as int };
            if moves@.len() < c { moves@.len() as int } else { c }
        },
        forall|i: int| 0 <= i < r@.len() ==> #[trigger] r@[i] == moves@[i] as u16,
{
    let limit: usize = if (count as usize) < MAX_MOVES {
        count as usize
    } else {
        MAX_MOVES
    };
    let n = if moves.len() < limit {
        moves.len()
    } else {
        limit
    };
    let mut out: Vec<u16> = Vec::new();
    let mut i: usize = 0;
    while i < n
        invariant
            n <= moves@.len(),
            i <= n,
            out@.len() == i,
            forall|j: int| 0 <= j < i ==> #[trigger] out@[j] == moves@[j] as u16,
        decreases n - i,
    {
        out.push(moves[i] as u16);
        i += 1;
    }
    out
}

} // verus!
