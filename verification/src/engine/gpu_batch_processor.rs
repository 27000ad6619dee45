//! Board evaluation for the playout engine, and packing boards for batch
//! processing.
use vstd::prelude::*;
use crate::board::{encode_byte, lemma_board_len, square_position, Board, BoardModel, Color, Piece, PieceType, Position};
use crate::engine::config::ScoringWeights;

verus! {

broadcast use lemma_board_len;

/// Bytes per board in a packed batch: the 83-byte encoding and one byte of
/// padding.
pub const BOARD_STRIDE: usize = 84;

/// The packed form of a sequence of boards.
pub open spec fn packed_byte(boards: Seq<Board>, k: int) -> u8 {
    let i = k / 84;
    let j = k % 84;
    if j < 83 {
        encode_byte(boards[i]@, j)
    } else {
        0
    }
}

/// Pack boards into a contiguous byte array: each board takes 84 bytes,
/// its 83-byte encoding followed by a zero byte.
pub fn serialize_boards(boards: &[Board]) -> (blob: Vec<u8>)
    requires
        boards@.len() * 84 <= usize::MAX,
        forall|i: int| 0 <= i < boards@.len() ==> (#[trigger] boards@[i])@.encodable(),
    ensures
        blob@.len() == boards@.len() * 84,
        forall|k: int| 0 <= k < blob@.len() ==> #[trigger] blob@[k] == packed_byte(boards@, k),
{
    let stride: usize = BOARD_STRIDE;
    let mut blob: Vec<u8> = Vec::new();
    let mut bi: usize = 0;
    while bi < boards.len()
        invariant
            bi <= boards@.len(),
            boards@.len() * 84 <= usize::MAX,
            stride == 84,
            forall|i: int| 0 <= i < boards@.len() ==> (#[trigger] boards@[i])@.encodable(),
            blob@.len() == bi * 84,
            forall|k: int| 0 <= k < blob@.len() ==> #[trigger] blob@[k] == packed_byte(boards@, k),
        decreases boards@.len() - bi,
    {
        let bin = boards[bi].to_binary();
        let mut j: usize = 0;
        while j < stride
            invariant
                bi < boards@.len(),
                stride == 84,
                j <= 84,
                bin@ == Seq::new(83, |t: int| encode_byte(boards@[bi as int]@, t)),
                blob@.len() == bi * 84 + j,
                forall|k: int| 0 <= k < blob@.len() ==> #[trigger] blob@[k] == packed_byte(boards@, k),
            decreases 84 - j,
        {
            let byte = if j < 83 {
                bin[j]
            } else {
                0
            };
            proof {
                let k = bi * 84 + j;
                assert(k / 84 == bi && k % 84 == j) by (nonlinear_arith)
                    requires
                        k == bi * 84 + j,
                        j < 84,
                ;
            }
            blob.push(byte);
            j += 1;
        }
        bi += 1;
    }
    blob
}

/// The heuristic evaluator of the playout engine.
pub struct CpuEvaluator {
    pub weights: ScoringWeights,
}

/// The discriminant of a piece type in the evaluator's tables.
pub open spec fn disc(t: PieceType) -> u32 {
    match t {
        PieceType::Soldier => 1,
        PieceType::Jester => 2,
        PieceType::Commander => 3,
        PieceType::Paladin => 4,
        PieceType::Guard => 5,
        PieceType::Dragon => 6,
        PieceType::Ballista => 7,
        PieceType::King => 8,
    }
}

/// Ranks a piece of `color` on row `y` has advanced, as the evaluator
/// counts them.
pub open spec fn advance_rank(color: Color, y: int) -> int {
    match color {
        Color::White => if y > 0 {
            8 - y
        } else {
            8
        },
        Color::Black => y,
    }
}

/// The evaluator's value of a piece on `pos`: material of both pieces,
/// centrality, and the advance of a Soldier or Ballista on top.
pub open spec fn heuristic_value(w: ScoringWeights, p: Piece, pos: Position) -> int {
    let material = w.material_of(disc(p.bottom)) + match p.top {
        Some(t) => w.material_of(disc(t)),
        None => 0,
    };
    let dx = if pos.x > 4 { pos.x - 4 } else { 4 - pos.x };
    let dy = if pos.y > 4 { pos.y - 4 } else { 4 - pos.y };
    let centrality = (8 - (dx + dy)) * w.centrality_wt;
    let leading = match p.top {
        Some(t) => t,
        None => p.bottom,
    };
    let advance = if leading == PieceType::Soldier || leading == PieceType::Ballista {
        advance_rank(p.color, pos.y as int) * w.advance_wt
    } else {
        0
    };
    material + centrality + advance
}

/// Sum of the heuristic values of the pieces of `color` on the first `n`
/// squares.
pub open spec fn heuristic_side(w: ScoringWeights, m: BoardModel, n: int, color: Color) -> int
    decreases n,
{
    if n <= 0 {
        0
    } else {
        heuristic_side(w, m, n - 1, color) + match m.cells[n - 1] {
            Some(p) => if p.color == color {
                heuristic_value(w, p, square_position(n - 1))
            } else {
                0
            },
            None => 0,
        }
    }
}

impl CpuEvaluator {
    fn piece_disc(pt: &PieceType) -> (d: u32)
        ensures
            d == disc(*pt),
    {
        match pt {
            PieceType::Soldier => 1,
            PieceType::Jester => 2,
            PieceType::Commander => 3,
            PieceType::Paladin => 4,
            PieceType::Guard => 5,
            PieceType::Dragon => 6,
            PieceType::Ballista => 7,
            PieceType::King => 8,
        }
    }

    fn piece_score(&self, piece: &Piece, pos: Position) -> (v: i64)
        requires
            pos.is_valid(),
        ensures
            v == heuristic_value(self.weights, *piece, pos),
            -100_000_000_000 <= v <= 100_000_000_000,
    {
        let bottom_val = self.weights.material_value(Self::piece_disc(&piece.bottom)) as i64;
        let top_val = match piece.top {
            Some(t) => self.weights.material_value(Self::piece_disc(&t)) as i64,
            None => 0i64,
        };
        let dx = if pos.x > 4 {
            pos.x - 4
        } else {
            4 - pos.x
        };
        let dy = if pos.y > 4 {
            pos.y - 4
        } else {
            4 - pos.y
        };
        let manhattan = (dx + dy) as i64;
        let cw = self.weights.centrality_wt as i64;
        assert(-8 * 2147483648 <= (8 - manhattan) * cw <= 8 * 2147483648) by (nonlinear_arith)
            requires
                0 <= manhattan <= 8,
                -2147483648 <= cw <= 2147483647,
        ;
        let centrality = (8 - manhattan) * cw;
        let leading = match piece.top {
            Some(t) => t,
            None => piece.bottom,
        };
        let advance = if leading == PieceType::Soldier || leading == PieceType::Ballista {
            let rank: i64 = match piece.color {
                Color::White => if pos.y > 0 {
                    8 - pos.y as i64
                } else {
                    8
                },
                Color::Black => pos.y as i64,
            };
            let aw = self.weights.advance_wt as i64;
            assert(-8 * 2147483648 <= rank * aw <= 8 * 2147483648) by (nonlinear_arith)
                requires
                    0 <= rank <= 8,
                    -2147483648 <= aw <= 2147483647,
            ;
            rank * aw
        } else {
            0
        };
        bottom_val + top_val + centrality + advance
    }

    /// The evaluator's raw score of a position from White's point of view:
    /// White's pieces minus Black's.
    pub fn raw_score(&self, board: &Board) -> (v: i64)
        ensures
            v == heuristic_side(self.weights, board@, 81, Color::White) - heuristic_side(
                self.weights,
                board@,
                81,
                Color::Black,
            ),
    {
        let ghost m = board@;
        let mut white_score: i64 = 0;
        let mut black_score: i64 = 0;
        let mut sq: usize = 0;
        while sq < 81
            invariant
                sq <= 81,
                m == board@,
                white_score == heuristic_side(self.weights, m, sq as int, Color::White),
                black_score == heuristic_side(self.weights, m, sq as int, Color::Black),
                -100_000_000_000 * sq <= white_score <= 100_000_000_000 * sq,
                -100_000_000_000 * sq <= black_score <= 100_000_000_000 * sq,
            decreases 81 - sq,
        {
            let pos = Position::from_u8(sq as u8);
            if let Some(piece) = board.get_piece(&pos) {
                let v = self.piece_score(piece, pos);
                if piece.color == Color::White {
                    white_score = white_score + v;
                } else {
                    black_score = black_score + v;
                }
            }
            sq += 1;
        }
        white_score - black_score
    }
}

} // verus!
