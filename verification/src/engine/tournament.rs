//! Matches between two engines: the decisions of the match loop.  The
//! engines themselves and the clock are driven by the caller.
use vstd::prelude::*;
use crate::board::Board;

verus! {

/// Configuration for a match between two engines.
#[derive(Clone, Copy, Debug)]
pub struct MatchConfig {
    /// Number of games to play.
    pub num_games: usize,
    /// Time limit per move in milliseconds.
    pub time_per_move_ms: u64,
    /// Maximum number of moves per game before declaring a draw.
    pub max_moves_per_game: usize,
}

impl Default for MatchConfig {
    /// Ten games, three seconds a move, at most 150 moves a game.
    fn default() -> (c: Self)
        ensures
            c.num_games == 10,
            c.time_per_move_ms == 3000,
            c.max_moves_per_game == 150,
    {
        MatchConfig { num_games: 10, time_per_move_ms: 3000, max_moves_per_game: 150 }
    }
}

/// Result of a single game.
#[derive(Clone, Copy, Debug, PartialEq, Eq, Structural)]
pub enum GameResult {
    /// Player 1 (White) wins.
    Player1Win,
    /// Player 2 (Black) wins.
    Player2Win,
    /// Draw.
    Draw,
}

/// The result of a game that stopped on a board: the winner of a finished
/// game; a draw for a drawn game or one stopped before its end.
pub open spec fn result_of(board: crate::board::BoardModel) -> GameResult {
    if board.is_over() {
        if board.drawn {
            GameResult::Draw
        } else if board.white_won {
            GameResult::Player1Win
        } else {
            GameResult::Player2Win
        }
    } else {
        GameResult::Draw
    }
}

/// The result of the game that stopped on `board`, White being player 1.
pub fn game_result(board: &Board) -> (r: GameResult)
    ensures
        r == result_of(board@),
{
    if board.is_game_over() {
        if board.is_draw() {
            GameResult::Draw
        } else if board.white_wins() {
            GameResult::Player1Win
        } else {
            GameResult::Player2Win
        }
    } else {
        GameResult::Draw
    }
}

/// Another move is played: the game is not over and the move limit is not
/// reached.
pub fn game_continues(board: &Board, move_count: usize, max_moves: usize) -> (r: bool)
    ensures
        r == (move_count < max_moves && !board@.is_over()),
{
    move_count < max_moves && !board.is_game_over()
}

/// Colours alternate: player 1 takes White in the odd-numbered games.
pub fn player1_is_white(game_num: usize) -> (r: bool)
    ensures
        r == (game_num % 2 == 1),
{
    game_num % 2 == 1
}

/// A result told from the other player's side.
pub open spec fn other_side(r: GameResult) -> GameResult {
    match r {
        GameResult::Player1Win => GameResult::Player2Win,
        GameResult::Player2Win => GameResult::Player1Win,
        GameResult::Draw => GameResult::Draw,
    }
}

/// Telling a result from the other side twice gives it back, so a game
/// played with swapped colours is counted for the right player.
pub proof fn lemma_other_side_involution(r: GameResult)
    ensures
        other_side(other_side(r)) == r,
{
}

/// A result told from the other player's side, for a game in which the
/// players swapped colours.
pub fn swapped(r: GameResult) -> (s: GameResult)
    ensures
        s == other_side(r),
{
    match r {
        GameResult::Player1Win => GameResult::Player2Win,
        GameResult::Player2Win => GameResult::Player1Win,
        GameResult::Draw => GameResult::Draw,
    }
}

/// How many of `results` are `r`.
pub open spec fn count_of(results: Seq<GameResult>, r: GameResult) -> nat
    decreases results.len(),
{
    if results.len() == 0 {
        0
    } else {
        count_of(results.drop_last(), r) + if results.last() == r {
            1nat
        } else {
            0nat
        }
    }
}

/// The running score of a match.
#[derive(Clone, Copy, Debug)]
pub struct MatchScore {
    pub player1_wins: usize,
    pub player2_wins: usize,
    pub draws: usize,
}

impl MatchScore {
    /// The games counted: wins of either player and draws.
    pub open spec fn games(&self) -> int {
        self.player1_wins + self.player2_wins + self.draws
    }

    /// No game played yet.
    pub fn new() -> (s: Self)
        ensures
            s.player1_wins == 0,
            s.player2_wins == 0,
            s.draws == 0,
            s.games() == 0,
    {
        MatchScore { player1_wins: 0, player2_wins: 0, draws: 0 }
    }

    /// The score of a match whose games ended with `results`: each count
    /// is the number of games that ended so, and together they count every
    /// game.
    pub fn tally(results: &[GameResult]) -> (s: Self)
        ensures
            s.player1_wins == count_of(results@, GameResult::Player1Win),
            s.player2_wins == count_of(results@, GameResult::Player2Win),
            s.draws == count_of(results@, GameResult::Draw),
            s.games() == results@.len(),
    {
        let mut s = MatchScore::new();
        let mut i: usize = 0;
        while i < results.len()
            invariant
                i <= results@.len(),
                s.player1_wins == count_of(results@.take(i as int), GameResult::Player1Win),
                s.player2_wins == count_of(results@.take(i as int), GameResult::Player2Win),
                s.draws == count_of(results@.take(i as int), GameResult::Draw),
                s.games() == i,
            decreases results.len() - i,
        {
            proof {
                assert(results@.take(i + 1).drop_last() =~= results@.take(i as int));
            }
            s.record(results[i]);
            i += 1;
        }
        proof {
            assert(results@.take(results@.len() as int) =~= results@);
        }
        s
    }

    /// Count one more game.
    pub fn record(&mut self, r: GameResult)
        requires
            old(self).player1_wins < usize::MAX,
            old(self).player2_wins < usize::MAX,
            old(self).draws < usize::MAX,
        ensures
            final(self).player1_wins == old(self).player1_wins + if r == GameResult::Player1Win {
                1int
            } else {
                0
            },
            final(self).player2_wins == old(self).player2_wins + if r == GameResult::Player2Win {
                1int
            } else {
                0
            },
            final(self).draws == old(self).draws + if r == GameResult::Draw {
                1int
            } else {
                0
            },
            final(self).games() == old(self).games() + 1,
    {
        match r {
            GameResult::Player1Win => {
                self.player1_wins = self.player1_wins + 1;
            },
            GameResult::Player2Win => {
                self.player2_wins = self.player2_wins + 1;
            },
            GameResult::Draw => {
                self.draws = self.draws + 1;
            },
        }
    }
}

} // verus!
