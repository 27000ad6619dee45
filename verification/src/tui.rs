//! Interactive play: the state machine behind the terminal interface.  The
//! player moves a cursor, picks a piece, picks its destination and, for a
//! stack, chooses between moving the whole stack or its top piece.
use vstd::prelude::*;
use crate::board::{initial_model, lemma_board_len, string_from_chars, BoardModel, Color, Piece, PieceType, Position};
use crate::game::{apply_model, move_applicable, promotes_loaded_king, position_moves, Game, Move, PotentialMove};
use crate::legality::{lemma_piece_move_applies, lemma_position_moves_found, piece_move, unstack_allowed};

verus! {

broadcast use lemma_board_len;

#[derive(Clone, Copy, Debug, PartialEq, Eq, Structural)]
pub enum GameState {
    SelectingPiece,
    SelectingTarget { from: Position },
    ConfirmUnstack { from: Position, to: Position, unstack: bool },
    GameOver { winner: Color },
}

pub struct App {
    game: Game,
    cursor_position: Position,
    game_state: GameState,
    highlighted_moves: Vec<Position>,
}

/// The destinations of `moves`, in order.
pub open spec fn targets(moves: Seq<PotentialMove>) -> Seq<Position> {
    moves.map_values(|pm: PotentialMove| pm.to)
}

/// The first of `moves` from the `i`-th on that lands on `to`.
pub open spec fn find_from(moves: Seq<PotentialMove>, to: Position, i: int) -> Option<PotentialMove>
    decreases moves.len() - i,
    when 0 <= i
{
    if i >= moves.len() {
        None
    } else if moves[i].to == to {
        Some(moves[i])
    } else {
        find_from(moves, to, i + 1)
    }
}

/// The first of `moves` that lands on `to`.
pub open spec fn find_target(moves: Seq<PotentialMove>, to: Position) -> Option<PotentialMove> {
    find_from(moves, to, 0)
}

/// The winner of a finished game: the side that made the last move.
pub open spec fn winner_of(m: BoardModel) -> Color {
    if m.white_to_move {
        Color::Black
    } else {
        Color::White
    }
}

/// The state after a move: game over, or the next player picks a piece.
pub open spec fn settled_state(m: BoardModel) -> GameState {
    if m.is_over() {
        GameState::GameOver { winner: winner_of(m) }
    } else {
        GameState::SelectingPiece
    }
}

/// The symbol shown for a piece type.
pub open spec fn symbol(t: PieceType) -> char {
    match t {
        PieceType::Soldier => 'S',
        PieceType::Jester => 'J',
        PieceType::Commander => 'C',
        PieceType::Paladin => 'P',
        PieceType::Guard => 'G',
        PieceType::Dragon => 'D',
        PieceType::Ballista => 'B',
        PieceType::King => 'K',
    }
}

/// The three characters shown for a piece: `T+B` for a stack, else the
/// symbol between two spaces.
pub open spec fn display_chars(p: Piece) -> Seq<char> {
    match p.top {
        Some(t) => seq![symbol(t), '+', symbol(p.bottom)],
        None => seq![' ', symbol(p.bottom), ' '],
    }
}

proof fn lemma_find_from_member(moves: Seq<PotentialMove>, to: Position, i: int)
    requires
        0 <= i,
        find_from(moves, to, i) is Some,
    ensures
        exists|k: int|
            i <= k < moves.len() && #[trigger] moves[k] == find_from(moves, to, i).unwrap()
                && moves[k].to == to,
    decreases moves.len() - i,
{
    if moves[i].to != to {
        lemma_find_from_member(moves, to, i + 1);
    }
}

/// A move found among the moves of a square of a well-formed position can
/// be played with any allowed unstack choice, and keeps the position well
/// formed.
proof fn lemma_found_move_plays(m: BoardModel, pos: Position, to: Position, unstack: bool)
    requires
        m.wf(),
        pos.is_valid(),
        find_target(position_moves(m, pos), to) matches Some(pm) && (unstack_allowed(pm, unstack)
            || (pm.force_unstack && unstack)),
    ensures
        ({
            let pm = find_target(position_moves(m, pos), to).unwrap();
            let mv = Move { from: pm.from, to: pm.to, unstack };
            &&& pm.to == to
            &&& pm.force_unstack ==> pm.unstackable
            &&& mv.from.is_valid() && mv.to.is_valid()
            &&& !promotes_loaded_king(m, mv)
            &&& move_applicable(m, mv)
            &&& apply_model(m, mv).wf()
        }),
{
    let moves = position_moves(m, pos);
    lemma_find_from_member(moves, to, 0);
    let pm = find_target(moves, to).unwrap();
    let k = choose|k: int| 0 <= k < moves.len() && #[trigger] moves[k] == pm && moves[k].to == to;
    lemma_position_moves_found(m, pos);
    assert(piece_move(m, moves[k]));
    lemma_piece_move_applies(m, pm, unstack);
    let p = m.cells[pm.from.index()].unwrap();
    assert(p.wf());
}

/// Start position: the cursor on the top-left square, nothing highlighted.
fn initial_cursor() -> (p: Position)
    ensures
        p == (Position { x: 0, y: 0 }),
{
    Position::new(0, 0)
}

/// The destinations of `moves`, in order.
fn targets_of(moves: &Vec<PotentialMove>) -> (v: Vec<Position>)
    ensures
        v@ == targets(moves@),
{
    let mut v: Vec<Position> = Vec::new();
    let mut i: usize = 0;
    while i < moves.len()
        invariant
            i <= moves.len(),
            v@ == targets(moves@).subrange(0, i as int),
        decreases moves.len() - i,
    {
        v.push(moves[i].to);
        i += 1;
        proof {
            assert(targets(moves@).subrange(0, i as int) =~= targets(moves@).subrange(
                0,
                i - 1,
            ).push(moves@[i - 1].to));
        }
    }
    proof {
        assert(targets(moves@).subrange(0, moves.len() as int) =~= targets(moves@));
    }
    v
}

/// The first of `moves` landing on `to`.
fn find_move_to(moves: &Vec<PotentialMove>, to: Position) -> (r: Option<PotentialMove>)
    ensures
        r == find_target(moves@, to),
{
    let mut i: usize = 0;
    while i < moves.len()
        invariant
            i <= moves.len(),
            find_target(moves@, to) == find_from(moves@, to, i as int),
        decreases moves.len() - i,
    {
        if moves[i].to == to {
            return Some(moves[i]);
        }
        i += 1;
    }
    None
}

/// The symbol shown for a piece type.
pub fn piece_to_char(t: &PieceType) -> (c: char)
    ensures
        c == symbol(*t),
{
    match t {
        PieceType::Soldier => 'S',
        PieceType::Jester => 'J',
        PieceType::Commander => 'C',
        PieceType::Paladin => 'P',
        PieceType::Guard => 'G',
        PieceType::Dragon => 'D',
        PieceType::Ballista => 'B',
        PieceType::King => 'K',
    }
}

/// How a move attempted from `old` left `new`: the move is played when it
/// can be, the game settles, and the highlights are cleared; otherwise
/// nothing changes and the attempt fails.
pub open spec fn played(old: App, new: App, r: Result<(), String>, mv: Move) -> bool {
    &&& new.cursor() == old.cursor()
    &&& (r is Ok <==> move_applicable(old.board(), mv))
    &&& r is Ok ==> {
        &&& new.board() == apply_model(old.board(), mv)
        &&& new.state() == settled_state(new.board())
        &&& new.highlights() == Seq::<Position>::empty()
    }
    &&& r is Err ==> {
        &&& new.board() == old.board()
        &&& new.state() == old.state()
        &&& new.highlights() == old.highlights()
    }
}

/// The selection was dropped: back to picking a piece, nothing highlighted.
pub open spec fn dropped(old: App, new: App) -> bool {
    &&& new.board() == old.board()
    &&& new.cursor() == old.cursor()
    &&& new.state() == GameState::SelectingPiece
    &&& new.highlights() == Seq::<Position>::empty()
}

impl App {
    /// The position being played.
    pub closed spec fn board(&self) -> BoardModel {
        self.game.board@
    }

    /// The square under the cursor.
    pub closed spec fn cursor(&self) -> Position {
        self.cursor_position
    }

    /// Where the interaction stands.
    pub closed spec fn state(&self) -> GameState {
        self.game_state
    }

    /// The highlighted squares.
    pub closed spec fn highlights(&self) -> Seq<Position> {
        self.highlighted_moves@
    }

    /// The position is one the rules produce, every square the state names
    /// is on the board, and a pending stack/unstack choice is for a move of
    /// a stack's top piece that may also move the whole stack.
    pub closed spec fn wf(&self) -> bool {
        &&& self.game.board@.wf()
        &&& self.cursor_position.is_valid()
        &&& match self.game_state {
            GameState::SelectingTarget { from } => from.is_valid(),
            GameState::ConfirmUnstack { from, to, unstack } => {
                &&& from.is_valid()
                &&& !unstack
                &&& find_target(position_moves(self.game.board@, from), to) matches Some(pm)
                    && pm.unstackable && !pm.force_unstack
            },
            _ => true,
        }
    }

    /// A new game from the starting position.
    pub fn new() -> (app: Self)
        ensures
            app.wf(),
            app.board() == initial_model(),
            app.cursor() == (Position { x: 0, y: 0 }),
            app.state() == settled_state(initial_model()),
            app.highlights() == Seq::<Position>::empty(),
    {
        let game = Game::new();
        proof {
            assert(initial_model().wf());
        }
        App::from_game(game)
    }

    /// Continue `game`; a finished game opens on its result.
    pub fn from_game(game: Game) -> (app: Self)
        requires
            game.board@.wf(),
        ensures
            app.wf(),
            app.board() == game.board@,
            app.cursor() == (Position { x: 0, y: 0 }),
            app.state() == settled_state(game.board@),
            app.highlights() == Seq::<Position>::empty(),
    {
        let game_state = if game.board.is_game_over() {
            let winner = if game.board.is_white_to_move() {
                Color::Black
            } else {
                Color::White
            };
            GameState::GameOver { winner }
        } else {
            GameState::SelectingPiece
        };
        App { game, cursor_position: initial_cursor(), game_state, highlighted_moves: Vec::new() }
    }

    /// The game being played.
    pub fn game(&self) -> (g: &Game)
        ensures
            g.board@ == self.board(),
    {
        &self.game
    }

    /// The square under the cursor.
    pub fn cursor_position(&self) -> (p: Position)
        ensures
            p == self.cursor(),
    {
        self.cursor_position
    }

    /// Where the interaction stands.
    pub fn game_state(&self) -> (s: GameState)
        ensures
            s == self.state(),
    {
        self.game_state
    }

    /// The highlighted squares.
    pub fn highlighted_moves(&self) -> (v: &Vec<Position>)
        ensures
            v@ == self.highlights(),
    {
        &self.highlighted_moves
    }

    /// Move the cursor by (`dx`, `dy`) if that stays on the board, and
    /// refresh the highlights; nothing moves once the game is over.
    pub fn move_cursor(&mut self, dx: isize, dy: isize)
        requires
            old(self).wf(),
            isize::MIN <= old(self).cursor().x + dx <= isize::MAX,
            isize::MIN <= old(self).cursor().y + dy <= isize::MAX,
        ensures
            final(self).wf(),
            final(self).board() == old(self).board(),
            final(self).state() == old(self).state(),
            ({
                let c = old(self).cursor();
                let x = c.x + dx;
                let y = c.y + dy;
                if old(self).state() is GameOver || !(0 <= x < 9 && 0 <= y < 9) {
                    &&& final(self).cursor() == c
                    &&& final(self).highlights() == old(self).highlights()
                } else {
                    let p = Position { x: x as usize, y: y as usize };
                    &&& final(self).cursor() == p
                    &&& final(self).highlights() == match old(self).state() {
                        GameState::SelectingPiece => targets(position_moves(old(self).board(), p)),
                        GameState::ConfirmUnstack { to, .. } => seq![to],
                        _ => old(self).highlights(),
                    }
                }
            }),
    {
        if let GameState::GameOver { .. } = self.game_state {
            return;
        }
        if let Some(new_pos) = self.cursor_position.get_new(dx, dy) {
            self.cursor_position = new_pos;
            self.update_highlights();
        }
    }

    /// Play `game_move`, then settle the state and clear the highlights.
    fn apply_move_and_update_state(&mut self, game_move: Move) -> (r: Result<(), String>)
        requires
            old(self).wf(),
            game_move.from.is_valid(),
            game_move.to.is_valid(),
            !promotes_loaded_king(old(self).board(), game_move),
            move_applicable(old(self).board(), game_move) ==> apply_model(
                old(self).board(),
                game_move,
            ).wf(),
        ensures
            final(self).wf(),
            played(*old(self), *final(self), r, game_move),
    {
        self.game.apply_move(game_move)?;
        if self.game.board.is_game_over() {
            let winner = if self.game.board.is_white_to_move() {
                Color::Black
            } else {
                Color::White
            };
            self.game_state = GameState::GameOver { winner };
            self.highlighted_moves.clear();
        } else {
            self.game_state = GameState::SelectingPiece;
            self.highlighted_moves.clear();
        }
        Ok(())
    }

    /// Enter: pick the piece under the cursor, pick its destination, or
    /// confirm moving the whole stack.
    pub fn handle_enter(&mut self) -> (r: Result<(), String>)
        requires
            old(self).wf(),
        ensures
            final(self).wf(),
            r is Ok,
            match old(self).state() {
                GameState::SelectingPiece => {
                    let moves = position_moves(old(self).board(), old(self).cursor());
                    &&& final(self).board() == old(self).board()
                    &&& final(self).cursor() == old(self).cursor()
                    &&& if moves.len() > 0 {
                        &&& final(self).state() == (GameState::SelectingTarget {
                            from: old(self).cursor(),
                        })
                        &&& final(self).highlights() == targets(moves)
                    } else {
                        &&& final(self).state() == old(self).state()
                        &&& final(self).highlights() == old(self).highlights()
                    }
                },
                GameState::SelectingTarget { from } => match find_target(
                    position_moves(old(self).board(), from),
                    old(self).cursor(),
                ) {
                    Some(pm) => if pm.unstackable && !pm.force_unstack {
                        &&& final(self).board() == old(self).board()
                        &&& final(self).cursor() == old(self).cursor()
                        &&& final(self).state() == (GameState::ConfirmUnstack {
                            from,
                            to: old(self).cursor(),
                            unstack: false,
                        })
                        &&& final(self).highlights() == seq![old(self).cursor()]
                    } else {
                        played(
                            *old(self),
                            *final(self),
                            r,
                            Move { from: pm.from, to: pm.to, unstack: pm.force_unstack },
                        )
                    },
                    None => dropped(*old(self), *final(self)),
                },
                GameState::ConfirmUnstack { from, to, unstack } => match find_target(
                    position_moves(old(self).board(), from),
                    to,
                ) {
                    Some(pm) => played(
                        *old(self),
                        *final(self),
                        r,
                        Move { from: pm.from, to: pm.to, unstack },
                    ),
                    None => dropped(*old(self), *final(self)),
                },
                GameState::GameOver { .. } => {
                    &&& final(self).board() == old(self).board()
                    &&& final(self).cursor() == old(self).cursor()
                    &&& final(self).state() == old(self).state()
                    &&& final(self).highlights() == old(self).highlights()
                },
            },
    {
        let ghost m = self.game.board@;
        match self.game_state {
            GameState::SelectingPiece => {
                let moves = self.game.get_moves(&self.cursor_position);
                if moves.len() > 0 {
                    self.game_state = GameState::SelectingTarget { from: self.cursor_position };
                    self.highlighted_moves = targets_of(&moves);
                }
            },
            GameState::SelectingTarget { from } => {
                let moves = self.game.get_moves(&from);
                match find_move_to(&moves, self.cursor_position) {
                    Some(potential_move) => {
                        if potential_move.unstackable && !potential_move.force_unstack {
                            self.game_state = GameState::ConfirmUnstack {
                                from,
                                to: self.cursor_position,
                                unstack: false,
                            };
                            self.highlighted_moves = vec![self.cursor_position];
                            return Ok(());
                        }
                        proof {
                            lemma_found_move_plays(
                                m,
                                from,
                                self.cursor_position,
                                potential_move.force_unstack,
                            );
                        }
                        let unstack = potential_move.force_unstack;
                        let game_move = potential_move.to_move(unstack);
                        return self.apply_move_and_update_state(game_move);
                    },
                    None => {
                        self.game_state = GameState::SelectingPiece;
                        self.highlighted_moves.clear();
                    },
                }
            },
            GameState::ConfirmUnstack { from, to, unstack } => {
                let moves = self.game.get_moves(&from);
                match find_move_to(&moves, to) {
                    Some(potential_move) => {
                        proof {
                            lemma_found_move_plays(m, from, to, unstack);
                        }
                        let game_move = potential_move.to_move(unstack);
                        return self.apply_move_and_update_state(game_move);
                    },
                    None => {
                        self.game_state = GameState::SelectingPiece;
                        self.highlighted_moves.clear();
                    },
                }
            },
            GameState::GameOver { .. } => {},
        }
        Ok(())
    }

    /// `u` while choosing between stack and top piece: move the top piece
    /// alone.  Does nothing in any other state.
    pub fn handle_unstack_confirm(&mut self) -> (r: Result<(), String>)
        requires
            old(self).wf(),
        ensures
            final(self).wf(),
            r is Ok,
            match old(self).state() {
                GameState::ConfirmUnstack { from, to, .. } => match find_target(
                    position_moves(old(self).board(), from),
                    to,
                ) {
                    Some(pm) => played(
                        *old(self),
                        *final(self),
                        r,
                        Move { from: pm.from, to: pm.to, unstack: true },
                    ),
                    None => dropped(*old(self), *final(self)),
                },
                _ => {
                    &&& final(self).board() == old(self).board()
                    &&& final(self).cursor() == old(self).cursor()
                    &&& final(self).state() == old(self).state()
                    &&& final(self).highlights() == old(self).highlights()
                },
            },
    {
        let ghost m = self.game.board@;
        if let GameState::ConfirmUnstack { from, to, .. } = self.game_state {
            let moves = self.game.get_moves(&from);
            match find_move_to(&moves, to) {
                Some(potential_move) => {
                    proof {
                        lemma_found_move_plays(m, from, to, true);
                    }
                    let game_move = potential_move.to_move(true);
                    return self.apply_move_and_update_state(game_move);
                },
                None => {
                    self.game_state = GameState::SelectingPiece;
                    self.highlighted_moves.clear();
                },
            }
        }
        Ok(())
    }

    /// Escape: step back one stage of the selection.
    pub fn handle_escape(&mut self)
        requires
            old(self).wf(),
        ensures
            final(self).wf(),
            final(self).board() == old(self).board(),
            final(self).cursor() == old(self).cursor(),
            match old(self).state() {
                GameState::SelectingTarget { .. } => {
                    &&& final(self).state() == GameState::SelectingPiece
                    &&& final(self).highlights() == Seq::<Position>::empty()
                },
                GameState::ConfirmUnstack { from, .. } => {
                    &&& final(self).state() == (GameState::SelectingTarget { from })
                    &&& final(self).highlights() == Seq::<Position>::empty()
                },
                _ => {
                    &&& final(self).state() == old(self).state()
                    &&& final(self).highlights() == old(self).highlights()
                },
            },
    {
        match self.game_state {
            GameState::SelectingPiece => {},
            GameState::SelectingTarget { .. } => {
                self.game_state = GameState::SelectingPiece;
                self.highlighted_moves.clear();
            },
            GameState::ConfirmUnstack { from, .. } => {
                self.game_state = GameState::SelectingTarget { from };
                self.highlighted_moves.clear();
            },
            GameState::GameOver { .. } => {},
        }
    }

    /// Refresh the highlights for the square under the cursor.
    fn update_highlights(&mut self)
        requires
            old(self).wf(),
        ensures
            final(self).wf(),
            final(self).board() == old(self).board(),
            final(self).cursor() == old(self).cursor(),
            final(self).state() == old(self).state(),
            final(self).highlights() == match old(self).state() {
                GameState::SelectingPiece => targets(
                    position_moves(old(self).board(), old(self).cursor()),
                ),
                GameState::SelectingTarget { .. } => old(self).highlights(),
                GameState::ConfirmUnstack { to, .. } => seq![to],
                GameState::GameOver { .. } => Seq::<Position>::empty(),
            },
    {
        match self.game_state {
            GameState::SelectingPiece => {
                let moves = self.game.get_moves(&self.cursor_position);
                self.highlighted_moves = targets_of(&moves);
            },
            GameState::SelectingTarget { .. } => {},
            GameState::ConfirmUnstack { to, .. } => {
                self.highlighted_moves = vec![to];
            },
            GameState::GameOver { .. } => {
                self.highlighted_moves.clear();
            },
        }
    }

    /// The three characters shown for `piece` on the board.
    pub fn get_piece_display(&self, piece: &Piece) -> (s: String)
        ensures
            s@ == display_chars(*piece),
    {
        match piece.top {
            Some(top_piece) => {
                string_from_chars(vec![piece_to_char(&top_piece), '+', piece_to_char(&piece.bottom)])
            },
            None => string_from_chars(vec![' ', piece_to_char(&piece.bottom), ' ']),
        }
    }
}

} // verus!
