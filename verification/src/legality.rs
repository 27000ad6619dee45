//! Properties of generated moves: where they go, and that each of them can
//! be played.
use vstd::prelude::*;
use crate::board::{lemma_board_len, on_board, square_position, BoardModel, Color, Piece, PieceType, Position};
use crate::game::{
    all_moves, apply_model, dirs_moves, explore_target, lemma_square_position_index,
    move_applicable, move_on_board, moves_prefix, piece_dirs, piece_range, position_moves,
    ray_moves, step_target, type_moves, Move, PotentialMove,
};

verus! {

broadcast use lemma_board_len;

/// What a potential move found by a piece of `color` on `from` satisfies:
/// it starts on `from`, lands on another square of the board, carries the
/// `is_top` flag, and lands on an empty square, an enemy, or (forcing the
/// top piece alone when moving from the top) a friendly piece that accepts
/// it.
pub open spec fn found_move(
    cells: Seq<Option<Piece>>,
    from: Position,
    color: Color,
    is_top: bool,
    has_top: bool,
    pm: PotentialMove,
) -> bool {
    &&& pm.from == from
    &&& pm.to.is_valid()
    &&& pm.to != from
    &&& pm.unstackable == is_top
    &&& match cells[pm.to.index()] {
        None => !pm.force_unstack,
        Some(t) => if t.color != color {
            !pm.force_unstack
        } else {
            &&& is_top || !has_top
            &&& t.bottom != PieceType::King
            &&& t.top is None
            &&& pm.force_unstack == is_top
        },
    }
}

/// The directions of every piece type are short and non-null.
pub open spec fn good_dirs(dirs: Seq<(isize, isize)>) -> bool {
    forall|i: int|
        0 <= i < dirs.len() ==> {
            let d = #[trigger] dirs[i];
            &&& -2 <= d.0 <= 2
            &&& -2 <= d.1 <= 2
            &&& (d.0 != 0 || d.1 != 0)
        }
}

proof fn lemma_piece_dirs_good(t: PieceType, color: Color)
    ensures
        good_dirs(piece_dirs(t, color)),
{
}

proof fn lemma_ray_moves_found(
    cells: Seq<Option<Piece>>,
    from: Position,
    color: Color,
    is_top: bool,
    has_top: bool,
    dx: int,
    dy: int,
    k: int,
    range: int,
)
    requires
        cells.len() == 81,
        from.is_valid(),
        -2 <= dx <= 2,
        -2 <= dy <= 2,
        dx != 0 || dy != 0,
    ensures
        forall|j: int|
            0 <= j < ray_moves(cells, from, color, is_top, has_top, dx, dy, k, range).len()
                ==> found_move(
                cells,
                from,
                color,
                is_top,
                has_top,
                #[trigger] ray_moves(cells, from, color, is_top, has_top, dx, dy, k, range)[j],
            ),
    decreases range - k + 1,
{
    if k > range || k < 1 {
    } else if !on_board(from.x + k * dx, from.y + k * dy) {
        lemma_ray_moves_found(cells, from, color, is_top, has_top, dx, dy, k + 1, range);
        assert(ray_moves(cells, from, color, is_top, has_top, dx, dy, k, range) == ray_moves(
            cells,
            from,
            color,
            is_top,
            has_top,
            dx,
            dy,
            k + 1,
            range,
        ));
    } else {
        let to = step_target(from, dx, dy, k);
        assert(k * dx != 0 || k * dy != 0) by (nonlinear_arith)
            requires
                k >= 1,
                dx != 0 || dy != 0,
        ;
        assert(to != from);
        let e = explore_target(cells, from, color, to, is_top, has_top);
        lemma_ray_moves_found(cells, from, color, is_top, has_top, dx, dy, k + 1, range);
        let rest = if e.1 {
            ray_moves(cells, from, color, is_top, has_top, dx, dy, k + 1, range)
        } else {
            seq![]
        };
        assert(ray_moves(cells, from, color, is_top, has_top, dx, dy, k, range) == e.0 + rest);
        assert(to.is_valid());
        assert(forall|j: int| 0 <= j < e.0.len() ==> (#[trigger] e.0[j]).to == to && e.0[j].from == from);
        assert forall|j: int| 0 <= j < (e.0 + rest).len() implies found_move(
            cells,
            from,
            color,
            is_top,
            has_top,
            #[trigger] (e.0 + rest)[j],
        ) by {
            if j >= e.0.len() {
                assert((e.0 + rest)[j] == rest[j - e.0.len()]);
            }
        }
    }
}

proof fn lemma_dirs_moves_found(
    cells: Seq<Option<Piece>>,
    from: Position,
    color: Color,
    is_top: bool,
    has_top: bool,
    dirs: Seq<(isize, isize)>,
    range: int,
)
    requires
        cells.len() == 81,
        from.is_valid(),
        good_dirs(dirs),
    ensures
        forall|j: int|
            0 <= j < dirs_moves(cells, from, color, is_top, has_top, dirs, range).len()
                ==> found_move(
                cells,
                from,
                color,
                is_top,
                has_top,
                #[trigger] dirs_moves(cells, from, color, is_top, has_top, dirs, range)[j],
            ),
    decreases dirs.len(),
{
    if dirs.len() > 0 {
        let d = dirs.last();
        assert(dirs[dirs.len() - 1] == d);
        assert(good_dirs(dirs.drop_last()));
        lemma_dirs_moves_found(cells, from, color, is_top, has_top, dirs.drop_last(), range);
        lemma_ray_moves_found(cells, from, color, is_top, has_top, d.0 as int, d.1 as int, 1, range);
        let a = dirs_moves(cells, from, color, is_top, has_top, dirs.drop_last(), range);
        let b = ray_moves(cells, from, color, is_top, has_top, d.0 as int, d.1 as int, 1, range);
        assert forall|j: int| 0 <= j < (a + b).len() implies found_move(
            cells,
            from,
            color,
            is_top,
            has_top,
            #[trigger] (a + b)[j],
        ) by {
            if j >= a.len() {
                assert((a + b)[j] == b[j - a.len()]);
            }
        }
    }
}

proof fn lemma_type_moves_found(
    cells: Seq<Option<Piece>>,
    from: Position,
    color: Color,
    t: PieceType,
    is_top: bool,
    has_top: bool,
)
    requires
        cells.len() == 81,
        from.is_valid(),
    ensures
        forall|j: int|
            0 <= j < type_moves(cells, from, color, t, is_top, has_top).len() ==> {
                let pm = #[trigger] type_moves(cells, from, color, t, is_top, has_top)[j];
                if t == PieceType::King {
                    found_move(cells, from, color, false, true, pm)
                } else {
                    found_move(cells, from, color, is_top, has_top, pm)
                }
            },
{
    lemma_piece_dirs_good(t, color);
    if t == PieceType::King {
        lemma_dirs_moves_found(cells, from, color, false, true, piece_dirs(t, color), piece_range(t));
    } else {
        lemma_dirs_moves_found(
            cells,
            from,
            color,
            is_top,
            has_top,
            piece_dirs(t, color),
            piece_range(t),
        );
    }
}

/// A potential move of the piece standing on its origin square: a move of
/// the top piece of a stack, or a move of the whole piece.
pub open spec fn piece_move(m: BoardModel, pm: PotentialMove) -> bool {
    match m.cells[pm.from.index()] {
        None => false,
        Some(p) => {
            &&& p.color == m.color_to_move()
            &&& pm.from.is_valid()
            &&& if pm.unstackable && p.top is Some && p.bottom != PieceType::King {
                found_move(m.cells, pm.from, p.color, true, true, pm)
            } else if p.bottom == PieceType::King {
                found_move(m.cells, pm.from, p.color, false, true, pm)
            } else {
                found_move(m.cells, pm.from, p.color, false, p.top is Some, pm)
            }
        },
    }
}

pub proof fn lemma_position_moves_found(m: BoardModel, pos: Position)
    requires
        m.wf(),
        pos.is_valid(),
    ensures
        forall|j: int|
            0 <= j < position_moves(m, pos).len() ==> piece_move(
                m,
                #[trigger] position_moves(m, pos)[j],
            ) && position_moves(m, pos)[j].from == pos,
{
    match m.cells[pos.index()] {
        None => {},
        Some(p) => {
            if p.color == m.color_to_move() {
                assert(p.wf());
                let a = match p.top {
                    Some(t) => type_moves(m.cells, pos, p.color, t, true, true),
                    None => seq![],
                };
                let b = type_moves(m.cells, pos, p.color, p.bottom, false, p.top is Some);
                lemma_type_moves_found(m.cells, pos, p.color, p.bottom, false, p.top is Some);
                match p.top {
                    Some(t) => lemma_type_moves_found(m.cells, pos, p.color, t, true, true),
                    None => {},
                }
                assert forall|j: int| 0 <= j < (a + b).len() implies piece_move(
                    m,
                    #[trigger] (a + b)[j],
                ) && (a + b)[j].from == pos by {
                    if j >= a.len() {
                        assert((a + b)[j] == b[j - a.len()]);
                    }
                }
            }
        },
    }
}

proof fn lemma_moves_prefix_found(m: BoardModel, n: int)
    requires
        m.wf(),
        0 <= n <= 81,
    ensures
        forall|j: int|
            0 <= j < moves_prefix(m, n).len() ==> piece_move(m, #[trigger] moves_prefix(m, n)[j]),
    decreases n,
{
    if n > 0 {
        lemma_moves_prefix_found(m, n - 1);
        let pos = square_position(n - 1);
        assert(pos.is_valid());
        assert(pos.index() == n - 1);
        lemma_position_moves_found(m, pos);
        let a = moves_prefix(m, n - 1);
        let b = position_moves(m, pos);
        assert forall|j: int| 0 <= j < (a + b).len() implies piece_move(
            m,
            #[trigger] (a + b)[j],
        ) by {
            if j >= a.len() {
                assert((a + b)[j] == b[j - a.len()]);
            }
        }
    }
}

/// Every potential move generated on a well-formed board starts from a piece
/// of the side to move and stays on the board.
pub proof fn lemma_all_moves_from_mover(m: BoardModel, j: int)
    requires
        m.wf(),
        0 <= j < all_moves(m).len(),
    ensures
        piece_move(m, all_moves(m)[j]),
        move_on_board(all_moves(m)[j].from, all_moves(m)[j].to),
        all_moves(m)[j].from != all_moves(m)[j].to,
        m.cells[all_moves(m)[j].from.index()] matches Some(p) && p.color == m.color_to_move(),
{
    lemma_moves_prefix_found(m, 81);
}

/// The unstack choice `unstack` is allowed for `pm`: forced moves unstack,
/// and only moves of a top piece may unstack.
pub open spec fn unstack_allowed(pm: PotentialMove, unstack: bool) -> bool {
    &&& !(unstack && !pm.unstackable)
    &&& !(!unstack && pm.force_unstack)
}

/// Every generated move can be played, with any allowed unstack choice, and
/// playing it keeps every piece on the board well formed.
pub proof fn lemma_generated_move_applies(m: BoardModel, j: int, unstack: bool)
    requires
        m.wf(),
        0 <= j < all_moves(m).len(),
        unstack_allowed(all_moves(m)[j], unstack),
    ensures
        ({
            let pm = all_moves(m)[j];
            let mv = Move { from: pm.from, to: pm.to, unstack };
            &&& move_on_board(pm.from, pm.to)
            &&& move_applicable(m, mv)
            &&& apply_model(m, mv).wf()
        }),
{
    lemma_all_moves_from_mover(m, j);
    let pm = all_moves(m)[j];
    lemma_piece_move_applies(m, pm, unstack);
}

/// A potential move of a piece of the side to move can be played with any
/// allowed unstack choice, keeping the board well formed.
pub proof fn lemma_piece_move_applies(m: BoardModel, pm: PotentialMove, unstack: bool)
    requires
        m.wf(),
        piece_move(m, pm),
        unstack_allowed(pm, unstack),
    ensures
        ({
            let mv = Move { from: pm.from, to: pm.to, unstack };
            &&& move_on_board(pm.from, pm.to)
            &&& move_applicable(m, mv)
            &&& apply_model(m, mv).wf()
        }),
{
    let mv = Move { from: pm.from, to: pm.to, unstack };
    lemma_square_position_index(pm.from);
    lemma_square_position_index(pm.to);
    let p = m.cells[pm.from.index()].unwrap();
    assert(p.wf());
    assert(pm.from.index() != pm.to.index());
    assert(move_applicable(m, mv));
    let next = apply_model(m, mv);
    assert forall|i: int| 0 <= i < next.cells.len() implies match #[trigger] next.cells[i] {
        Some(q) => q.wf(),
        None => true,
    } by {
        if i != pm.from.index() && i != pm.to.index() {
            assert(next.cells[i] == m.cells[i]);
        }
    }
}

} // verus!

verus! {

proof fn lemma_ray_moves_len(
    cells: Seq<Option<Piece>>,
    from: Position,
    color: Color,
    is_top: bool,
    has_top: bool,
    dx: int,
    dy: int,
    k: int,
    range: int,
)
    requires
        k >= 1,
    ensures
        ray_moves(cells, from, color, is_top, has_top, dx, dy, k, range).len() <= if range >= k {
            range - k + 1
        } else {
            0
        },
    decreases range - k + 1,
{
    if k > range {
    } else {
        lemma_ray_moves_len(cells, from, color, is_top, has_top, dx, dy, k + 1, range);
    }
}

proof fn lemma_dirs_moves_len(
    cells: Seq<Option<Piece>>,
    from: Position,
    color: Color,
    is_top: bool,
    has_top: bool,
    dirs: Seq<(isize, isize)>,
    range: int,
)
    requires
        0 <= range <= 9,
    ensures
        dirs_moves(cells, from, color, is_top, has_top, dirs, range).len() <= 9 * dirs.len(),
    decreases dirs.len(),
{
    if dirs.len() > 0 {
        lemma_dirs_moves_len(cells, from, color, is_top, has_top, dirs.drop_last(), range);
        lemma_ray_moves_len(
            cells,
            from,
            color,
            is_top,
            has_top,
            dirs.last().0 as int,
            dirs.last().1 as int,
            1,
            range,
        );
    }
}

proof fn lemma_type_moves_len(
    cells: Seq<Option<Piece>>,
    from: Position,
    color: Color,
    t: PieceType,
    is_top: bool,
    has_top: bool,
)
    ensures
        type_moves(cells, from, color, t, is_top, has_top).len() <= 72,
{
    if t == PieceType::King {
        lemma_dirs_moves_len(cells, from, color, false, true, piece_dirs(t, color), piece_range(t));
    } else {
        lemma_dirs_moves_len(cells, from, color, is_top, has_top, piece_dirs(t, color), piece_range(t));
    }
}

/// A square yields at most 144 potential moves.
pub proof fn lemma_position_moves_len(m: BoardModel, pos: Position)
    ensures
        position_moves(m, pos).len() <= 144,
{
    match m.cells[pos.index()] {
        None => {},
        Some(p) => {
            if p.color == m.color_to_move() {
                match p.top {
                    Some(t) => lemma_type_moves_len(m.cells, pos, p.color, t, true, true),
                    None => {},
                }
                lemma_type_moves_len(m.cells, pos, p.color, p.bottom, false, p.top is Some);
            }
        },
    }
}



/// At most 144 potential moves per square: at most 11664 in all.
pub proof fn lemma_all_moves_len(m: BoardModel)
    ensures
        all_moves(m).len() <= 11664,
{
    lemma_moves_prefix_len(m, 81);
}

proof fn lemma_moves_prefix_len(m: BoardModel, n: int)
    requires
        0 <= n <= 81,
    ensures
        moves_prefix(m, n).len() <= 144 * n,
    decreases n,
{
    if n > 0 {
        lemma_moves_prefix_len(m, n - 1);
        lemma_position_moves_len(m, square_position(n - 1));
    }
}

// ---------------------------------------------------------------------------
// Moves that can be played
// ---------------------------------------------------------------------------

/// The moves a potential move stands for: the whole piece, and also the top
/// piece alone where it may unstack; only the top piece where that is forced.
pub open spec fn pm_moves(pm: PotentialMove) -> Seq<Move> {
    let whole = Move { from: pm.from, to: pm.to, unstack: false };
    let top = Move { from: pm.from, to: pm.to, unstack: true };
    if pm.force_unstack {
        seq![top]
    } else if pm.unstackable {
        seq![whole, top]
    } else {
        seq![whole]
    }
}

/// The moves of the first `n` potential moves, in generation order.
pub open spec fn legal_prefix(m: BoardModel, n: int) -> Seq<Move>
    decreases n,
{
    if n <= 0 {
        seq![]
    } else {
        legal_prefix(m, n - 1) + pm_moves(all_moves(m)[n - 1])
    }
}

/// Every move the side to move can play, in generation order.
pub open spec fn legal_moves(m: BoardModel) -> Seq<Move> {
    legal_prefix(m, all_moves(m).len() as int)
}

proof fn lemma_legal_prefix_origin(m: BoardModel, n: int, k: int)
    requires
        m.wf(),
        0 <= n <= all_moves(m).len(),
        0 <= k < legal_prefix(m, n).len(),
    ensures
        exists|j: int|
            #![trigger all_moves(m)[j]]
            0 <= j < n && {
                let pm = all_moves(m)[j];
                let mv = legal_prefix(m, n)[k];
                &&& mv.from == pm.from
                &&& mv.to == pm.to
                &&& unstack_allowed(pm, mv.unstack)
            },
    decreases n,
{
    let prev = legal_prefix(m, n - 1);
    if k < prev.len() {
        lemma_legal_prefix_origin(m, n - 1, k);
        let j = choose|j: int|
            #![trigger all_moves(m)[j]]
            0 <= j < n - 1 && {
                let pm = all_moves(m)[j];
                let mv = legal_prefix(m, n - 1)[k];
                &&& mv.from == pm.from
                &&& mv.to == pm.to
                &&& unstack_allowed(pm, mv.unstack)
            };
        assert(legal_prefix(m, n)[k] == prev[k]);
        assert(all_moves(m)[j] == all_moves(m)[j]);
    } else {
        let pm = all_moves(m)[n - 1];
        lemma_all_moves_from_mover(m, n - 1);
        let mv = legal_prefix(m, n)[k];
        assert(mv == pm_moves(pm)[k - prev.len()]);
        assert(pm.force_unstack ==> pm.unstackable);
        assert(mv.from == pm.from && mv.to == pm.to && unstack_allowed(pm, mv.unstack));
    }
}

/// Every move of a well-formed position can be played, starts from a
/// piece of the side to move, and keeps the position well formed.
pub proof fn lemma_legal_move_applies(m: BoardModel, k: int)
    requires
        m.wf(),
        0 <= k < legal_moves(m).len(),
    ensures
        ({
            let mv = legal_moves(m)[k];
            &&& move_on_board(mv.from, mv.to)
            &&& mv.from != mv.to
            &&& move_applicable(m, mv)
            &&& apply_model(m, mv).wf()
            &&& m.cells[mv.from.index()] matches Some(p) && p.color == m.color_to_move()
        }),
{
    let n = all_moves(m).len() as int;
    lemma_legal_prefix_origin(m, n, k);
    let j = choose|j: int|
        #![trigger all_moves(m)[j]]
        0 <= j < n && {
            let pm = all_moves(m)[j];
            let mv = legal_prefix(m, n)[k];
            &&& mv.from == pm.from
            &&& mv.to == pm.to
            &&& unstack_allowed(pm, mv.unstack)
        };
    let mv = legal_moves(m)[k];
    lemma_generated_move_applies(m, j, mv.unstack);
    lemma_all_moves_from_mover(m, j);
    let pm = all_moves(m)[j];
    assert(mv == Move { from: pm.from, to: pm.to, unstack: mv.unstack });
}

// ---------------------------------------------------------------------------
// Completeness of move generation
// ---------------------------------------------------------------------------

/// The rules of movement: a piece of type `t` and colour `color` may go
/// `k` steps along `(dx, dy)`.  A Soldier one step diagonally forward; a
/// Bishop (Jester) any distance diagonally; a Rook (Commander) any
/// distance along a line; a Paladin one or two steps along a line; a Guard
/// one or two steps diagonally; a Dragon one knight's jump; a Ballista any
/// distance straight forward; a King one step in any of the eight
/// directions.
pub open spec fn rule_reach(t: PieceType, color: Color, dx: int, dy: int, k: int) -> bool {
    let fwd: int = if color == Color::White { -1 } else { 1 };
    let diag = (dx == 1 || dx == -1) && (dy == 1 || dy == -1);
    let orth = (dx == 0 && (dy == 1 || dy == -1)) || (dy == 0 && (dx == 1 || dx == -1));
    match t {
        PieceType::Soldier => dy == fwd && (dx == 1 || dx == -1) && k == 1,
        PieceType::Jester => diag && k >= 1,
        PieceType::Commander => orth && k >= 1,
        PieceType::Paladin => orth && 1 <= k <= 2,
        PieceType::Guard => diag && 1 <= k <= 2,
        PieceType::Dragon => (((dx == 1 || dx == -1) && (dy == 2 || dy == -2)) || ((dx == 2 || dx
            == -2) && (dy == 1 || dy == -1))) && k == 1,
        PieceType::Ballista => dx == 0 && dy == fwd && k >= 1,
        PieceType::King => (diag || orth) && k == 1,
    }
}

proof fn lemma_ray_reaches(
    cells: Seq<Option<Piece>>,
    from: Position,
    color: Color,
    is_top: bool,
    has_top: bool,
    dx: int,
    dy: int,
    k0: int,
    k: int,
    range: int,
)
    requires
        cells.len() == 81,
        1 <= k0 <= k <= range,
        forall|s: int|
            k0 <= s < k ==> on_board(from.x + s * dx, from.y + s * dy) && cells[#[trigger] step_target(
                from,
                dx,
                dy,
                s,
            ).index()] is None,
        on_board(from.x + k * dx, from.y + k * dy),
        match cells[step_target(from, dx, dy, k).index()] {
            None => true,
            Some(q) => q.color != color,
        },
    ensures
        exists|j: int|
            0 <= j < ray_moves(cells, from, color, is_top, has_top, dx, dy, k0, range).len() && (
            #[trigger] ray_moves(cells, from, color, is_top, has_top, dx, dy, k0, range)[j]).from
                == from && ray_moves(cells, from, color, is_top, has_top, dx, dy, k0, range)[j].to
                == step_target(from, dx, dy, k),
    decreases k - k0,
{
    let ray = ray_moves(cells, from, color, is_top, has_top, dx, dy, k0, range);
    let to0 = step_target(from, dx, dy, k0);
    let e = explore_target(cells, from, color, to0, is_top, has_top);
    if k0 == k {
        assert(on_board(from.x + k0 * dx, from.y + k0 * dy));
        assert(ray[0] == e.0[0]);
    } else {
        assert(on_board(from.x + k0 * dx, from.y + k0 * dy) && cells[to0.index()] is None);
        let rest = ray_moves(cells, from, color, is_top, has_top, dx, dy, k0 + 1, range);
        assert(ray == e.0 + rest);
        lemma_ray_reaches(cells, from, color, is_top, has_top, dx, dy, k0 + 1, k, range);
        let j = choose|j: int|
            0 <= j < rest.len() && (#[trigger] rest[j]).from == from && rest[j].to == step_target(
                from,
                dx,
                dy,
                k,
            );
        assert(ray[j + 1] == rest[j]);
    }
}

proof fn lemma_dirs_reaches(
    cells: Seq<Option<Piece>>,
    from: Position,
    color: Color,
    is_top: bool,
    has_top: bool,
    dirs: Seq<(isize, isize)>,
    range: int,
    i: int,
    to: Position,
)
    requires
        0 <= i < dirs.len(),
        exists|j: int|
            0 <= j < ray_moves(
                cells,
                from,
                color,
                is_top,
                has_top,
                dirs[i].0 as int,
                dirs[i].1 as int,
                1,
                range,
            ).len() && (#[trigger] ray_moves(
                cells,
                from,
                color,
                is_top,
                has_top,
                dirs[i].0 as int,
                dirs[i].1 as int,
                1,
                range,
            )[j]).from == from && ray_moves(
                cells,
                from,
                color,
                is_top,
                has_top,
                dirs[i].0 as int,
                dirs[i].1 as int,
                1,
                range,
            )[j].to == to,
    ensures
        exists|j: int|
            0 <= j < dirs_moves(cells, from, color, is_top, has_top, dirs, range).len() && (
            #[trigger] dirs_moves(cells, from, color, is_top, has_top, dirs, range)[j]).from == from
                && dirs_moves(cells, from, color, is_top, has_top, dirs, range)[j].to == to,
    decreases dirs.len(),
{
    let head = dirs_moves(cells, from, color, is_top, has_top, dirs.drop_last(), range);
    let last = ray_moves(
        cells,
        from,
        color,
        is_top,
        has_top,
        dirs.last().0 as int,
        dirs.last().1 as int,
        1,
        range,
    );
    let all = dirs_moves(cells, from, color, is_top, has_top, dirs, range);
    assert(all == head + last);
    if i == dirs.len() - 1 {
        let j = choose|j: int| 0 <= j < last.len() && (#[trigger] last[j]).from == from && last[j].to == to;
        assert(all[head.len() + j] == last[j]);
    } else {
        assert(dirs.drop_last()[i] == dirs[i]);
        lemma_dirs_reaches(cells, from, color, is_top, has_top, dirs.drop_last(), range, i, to);
        let j = choose|j: int| 0 <= j < head.len() && (#[trigger] head[j]).from == from && head[j].to == to;
        assert(all[j] == head[j]);
    }
}

proof fn lemma_step_bound(from: Position, dx: int, dy: int, k: int)
    requires
        from.is_valid(),
        k >= 1,
        dx == 1 || dx == -1 || dy == 1 || dy == -1,
        on_board(from.x + k * dx, from.y + k * dy),
    ensures
        k <= 8,
{
    if dx == 1 {
        assert(k * dx == k) by (nonlinear_arith)
            requires
                dx == 1,
        ;
    } else if dx == -1 {
        assert(k * dx == -k) by (nonlinear_arith)
            requires
                dx == -1,
        ;
    } else if dy == 1 {
        assert(k * dy == k) by (nonlinear_arith)
            requires
                dy == 1,
        ;
    } else {
        assert(k * dy == -k) by (nonlinear_arith)
            requires
                dy == -1,
        ;
    }
}

proof fn lemma_rule_dir(t: PieceType, color: Color, dx: int, dy: int, k: int, from: Position)
    requires
        rule_reach(t, color, dx, dy, k),
        from.is_valid(),
        on_board(from.x + k * dx, from.y + k * dy),
    ensures
        piece_dirs(t, color).contains((dx as isize, dy as isize)),
        1 <= k <= piece_range(t),
{
    let d = piece_dirs(t, color);
    let o = seq![(1isize, 0isize), (0isize, 1isize), (-1isize, 0isize), (0isize, -1isize)];
    let g = seq![(1isize, 1isize), (1isize, -1isize), (-1isize, -1isize), (-1isize, 1isize)];
    let target = (dx as isize, dy as isize);
    lemma_step_bound(from, dx, dy, k);
    match t {
        PieceType::Soldier => {
            if dx == 1 {
                assert(d[0] == target);
            } else {
                assert(d[1] == target);
            }
        },
        PieceType::Ballista => {
            assert(d[0] == target);
        },
        PieceType::Dragon => {
            let n = seq![(2isize, 1isize), (2isize, -1isize), (-2isize, 1isize), (-2isize, -1isize), (1isize, 2isize), (1isize, -2isize), (-1isize, 2isize), (-1isize, -2isize)];
            assert(d == n);
            if dx == 2 && dy == 1 {
                assert(d[0] == target);
            } else if dx == 2 && dy == -1 {
                assert(d[1] == target);
            } else if dx == -2 && dy == 1 {
                assert(d[2] == target);
            } else if dx == -2 && dy == -1 {
                assert(d[3] == target);
            } else if dx == 1 && dy == 2 {
                assert(d[4] == target);
            } else if dx == 1 && dy == -2 {
                assert(d[5] == target);
            } else if dx == -1 && dy == 2 {
                assert(d[6] == target);
            } else {
                assert(d[7] == target);
            }
        },
        PieceType::Jester | PieceType::Guard => {
            assert(d == g);
            if dx == 1 && dy == 1 {
                assert(d[0] == target);
            } else if dx == 1 && dy == -1 {
                assert(d[1] == target);
            } else if dx == -1 && dy == -1 {
                assert(d[2] == target);
            } else {
                assert(d[3] == target);
            }
        },
        PieceType::Commander | PieceType::Paladin => {
            assert(d == o);
            if dx == 1 && dy == 0 {
                assert(d[0] == target);
            } else if dx == 0 && dy == 1 {
                assert(d[1] == target);
            } else if dx == -1 && dy == 0 {
                assert(d[2] == target);
            } else {
                assert(d[3] == target);
            }
        },
        PieceType::King => {
            assert(d == o + g);
            if dx == 1 && dy == 0 {
                assert(d[0] == target);
            } else if dx == 0 && dy == 1 {
                assert(d[1] == target);
            } else if dx == -1 && dy == 0 {
                assert(d[2] == target);
            } else if dx == 0 && dy == -1 {
                assert(d[3] == target);
            } else if dx == 1 && dy == 1 {
                assert(d[4] == target);
            } else if dx == 1 && dy == -1 {
                assert(d[5] == target);
            } else if dx == -1 && dy == -1 {
                assert(d[6] == target);
            } else {
                assert(d[7] == target);
            }
        },
    }
}

proof fn lemma_prefix_has(m: BoardModel, n: int, sq: int, j: int)
    requires
        0 <= sq < n,
        0 <= j < position_moves(m, square_position(sq)).len(),
    ensures
        exists|k: int|
            0 <= k < moves_prefix(m, n).len() && #[trigger] moves_prefix(m, n)[k] == position_moves(
                m,
                square_position(sq),
            )[j],
    decreases n,
{
    let prev = moves_prefix(m, n - 1);
    let here = position_moves(m, square_position(n - 1));
    assert(moves_prefix(m, n) == prev + here);
    if sq == n - 1 {
        assert(moves_prefix(m, n)[prev.len() + j] == here[j]);
    } else {
        lemma_prefix_has(m, n - 1, sq, j);
        let k = choose|k: int| 0 <= k < prev.len() && #[trigger] prev[k] == position_moves(
            m,
            square_position(sq),
        )[j];
        assert(moves_prefix(m, n)[k] == prev[k]);
    }
}

proof fn lemma_component_reaches(
    m: BoardModel,
    pos: Position,
    t: PieceType,
    dx: int,
    dy: int,
    k: int,
    ft: bool,
    fh: bool,
)
    requires
        m.cells.len() == 81,
        pos.is_valid(),
        m.cells[pos.index()] matches Some(p) && p.color == m.color_to_move(),
        rule_reach(t, m.color_to_move(), dx, dy, k),
        forall|s: int|
            1 <= s < k ==> on_board(pos.x + s * dx, pos.y + s * dy) && #[trigger] m.cells[(pos.y + s
                * dy) * 9 + pos.x + s * dx] is None,
        on_board(pos.x + k * dx, pos.y + k * dy),
        match m.cells[(pos.y + k * dy) * 9 + pos.x + k * dx] {
            None => true,
            Some(q) => q.color != m.color_to_move(),
        },
    ensures
        exists|j: int|
            0 <= j < dirs_moves(
                m.cells,
                pos,
                m.color_to_move(),
                ft,
                fh,
                piece_dirs(t, m.color_to_move()),
                piece_range(t),
            ).len() && (#[trigger] dirs_moves(
                m.cells,
                pos,
                m.color_to_move(),
                ft,
                fh,
                piece_dirs(t, m.color_to_move()),
                piece_range(t),
            )[j]).from == pos && dirs_moves(
                m.cells,
                pos,
                m.color_to_move(),
                ft,
                fh,
                piece_dirs(t, m.color_to_move()),
                piece_range(t),
            )[j].to == step_target(pos, dx, dy, k),
{
    let c = m.color_to_move();
    let to = step_target(pos, dx, dy, k);
    lemma_rule_dir(t, c, dx, dy, k, pos);
    let d = piece_dirs(t, c);
    let i = choose|i: int| 0 <= i < d.len() && d[i] == (dx as isize, dy as isize);
    assert(d[i].0 as int == dx && d[i].1 as int == dy);
    assert forall|s: int| 1 <= s < k implies on_board(pos.x + s * dx, pos.y + s * dy) && m.cells[
        #[trigger] step_target(pos, dx, dy, s).index()] is None by {
        assert(on_board(pos.x + s * dx, pos.y + s * dy));
        assert(m.cells[(pos.y + s * dy) * 9 + pos.x + s * dx] is None);
    }
    lemma_ray_reaches(m.cells, pos, c, ft, fh, dx, dy, 1, k, piece_range(t));
    lemma_dirs_reaches(m.cells, pos, c, ft, fh, d, piece_range(t), i, to);
}

/// Move generation misses no move the rules allow: for a piece of the side
/// to move, or the piece on top of it, every square the rules let it reach
/// (`k` steps along one of its directions, within its range) over empty
/// squares, that is empty or holds an enemy, is the destination of a
/// generated potential move from its square.
pub proof fn lemma_moves_complete(m: BoardModel, pos: Position, t: PieceType, dx: int, dy: int, k: int)
    requires
        m.wf(),
        pos.is_valid(),
        m.cells[pos.index()] matches Some(p) && p.color == m.color_to_move() && (p.bottom == t
            || p.top == Some(t)),
        rule_reach(t, m.color_to_move(), dx, dy, k),
        forall|s: int|
            1 <= s < k ==> on_board(pos.x + s * dx, pos.y + s * dy) && #[trigger] m.cells[(pos.y + s
                * dy) * 9 + pos.x + s * dx] is None,
        on_board(pos.x + k * dx, pos.y + k * dy),
        match m.cells[(pos.y + k * dy) * 9 + pos.x + k * dx] {
            None => true,
            Some(q) => q.color != m.color_to_move(),
        },
    ensures
        exists|j: int|
            0 <= j < all_moves(m).len() && (#[trigger] all_moves(m)[j]).from == pos && all_moves(
                m,
            )[j].to == (Position { x: (pos.x + k * dx) as usize, y: (pos.y + k * dy) as usize }),
{
    let p = m.cells[pos.index()].unwrap();
    let c = p.color;
    let to = step_target(pos, dx, dy, k);
    let pmoves = position_moves(m, pos);
    let top_part = match p.top {
        Some(tt) => type_moves(m.cells, pos, c, tt, true, true),
        None => seq![],
    };
    let bottom_part = type_moves(m.cells, pos, c, p.bottom, false, p.top is Some);
    assert(pmoves == top_part + bottom_part);
    let jp: int = if p.bottom == t {
        let (ft, fh) = if t == PieceType::King {
            (false, true)
        } else {
            (false, p.top is Some)
        };
        lemma_component_reaches(m, pos, t, dx, dy, k, ft, fh);
        let jt = choose|j: int|
            0 <= j < bottom_part.len() && (#[trigger] bottom_part[j]).from == pos && bottom_part[j].to
                == to;
        assert(pmoves[top_part.len() + jt] == bottom_part[jt]);
        top_part.len() + jt
    } else {
        assert(p.wf());
        assert(p.top == Some(t) && t != PieceType::King);
        lemma_component_reaches(m, pos, t, dx, dy, k, true, true);
        let jt = choose|j: int|
            0 <= j < top_part.len() && (#[trigger] top_part[j]).from == pos && top_part[j].to == to;
        assert(pmoves[jt] == top_part[jt]);
        jt
    };
    assert(pmoves[jp].from == pos && pmoves[jp].to == to);
    lemma_square_position_index(pos);
    lemma_prefix_has(m, 81, pos.index(), jp);
    let kk = choose|kk: int| 0 <= kk < moves_prefix(m, 81).len() && #[trigger] moves_prefix(m, 81)[kk]
        == position_moves(m, square_position(pos.index()))[jp];
    assert(all_moves(m)[kk] == pmoves[jp]);
}

/// A generated move is `k` steps along `(dx, dy)` from its origin, over
/// empty squares of the board.
pub open spec fn reached_along(cells: Seq<Option<Piece>>, from: Position, to: Position, dx: int, dy: int, k: int) -> bool {
    &&& k >= 1
    &&& on_board(from.x + k * dx, from.y + k * dy)
    &&& to == (Position { x: (from.x + k * dx) as usize, y: (from.y + k * dy) as usize })
    &&& forall|s: int|
        1 <= s < k ==> on_board(from.x + s * dx, from.y + s * dy) && #[trigger] cells[(from.y + s
            * dy) * 9 + from.x + s * dx] is None
}

proof fn lemma_between_on_board(from: Position, dx: int, dy: int, s: int, k: int)
    requires
        from.is_valid(),
        1 <= s < k,
        -2 <= dx <= 2,
        -2 <= dy <= 2,
        on_board(from.x + k * dx, from.y + k * dy),
    ensures
        on_board(from.x + s * dx, from.y + s * dy),
{
    assert(0 <= from.x + s * dx < 9) by (nonlinear_arith)
        requires
            0 <= from.x < 9,
            0 <= from.x + k * dx < 9,
            1 <= s < k,
    ;
    assert(0 <= from.y + s * dy < 9) by (nonlinear_arith)
        requires
            0 <= from.y < 9,
            0 <= from.y + k * dy < 9,
            1 <= s < k,
    ;
}

proof fn lemma_ray_origin(
    cells: Seq<Option<Piece>>,
    from: Position,
    color: Color,
    is_top: bool,
    has_top: bool,
    dx: int,
    dy: int,
    k0: int,
    range: int,
    idx: int,
)
    requires
        cells.len() == 81,
        from.is_valid(),
        k0 >= 1,
        -2 <= dx <= 2,
        -2 <= dy <= 2,
        0 <= idx < ray_moves(cells, from, color, is_top, has_top, dx, dy, k0, range).len(),
    ensures
        exists|k: int|
            k0 <= k <= range && #[trigger] step_target(from, dx, dy, k) == ray_moves(
                cells,
                from,
                color,
                is_top,
                has_top,
                dx,
                dy,
                k0,
                range,
            )[idx].to && on_board(from.x + k * dx, from.y + k * dy) && (forall|s: int|
                k0 <= s < k ==> on_board(from.x + s * dx, from.y + s * dy) ==> #[trigger] cells[(
                from.y + s * dy) * 9 + from.x + s * dx] is None),
        ray_moves(cells, from, color, is_top, has_top, dx, dy, k0, range)[idx].from == from,
    decreases range - k0 + 1,
{
    let ray = ray_moves(cells, from, color, is_top, has_top, dx, dy, k0, range);
    if k0 > range {
    } else if !on_board(from.x + k0 * dx, from.y + k0 * dy) {
        lemma_ray_origin(cells, from, color, is_top, has_top, dx, dy, k0 + 1, range, idx);
        let k = choose|k: int|
            k0 + 1 <= k <= range && #[trigger] step_target(from, dx, dy, k) == ray_moves(
                cells,
                from,
                color,
                is_top,
                has_top,
                dx,
                dy,
                k0 + 1,
                range,
            )[idx].to && on_board(from.x + k * dx, from.y + k * dy) && (forall|s: int|
                k0 + 1 <= s < k ==> on_board(from.x + s * dx, from.y + s * dy) ==> #[trigger] cells[(
                from.y + s * dy) * 9 + from.x + s * dx] is None);
        assert(step_target(from, dx, dy, k) == ray[idx].to);
    } else {
        let to0 = step_target(from, dx, dy, k0);
        let e = explore_target(cells, from, color, to0, is_top, has_top);
        let rest = if e.1 {
            ray_moves(cells, from, color, is_top, has_top, dx, dy, k0 + 1, range)
        } else {
            seq![]
        };
        assert(ray == e.0 + rest);
        if idx < e.0.len() {
            assert(ray[idx] == e.0[idx]);
            assert(step_target(from, dx, dy, k0) == ray[idx].to);
        } else {
            assert(ray[idx] == rest[idx - e.0.len()]);
            assert(e.1);
            assert(cells[to0.index()] is None);
            lemma_ray_origin(cells, from, color, is_top, has_top, dx, dy, k0 + 1, range, idx - e.0.len());
            let k = choose|k: int|
                k0 + 1 <= k <= range && #[trigger] step_target(from, dx, dy, k) == rest[idx
                    - e.0.len()].to && on_board(from.x + k * dx, from.y + k * dy) && (forall|s: int|
                    k0 + 1 <= s < k ==> on_board(from.x + s * dx, from.y + s * dy) ==> #[trigger] cells[(
                    from.y + s * dy) * 9 + from.x + s * dx] is None);
            assert(step_target(from, dx, dy, k) == ray[idx].to);
            assert forall|s: int|
                k0 <= s < k implies on_board(from.x + s * dx, from.y + s * dy) ==> #[trigger] cells[(
                from.y + s * dy) * 9 + from.x + s * dx] is None by {
                if s == k0 {
                    assert(to0.index() == (from.y + s * dy) * 9 + from.x + s * dx);
                }
            }
        }
    }
}

proof fn lemma_dirs_origin(
    cells: Seq<Option<Piece>>,
    from: Position,
    color: Color,
    is_top: bool,
    has_top: bool,
    dirs: Seq<(isize, isize)>,
    range: int,
    idx: int,
)
    requires
        0 <= idx < dirs_moves(cells, from, color, is_top, has_top, dirs, range).len(),
    ensures
        exists|i: int, r: int|
            0 <= i < dirs.len() && 0 <= r < ray_moves(
                cells,
                from,
                color,
                is_top,
                has_top,
                dirs[i].0 as int,
                dirs[i].1 as int,
                1,
                range,
            ).len() && #[trigger] ray_moves(
                cells,
                from,
                color,
                is_top,
                has_top,
                dirs[i].0 as int,
                dirs[i].1 as int,
                1,
                range,
            )[r] == dirs_moves(cells, from, color, is_top, has_top, dirs, range)[idx],
    decreases dirs.len(),
{
    let head = dirs_moves(cells, from, color, is_top, has_top, dirs.drop_last(), range);
    let n = dirs.len() - 1;
    let last = ray_moves(
        cells,
        from,
        color,
        is_top,
        has_top,
        dirs[n].0 as int,
        dirs[n].1 as int,
        1,
        range,
    );
    let all = dirs_moves(cells, from, color, is_top, has_top, dirs, range);
    assert(all == head + last);
    if idx >= head.len() {
        assert(all[idx] == last[idx - head.len()]);
    } else {
        lemma_dirs_origin(cells, from, color, is_top, has_top, dirs.drop_last(), range, idx);
        let (i, r) = choose|i: int, r: int|
            0 <= i < dirs.drop_last().len() && 0 <= r < ray_moves(
                cells,
                from,
                color,
                is_top,
                has_top,
                dirs.drop_last()[i].0 as int,
                dirs.drop_last()[i].1 as int,
                1,
                range,
            ).len() && #[trigger] ray_moves(
                cells,
                from,
                color,
                is_top,
                has_top,
                dirs.drop_last()[i].0 as int,
                dirs.drop_last()[i].1 as int,
                1,
                range,
            )[r] == head[idx];
        assert(dirs.drop_last()[i] == dirs[i]);
        assert(all[idx] == head[idx]);
    }
}

proof fn lemma_dir_rule(t: PieceType, c: Color, i: int, k: int)
    requires
        0 <= i < piece_dirs(t, c).len(),
        1 <= k <= piece_range(t),
    ensures
        rule_reach(t, c, piece_dirs(t, c)[i].0 as int, piece_dirs(t, c)[i].1 as int, k),
{
    let o = seq![(1isize, 0isize), (0isize, 1isize), (-1isize, 0isize), (0isize, -1isize)];
    let g = seq![(1isize, 1isize), (1isize, -1isize), (-1isize, -1isize), (-1isize, 1isize)];
    let d = piece_dirs(t, c);
    match t {
        PieceType::Jester | PieceType::Guard => {
            assert(d == g);
        },
        PieceType::Commander | PieceType::Paladin => {
            assert(d == o);
        },
        PieceType::King => {
            assert(d == o + g);
            if i < 4 {
                assert(d[i] == o[i]);
            } else {
                assert(d[i] == g[i - 4]);
            }
        },
        PieceType::Dragon => {
            let n = seq![(2isize, 1isize), (2isize, -1isize), (-2isize, 1isize), (-2isize, -1isize), (1isize, 2isize), (1isize, -2isize), (-1isize, 2isize), (-1isize, -2isize)];
            assert(d == n);
        },
        _ => {},
    }
}

proof fn lemma_prefix_origin(m: BoardModel, n: int, idx: int)
    requires
        0 <= n <= 81,
        0 <= idx < moves_prefix(m, n).len(),
    ensures
        exists|sq: int, jj: int|
            0 <= sq < n && 0 <= jj < position_moves(m, square_position(sq)).len() && #[trigger] position_moves(
                m,
                square_position(sq),
            )[jj] == moves_prefix(m, n)[idx],
    decreases n,
{
    let prev = moves_prefix(m, n - 1);
    let here = position_moves(m, square_position(n - 1));
    assert(moves_prefix(m, n) == prev + here);
    if idx >= prev.len() {
        assert(moves_prefix(m, n)[idx] == here[idx - prev.len()]);
    } else {
        lemma_prefix_origin(m, n - 1, idx);
        assert(moves_prefix(m, n)[idx] == prev[idx]);
    }
}

proof fn lemma_component_origin(
    m: BoardModel,
    pos: Position,
    t: PieceType,
    ft: bool,
    fh: bool,
    idx: int,
)
    requires
        m.cells.len() == 81,
        pos.is_valid(),
        0 <= idx < dirs_moves(
            m.cells,
            pos,
            m.color_to_move(),
            ft,
            fh,
            piece_dirs(t, m.color_to_move()),
            piece_range(t),
        ).len(),
    ensures
        ({
            let pm = dirs_moves(
                m.cells,
                pos,
                m.color_to_move(),
                ft,
                fh,
                piece_dirs(t, m.color_to_move()),
                piece_range(t),
            )[idx];
            &&& pm.from == pos
            &&& exists|dx: int, dy: int, k: int|
                #[trigger] rule_reach(t, m.color_to_move(), dx, dy, k) && reached_along(
                    m.cells,
                    pos,
                    pm.to,
                    dx,
                    dy,
                    k,
                )
        }),
{
    let c = m.color_to_move();
    let d = piece_dirs(t, c);
    let range = piece_range(t);
    let pm = dirs_moves(m.cells, pos, c, ft, fh, d, range)[idx];
    lemma_dirs_origin(m.cells, pos, c, ft, fh, d, range, idx);
    let (i, r) = choose|i: int, r: int|
        0 <= i < d.len() && 0 <= r < ray_moves(
            m.cells,
            pos,
            c,
            ft,
            fh,
            d[i].0 as int,
            d[i].1 as int,
            1,
            range,
        ).len() && #[trigger] ray_moves(
            m.cells,
            pos,
            c,
            ft,
            fh,
            d[i].0 as int,
            d[i].1 as int,
            1,
            range,
        )[r] == pm;
    let dx = d[i].0 as int;
    let dy = d[i].1 as int;
    lemma_piece_dirs_good(t, c);
    assert(-2 <= dx <= 2 && -2 <= dy <= 2);
    lemma_ray_origin(m.cells, pos, c, ft, fh, dx, dy, 1, range, r);
    let k = choose|k: int|
        1 <= k <= range && #[trigger] step_target(pos, dx, dy, k) == ray_moves(
            m.cells,
            pos,
            c,
            ft,
            fh,
            dx,
            dy,
            1,
            range,
        )[r].to && on_board(pos.x + k * dx, pos.y + k * dy) && (forall|s: int|
            1 <= s < k ==> on_board(pos.x + s * dx, pos.y + s * dy) ==> #[trigger] m.cells[(pos.y
                + s * dy) * 9 + pos.x + s * dx] is None);
    lemma_dir_rule(t, c, i, k);
    assert forall|s: int|
        1 <= s < k implies on_board(pos.x + s * dx, pos.y + s * dy) && #[trigger] m.cells[(pos.y + s
            * dy) * 9 + pos.x + s * dx] is None by {
        lemma_between_on_board(pos, dx, dy, s, k);
    }
    assert(reached_along(m.cells, pos, pm.to, dx, dy, k));
    assert(rule_reach(t, c, dx, dy, k));
}

/// Move generation offers no move the rules forbid: every generated
/// potential move starts on a piece of the side to move and goes, for the
/// piece or the piece on top of it, `k` steps along one of its directions
/// within its range, over empty squares of the board.
pub proof fn lemma_moves_sound(m: BoardModel, j: int)
    requires
        m.wf(),
        0 <= j < all_moves(m).len(),
    ensures
        ({
            let pm = all_moves(m)[j];
            &&& pm.from.is_valid()
            &&& m.cells[pm.from.index()] matches Some(p) && p.color == m.color_to_move()
            &&& exists|t: PieceType, dx: int, dy: int, k: int|
                #[trigger] rule_reach(t, m.color_to_move(), dx, dy, k) && (
                m.cells[pm.from.index()].unwrap().bottom == t || m.cells[pm.from.index()].unwrap().top
                    == Some(t)) && reached_along(m.cells, pm.from, pm.to, dx, dy, k)
        }),
{
    let pm = all_moves(m)[j];
    lemma_prefix_origin(m, 81, j);
    let (sq, jj) = choose|sq: int, jj: int|
        0 <= sq < 81 && 0 <= jj < position_moves(m, square_position(sq)).len() && #[trigger] position_moves(
            m,
            square_position(sq),
        )[jj] == moves_prefix(m, 81)[j];
    let pos = square_position(sq);
    assert(pos.is_valid());
    assert(pos.index() == sq);
    let pmoves = position_moves(m, pos);
    let p = m.cells[sq].unwrap();
    let c = m.color_to_move();
    assert(m.cells[sq] is Some && p.color == c);
    let top_part = match p.top {
        Some(tt) => type_moves(m.cells, pos, c, tt, true, true),
        None => seq![],
    };
    let bottom_part = type_moves(m.cells, pos, c, p.bottom, false, p.top is Some);
    assert(pmoves == top_part + bottom_part);
    if jj < top_part.len() {
        let tt = p.top.unwrap();
        assert(p.wf());
        assert(tt != PieceType::King);
        assert(pmoves[jj] == top_part[jj]);
        lemma_component_origin(m, pos, tt, true, true, jj);
        let (dx, dy, k) = choose|dx: int, dy: int, k: int|
            #[trigger] rule_reach(tt, c, dx, dy, k) && reached_along(m.cells, pos, pm.to, dx, dy, k);
        assert(rule_reach(tt, c, dx, dy, k) && (p.bottom == tt || p.top == Some(tt)));
    } else {
        let bt = p.bottom;
        let (ft, fh) = if bt == PieceType::King {
            (false, true)
        } else {
            (false, p.top is Some)
        };
        assert(bottom_part == dirs_moves(m.cells, pos, c, ft, fh, piece_dirs(bt, c), piece_range(bt)));
        assert(pmoves[jj] == bottom_part[jj - top_part.len()]);
        lemma_component_origin(m, pos, bt, ft, fh, jj - top_part.len());
        let (dx, dy, k) = choose|dx: int, dy: int, k: int|
            #[trigger] rule_reach(bt, c, dx, dy, k) && reached_along(m.cells, pos, pm.to, dx, dy, k);
        assert(rule_reach(bt, c, dx, dy, k) && (p.bottom == bt || p.top == Some(bt)));
    }
}

} // verus!
