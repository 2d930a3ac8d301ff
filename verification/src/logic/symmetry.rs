//! A king alone on the board: its legal moves, and how they mirror when the
//! colours are exchanged and the board is turned upside down.

use crate::logic::move_computer::{attacks, go, promoted};
use crate::models::board::{lemma_location_place, BoardView, Grid};
use crate::models::field_content::FieldContent;
use crate::models::location::Location;
use crate::models::piece::{
    capabilities, diagonal_directions, free_move, opponent, straight_directions, ColoredPiece,
    PieceColor, PieceKind,
};
use crate::models::step::{target_of, Direction, StepKind};
use crate::utils::sequences::{
    lemma_filter_keeps_all, lemma_filter_keeps_none, lemma_flatten_all, lemma_flatten_eight,
    lemma_flatten_nothing, lemma_flatten_single,
};
use vstd::prelude::*;

verus! {

/// The square that `loc` becomes when a board of `height` ranks is turned
/// upside down.
pub open spec fn mirrored(height: usize, loc: Location) -> Location {
    Location { x: loc.x, y: (height - 1 - loc.y) as usize }
}

/// The board of the given size that holds a king of `color` on `at` and
/// nothing else.
pub open spec fn lone_king(
    width: usize,
    height: usize,
    at: Location,
    color: PieceColor,
    stamp: usize,
) -> Grid {
    Grid::empty(width, height).put(
        at,
        FieldContent::Occupied { piece: ColoredPiece { kind: PieceKind::King, color }, turn: stamp },
    )
}

/// The eight directions of a king, in the order of the movement table.
pub open spec fn king_directions() -> Seq<Direction> {
    diagonal_directions() + straight_directions()
}

/// The step of a piece on `from` to the neighbouring square in one
/// direction, where that square is on the board.
pub open spec fn step_towards(grid: Grid, from: Location) -> spec_fn(Direction) -> Seq<StepKind> {
    |direction: Direction|
        match grid.neighbour(from, direction) {
            Some(to) => seq![go(from, to)],
            None => Seq::empty(),
        }
}

/// The steps from `from` to each neighbouring square of the board.
pub open spec fn neighbour_steps(grid: Grid, from: Location) -> Seq<StepKind> {
    king_directions().map_values(step_towards(grid, from)).flatten()
}

/// A move of two lists ends on a square if a move of either does.
pub proof fn lemma_attacks_concat(a: Seq<StepKind>, b: Seq<StepKind>, loc: Location)
    ensures
        attacks(a + b, loc) <==> attacks(a, loc) || attacks(b, loc),
{
    let joined = a + b;
    if attacks(a, loc) {
        let i = choose|i: int| 0 <= i < a.len() && target_of(#[trigger] a[i]) == Some(loc);
        assert(joined[i] == a[i]);
    }
    if attacks(b, loc) {
        let i = choose|i: int| 0 <= i < b.len() && target_of(#[trigger] b[i]) == Some(loc);
        assert(joined[a.len() + i] == b[i]);
    }
    if attacks(joined, loc) {
        let i = choose|i: int|
            0 <= i < joined.len() && target_of(#[trigger] joined[i]) == Some(loc);
        if i < a.len() {
            assert(a[i] == joined[i]);
        } else {
            assert(b[i - a.len()] == joined[i]);
        }
    }
}

/// A side without pieces has no moves.
pub proof fn lemma_no_pieces_no_steps(grid: Grid, color: PieceColor)
    requires
        forall|loc: Location|
            match #[trigger] grid.piece_at(loc) {
                Some(piece) => piece.color != color,
                None => true,
            },
    ensures
        grid.simple_steps(color) =~= Seq::<StepKind>::empty(),
{
    let parts = grid.locations().map_values(grid.steps_from(color));
    assert forall|i: int| 0 <= i < parts.len() implies (#[trigger] parts[i]).len() == 0 by {
        let loc = grid.locations()[i];
        assert(parts[i] == grid.field_steps(loc, color));
        assert(match grid.piece_at(loc) {
            Some(piece) => piece.color != color,
            None => true,
        });
    }
    lemma_flatten_nothing(parts);
}

/// Where a side has a single piece, its moves are the moves of that piece.
pub proof fn lemma_single_piece_steps(grid: Grid, at: Location, color: PieceColor)
    requires
        grid.in_bounds(at),
        forall|loc: Location|
            loc != at ==> match #[trigger] grid.piece_at(loc) {
                Some(piece) => piece.color != color,
                None => true,
            },
    ensures
        grid.simple_steps(color) =~= grid.field_steps(at, color),
{
    let parts = grid.locations().map_values(grid.steps_from(color));
    lemma_location_place(grid, at);
    let j = at.y * grid.width + at.x;
    assert forall|i: int| 0 <= i < parts.len() && i != j implies (#[trigger] parts[i]).len()
        == 0 by {
        let loc = grid.locations()[i];
        assert(parts[i] == grid.field_steps(loc, color));
        assert(loc != at);
        assert(match grid.piece_at(loc) {
            Some(piece) => piece.color != color,
            None => true,
        });
    }
    lemma_flatten_single(parts, j);
    assert(parts[j] == grid.field_steps(at, color));
}

/// A king with no piece beside it can step onto each neighbouring square.
pub proof fn lemma_free_king_steps(grid: Grid, at: Location, color: PieceColor)
    requires
        grid.is_king_of(at, color),
        forall|loc: Location| loc != at ==> #[trigger] grid.piece_at(loc) is None,
    ensures
        grid.field_steps(at, color) =~= neighbour_steps(grid, at),
{
    let king = ColoredPiece { kind: PieceKind::King, color };
    let caps = capabilities(king);
    let by_cap = caps.map_values(grid.walk(at, color));
    let by_direction = king_directions().map_values(step_towards(grid, at));
    assert(by_cap.len() == by_direction.len());
    assert forall|i: int| 0 <= i < by_cap.len() implies #[trigger] by_cap[i] == by_direction[i] by {
        let direction = king_directions()[i];
        let cap = caps[i];
        assert(cap == free_move(direction, 1));
        assert(direction.0 != 0 || direction.1 != 0);
        reveal_with_fuel(Grid::ray, 3);
        match grid.neighbour(at, direction) {
            Some(to) => {
                assert(to != at);
                assert(grid.piece_at(to) is None);
                assert(grid.ray(at, to, 0, color, cap) =~= Seq::<StepKind>::empty());
                assert(grid.ray(at, at, 1, color, cap) =~= seq![go(at, to)]);
            },
            None => {
                assert(grid.ray(at, at, 1, color, cap) =~= Seq::<StepKind>::empty());
            },
        }
        assert(by_cap[i] =~= by_direction[i]);
    }
    assert(by_cap =~= by_direction);
}

/// Whether a move is an ordinary move from `at` to another square of the
/// board.
pub open spec fn is_step_from(grid: Grid, at: Location, kind: StepKind) -> bool {
    match kind {
        StepKind::GoTo(step) => step.from == at && step.to != at && grid.in_bounds(step.to),
        _ => false,
    }
}

/// The steps to the neighbouring squares are moves to other squares.
pub proof fn lemma_neighbour_steps_leave(grid: Grid, at: Location)
    ensures
        forall|k: int|
            0 <= k < neighbour_steps(grid, at).len() ==> is_step_from(
                grid,
                at,
                #[trigger] neighbour_steps(grid, at)[k],
            ),
{
    let leaves = |kind: StepKind| is_step_from(grid, at, kind);
    let by_direction = king_directions().map_values(step_towards(grid, at));
    assert forall|i: int, j: int|
        0 <= i < by_direction.len() && 0 <= j < by_direction[i].len() implies leaves(
        #[trigger] by_direction[i][j],
    ) by {
        let direction = king_directions()[i];
        assert(direction.0 != 0 || direction.1 != 0);
    }
    lemma_flatten_all(by_direction, leaves);
}

/// Moves of which none is a promotion stay as they are.
pub proof fn lemma_nothing_to_promote(grid: Grid, steps: Seq<StepKind>)
    requires
        forall|k: int| 0 <= k < steps.len() ==> !grid.is_promotion(#[trigger] steps[k]),
    ensures
        grid.with_promotions(steps) == steps,
{
    assert forall|k: int| 0 <= k < steps.len() implies grid.stays()(#[trigger] steps[k]) by {
        assert(!grid.is_promotion(steps[k]));
    }
    lemma_filter_keeps_all(steps, grid.stays());
    assert forall|k: int| 0 <= k < steps.len() implies !grid.promotes()(#[trigger] steps[k]) by {
        assert(!grid.is_promotion(steps[k]));
    }
    lemma_filter_keeps_none(steps, grid.promotes());
    assert(steps.filter(grid.promotes()).reverse() =~= Seq::<StepKind>::empty());
    assert(steps.filter(grid.promotes()).reverse().map_values(promoted()) =~= Seq::<
        Seq<StepKind>,
    >::empty());
    assert(grid.with_promotions(steps) =~= steps);
}

/// A king that stands alone cannot castle.
pub proof fn lemma_lone_king_cannot_castle(
    width: usize,
    height: usize,
    at: Location,
    color: PieceColor,
    stamp: usize,
)
    ensures
        lone_king(width, height, at, color, stamp).castles(color) =~= Seq::<StepKind>::empty(),
{
    let grid = lone_king(width, height, at, color, stamp);
    let rank = grid.castle_rank(color);
    let first = Location { x: 0, y: rank };
    let last = Location { x: (width - 1) as usize, y: rank };
    assert(grid.piece_at(first) != Some(ColoredPiece { kind: PieceKind::Rook, color }));
    assert(grid.piece_at(last) != Some(ColoredPiece { kind: PieceKind::Rook, color }));
    assert(!grid.can_castle_long(color));
    assert(!grid.can_castle_short(color));
}

/// A king that stands alone is not in check after a step.
pub proof fn lemma_lone_king_step_is_safe(
    width: usize,
    height: usize,
    at: Location,
    color: PieceColor,
    stamp: usize,
    turn: usize,
    kind: StepKind,
)
    requires
        at.x < width,
        at.y < height,
        (BoardView { grid: lone_king(width, height, at, color, stamp), turn }).turn_color()
            == color,
        is_step_from(lone_king(width, height, at, color, stamp), at, kind),
    ensures
        !(BoardView { grid: lone_king(width, height, at, color, stamp), turn }).leaves_in_check(
            kind,
        ),
{
    let grid = lone_king(width, height, at, color, stamp);
    let board = BoardView { grid, turn };
    let after = board.grid_after(kind);
    assert forall|loc: Location|
        match #[trigger] after.piece_at(loc) {
            Some(piece) => piece.color != opponent(color),
            None => true,
        } by {}
    lemma_no_pieces_no_steps(after, opponent(color));
}

/// The moves that the geometry allows a king that stands alone are its
/// steps onto the neighbouring squares.
pub proof fn lemma_lone_king_simple_steps(
    width: usize,
    height: usize,
    at: Location,
    color: PieceColor,
    stamp: usize,
)
    requires
        at.x < width,
        at.y < height,
    ensures
        lone_king(width, height, at, color, stamp).simple_steps(color) == neighbour_steps(
            lone_king(width, height, at, color, stamp),
            at,
        ),
{
    let grid = lone_king(width, height, at, color, stamp);
    assert(grid.is_king_of(at, color));
    assert forall|loc: Location| loc != at implies #[trigger] grid.piece_at(loc) is None by {}
    lemma_single_piece_steps(grid, at, color);
    lemma_free_king_steps(grid, at, color);
}

/// The candidates of a king that stands alone are its steps onto the
/// neighbouring squares.
pub proof fn lemma_lone_king_candidates(
    width: usize,
    height: usize,
    at: Location,
    color: PieceColor,
    stamp: usize,
    turn: usize,
)
    requires
        at.x < width,
        at.y < height,
        (BoardView { grid: lone_king(width, height, at, color, stamp), turn }).turn_color()
            == color,
    ensures
        (BoardView { grid: lone_king(width, height, at, color, stamp), turn }).candidates()
            == neighbour_steps(lone_king(width, height, at, color, stamp), at),
{
    let grid = lone_king(width, height, at, color, stamp);
    let board = BoardView { grid, turn };
    let steps = neighbour_steps(grid, at);
    lemma_lone_king_simple_steps(width, height, at, color, stamp);
    lemma_neighbour_steps_leave(grid, at);
    assert(grid.piece_at(at) == Some(ColoredPiece { kind: PieceKind::King, color }));
    assert forall|k: int| 0 <= k < steps.len() implies !grid.is_promotion(#[trigger] steps[k]) by {
        assert(is_step_from(grid, at, steps[k]));
    }
    lemma_nothing_to_promote(grid, steps);
    lemma_lone_king_cannot_castle(width, height, at, color, stamp);
    assert(board.candidates() =~= steps);
}

/// The legal moves of a king that stands alone on the board are its steps
/// onto the neighbouring squares.
pub proof fn lemma_lone_king_legal_steps(
    width: usize,
    height: usize,
    at: Location,
    color: PieceColor,
    stamp: usize,
    turn: usize,
)
    requires
        at.x < width,
        at.y < height,
        (BoardView { grid: lone_king(width, height, at, color, stamp), turn }).turn_color()
            == color,
    ensures
        (BoardView { grid: lone_king(width, height, at, color, stamp), turn }).legal_steps()
            == neighbour_steps(lone_king(width, height, at, color, stamp), at),
{
    let grid = lone_king(width, height, at, color, stamp);
    let board = BoardView { grid, turn };
    let steps = neighbour_steps(grid, at);
    lemma_lone_king_candidates(width, height, at, color, stamp, turn);
    lemma_neighbour_steps_leave(grid, at);
    assert forall|k: int| 0 <= k < steps.len() implies board.is_safe()(#[trigger] steps[k]) by {
        assert(is_step_from(grid, at, steps[k]));
        lemma_lone_king_step_is_safe(width, height, at, color, stamp, turn, steps[k]);
    }
    lemma_filter_keeps_all(steps, board.is_safe());
}

/// Whether one of the steps from `from` to a neighbouring square ends on `loc`.
pub proof fn lemma_neighbour_steps_reach(grid: Grid, from: Location, loc: Location)
    ensures
        attacks(neighbour_steps(grid, from), loc) <==> exists|i: int|
            0 <= i < 8 && grid.neighbour(from, #[trigger] king_directions()[i]) == Some(loc),
        neighbour_steps(grid, from).len() == count_towards(grid, from, 8),
{
    let f = step_towards(grid, from);
    let d = king_directions();
    lemma_flatten_eight(d, f);
    let s0 = f(d[0]);
    let s1 = s0 + f(d[1]);
    let s2 = s1 + f(d[2]);
    let s3 = s2 + f(d[3]);
    let s4 = s3 + f(d[4]);
    let s5 = s4 + f(d[5]);
    let s6 = s5 + f(d[6]);
    let s7 = s6 + f(d[7]);
    lemma_attacks_concat(s0, f(d[1]), loc);
    lemma_attacks_concat(s1, f(d[2]), loc);
    lemma_attacks_concat(s2, f(d[3]), loc);
    lemma_attacks_concat(s3, f(d[4]), loc);
    lemma_attacks_concat(s4, f(d[5]), loc);
    lemma_attacks_concat(s5, f(d[6]), loc);
    lemma_attacks_concat(s6, f(d[7]), loc);
    assert forall|i: int| 0 <= i < 8 implies (attacks(#[trigger] f(d[i]), loc) <==> grid.neighbour(
        from,
        d[i],
    ) == Some(loc)) by {
        match grid.neighbour(from, d[i]) {
            Some(to) => {
                assert(f(d[i])[0] == go(from, to));
            },
            None => {},
        }
    }
    reveal_with_fuel(count_towards, 9);
}

/// How many of the first `n` directions of a king lead from `from` to a
/// square of the board.
pub open spec fn count_towards(grid: Grid, from: Location, n: nat) -> nat
    decreases n,
{
    if n == 0 {
        0
    } else {
        count_towards(grid, from, (n - 1) as nat) + (if grid.neighbour(
            from,
            king_directions()[n - 1],
        ) is Some {
            1nat
        } else {
            0nat
        })
    }
}

/// A square has as many neighbours on the board as its mirrored square.
proof fn lemma_mirrored_count(grid: Grid, mirror_grid: Grid, at: Location)
    requires
        grid.width == mirror_grid.width,
        grid.height == mirror_grid.height,
        grid.in_bounds(at),
    ensures
        count_towards(grid, at, 8) == count_towards(mirror_grid, mirrored(grid.height, at), 8),
{
    let d = king_directions();
    let other = mirrored(grid.height, at);
    reveal_with_fuel(count_towards, 9);
    assert(grid.neighbour(at, d[0]) is Some <==> mirror_grid.neighbour(other, d[1]) is Some);
    assert(grid.neighbour(at, d[1]) is Some <==> mirror_grid.neighbour(other, d[0]) is Some);
    assert(grid.neighbour(at, d[2]) is Some <==> mirror_grid.neighbour(other, d[3]) is Some);
    assert(grid.neighbour(at, d[3]) is Some <==> mirror_grid.neighbour(other, d[2]) is Some);
    assert(grid.neighbour(at, d[4]) is Some <==> mirror_grid.neighbour(other, d[5]) is Some);
    assert(grid.neighbour(at, d[5]) is Some <==> mirror_grid.neighbour(other, d[4]) is Some);
    assert(grid.neighbour(at, d[6]) is Some <==> mirror_grid.neighbour(other, d[6]) is Some);
    assert(grid.neighbour(at, d[7]) is Some <==> mirror_grid.neighbour(other, d[7]) is Some);
}

/// A king that stands alone has as many legal moves as a king of the other
/// colour that stands alone on the mirrored square, and the squares on
/// which the moves of one end are the mirrored squares of the other.
pub proof fn lemma_lone_king_symmetry(
    width: usize,
    height: usize,
    at: Location,
    color: PieceColor,
    stamp: usize,
    turn: usize,
    mirror_stamp: usize,
    mirror_turn: usize,
)
    requires
        at.x < width,
        at.y < height,
        (BoardView { grid: lone_king(width, height, at, color, stamp), turn }).turn_color()
            == color,
        (BoardView {
            grid: lone_king(width, height, mirrored(height, at), opponent(color), mirror_stamp),
            turn: mirror_turn,
        }).turn_color() == opponent(color),
    ensures
        ({
            let moves = (BoardView {
                grid: lone_king(width, height, at, color, stamp),
                turn,
            }).legal_steps();
            let mirror_moves = (BoardView {
                grid: lone_king(width, height, mirrored(height, at), opponent(color), mirror_stamp),
                turn: mirror_turn,
            }).legal_steps();
            &&& moves.len() == mirror_moves.len()
            &&& forall|loc: Location|
                loc.x < width && loc.y < height ==> (attacks(moves, loc) <==> attacks(
                    mirror_moves,
                    mirrored(height, loc),
                ))
        }),
{
    let grid = lone_king(width, height, at, color, stamp);
    let other = mirrored(height, at);
    let mirror_grid = lone_king(width, height, other, opponent(color), mirror_stamp);
    lemma_lone_king_legal_steps(width, height, at, color, stamp, turn);
    lemma_lone_king_legal_steps(width, height, other, opponent(color), mirror_stamp, mirror_turn);
    let moves = neighbour_steps(grid, at);
    let mirror_moves = neighbour_steps(mirror_grid, other);
    assert forall|loc: Location| loc.x < width && loc.y < height implies (attacks(moves, loc)
        <==> attacks(mirror_moves, mirrored(height, loc))) by {
        lemma_neighbour_steps_reach(grid, at, loc);
        lemma_neighbour_steps_reach(mirror_grid, other, mirrored(height, loc));
        lemma_mirrored_neighbours(width, height, grid, mirror_grid, at, loc);
    }
    lemma_neighbour_steps_reach(grid, at, at);
    lemma_neighbour_steps_reach(mirror_grid, other, other);
    lemma_mirrored_count(grid, mirror_grid, at);
}

/// A neighbour of a square in one direction is mirrored into the neighbour
/// of the mirrored square in the mirrored direction.
proof fn lemma_mirrored_neighbours(
    width: usize,
    height: usize,
    grid: Grid,
    mirror_grid: Grid,
    at: Location,
    loc: Location,
)
    requires
        grid.width == width,
        grid.height == height,
        mirror_grid.width == width,
        mirror_grid.height == height,
        at.x < width,
        at.y < height,
        loc.x < width,
        loc.y < height,
    ensures
        (exists|i: int|
            0 <= i < 8 && grid.neighbour(at, #[trigger] king_directions()[i]) == Some(loc)) <==> (
        exists|i: int|
            0 <= i < 8 && mirror_grid.neighbour(
                mirrored(height, at),
                #[trigger] king_directions()[i],
            ) == Some(mirrored(height, loc))),
{
    let d = king_directions();
    let other = mirrored(height, at);
    let target = mirrored(height, loc);
    let flip = |i: int|
        if i == 0 {
            1int
        } else if i == 1 {
            0int
        } else if i == 2 {
            3int
        } else if i == 3 {
            2int
        } else if i == 4 {
            5int
        } else if i == 5 {
            4int
        } else {
            i
        };
    assert forall|i: int| 0 <= i < 8 implies ((grid.neighbour(at, d[i]) == Some(loc))
        <==> #[trigger] mirror_grid.neighbour(other, d[flip(i)]) == Some(target)) by {}
    if exists|i: int| 0 <= i < 8 && grid.neighbour(at, #[trigger] d[i]) == Some(loc) {
        let i = choose|i: int| 0 <= i < 8 && grid.neighbour(at, #[trigger] d[i]) == Some(loc);
        assert(mirror_grid.neighbour(other, d[flip(i)]) == Some(target));
    }
    if exists|i: int| 0 <= i < 8 && mirror_grid.neighbour(other, #[trigger] d[i]) == Some(target) {
        let i = choose|i: int|
            0 <= i < 8 && mirror_grid.neighbour(other, #[trigger] d[i]) == Some(target);
        assert(flip(flip(i)) == i);
        assert(mirror_grid.neighbour(other, d[flip(flip(i))]) == Some(target));
        assert(grid.neighbour(at, d[flip(i)]) == Some(loc));
    }
}

} // verus!
