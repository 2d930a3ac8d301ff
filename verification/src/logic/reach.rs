//! Which squares a piece reaches: the moves of the generator said without
//! the walk that finds them.

use crate::logic::legality::lemma_castling_options;
use crate::logic::move_computer::{attacks, budget_after, go, promoted};
use crate::models::board::{lemma_location_place, BoardView, Grid};
use crate::models::location::Location;
use crate::models::piece::{
    capabilities, opponent, MoveCapability, PieceColor, PieceKind, UNBOUNDED,
};
use crate::models::step::{
    long_castle, promotions, short_castle, target_of, Direction, StepKind,
};
use crate::utils::sequences::{
    lemma_concat_contains, lemma_filter_contains, lemma_flatten_all, lemma_flatten_contains,
    lemma_reverse_contains,
};
use vstd::prelude::*;

verus! {

impl Grid {
    /// The square that lies `n` times `direction` away from `from`, where
    /// every square on the way there is on the board.
    pub open spec fn nth_along(self, from: Location, direction: Direction, n: nat) -> Option<
        Location,
    >
        decreases n,
    {
        if n == 0 {
            Some(from)
        } else {
            match self.neighbour(from, direction) {
                Some(next) => self.nth_along(next, direction, (n - 1) as nat),
                None => None,
            }
        }
    }

    /// Whether the square `m` times `direction` away from `from` is an
    /// empty square of the board.
    pub open spec fn is_free_along(self, from: Location, direction: Direction, m: nat) -> bool {
        match self.nth_along(from, direction, m) {
            Some(between) => self.piece_at(between) is None,
            None => false,
        }
    }

    /// Whether a capability takes a piece of `color` from `from` to `to` in
    /// `n` squares, with a budget of `budget` squares.
    ///
    /// The capability has a direction, the budget covers `n` squares, `to`
    /// is the `n`th square along the direction, and the squares before it
    /// are empty. A capability that must take goes no further than one
    /// square. On `to` there is an enemy piece, where the capability can
    /// take, or nothing, unless it must take.
    pub open spec fn reaches(
        self,
        from: Location,
        to: Location,
        n: nat,
        budget: int,
        color: PieceColor,
        cap: MoveCapability,
    ) -> bool {
        &&& n >= 1
        &&& (cap.direction.0 != 0 || cap.direction.1 != 0)
        &&& (budget == UNBOUNDED || n <= budget)
        &&& self.nth_along(from, cap.direction, n) == Some(to)
        &&& forall|m: nat| 1 <= m < n ==> #[trigger] self.is_free_along(from, cap.direction, m)
        &&& (n > 1 ==> !cap.must_take)
        &&& match self.piece_at(to) {
            Some(piece) => cap.can_take && piece.color != color,
            None => !cap.must_take,
        }
    }

    /// Whether a piece of `color` on `from` has a capability that takes it
    /// to `to`.
    pub open spec fn can_reach(self, from: Location, to: Location, color: PieceColor) -> bool {
        match self.piece_at(from) {
            Some(piece) => piece.color == color && exists|i: int, n: nat|
                0 <= i < capabilities(piece).len() && #[trigger] self.reaches(
                    from,
                    to,
                    n,
                    capabilities(piece)[i].distance as int,
                    color,
                    capabilities(piece)[i],
                ),
            None => false,
        }
    }
}

/// Reaching a square in more than one step is reaching it from the next
/// square in one step less, where the next square is empty and the
/// capability need not take.
proof fn lemma_reaches_shift(
    grid: Grid,
    current: Location,
    next: Location,
    to: Location,
    n: nat,
    budget: int,
    color: PieceColor,
    cap: MoveCapability,
)
    requires
        n >= 2,
        grid.neighbour(current, cap.direction) == Some(next),
        grid.piece_at(next) is None,
        !cap.must_take,
        budget == UNBOUNDED || budget > 0,
    ensures
        grid.reaches(current, to, n, budget, color, cap) <==> grid.reaches(
            next,
            to,
            (n - 1) as nat,
            budget_after(budget),
            color,
            cap,
        ),
{
    let d = cap.direction;
    assert(grid.nth_along(current, d, n) == grid.nth_along(next, d, (n - 1) as nat));
    assert(grid.nth_along(current, d, 1) == Some(next)) by {
        reveal_with_fuel(Grid::nth_along, 2);
    }
    if grid.reaches(current, to, n, budget, color, cap) {
        assert forall|m: nat| 1 <= m < n - 1 implies #[trigger] grid.is_free_along(next, d, m) by {
            assert(grid.is_free_along(current, d, m + 1));
            assert(grid.nth_along(current, d, m + 1) == grid.nth_along(next, d, m));
        }
    }
    if grid.reaches(next, to, (n - 1) as nat, budget_after(budget), color, cap) {
        assert forall|m: nat| 1 <= m < n implies #[trigger] grid.is_free_along(current, d, m) by {
            if m == 1 {
                assert(grid.is_free_along(current, d, 1));
            } else {
                assert(grid.is_free_along(next, d, (m - 1) as nat));
                assert(grid.nth_along(current, d, m) == grid.nth_along(next, d, (m - 1) as nat));
            }
        }
    }
}

/// The moves along a ray are the moves to the squares that the capability
/// reaches from where the walk stands.
pub proof fn lemma_ray_reaches(
    grid: Grid,
    origin: Location,
    current: Location,
    budget: int,
    color: PieceColor,
    cap: MoveCapability,
    to: Location,
)
    ensures
        grid.ray(origin, current, budget, color, cap).contains(go(origin, to)) <==> exists|n: nat|
            #[trigger] grid.reaches(current, to, n, budget, color, cap),
    decreases grid.room(current, cap.direction),
{
    let d = cap.direction;
    let steps = grid.ray(origin, current, budget, color, cap);
    let wanted = go(origin, to);
    reveal_with_fuel(Grid::nth_along, 2);
    if (d.0 == 0 && d.1 == 0) || (budget != UNBOUNDED && budget <= 0) {
        assert(!steps.contains(wanted));
    } else {
        match grid.neighbour(current, d) {
            None => {
                assert(!steps.contains(wanted));
                assert forall|n: nat| !#[trigger] grid.reaches(current, to, n, budget, color, cap) by {
                    if n >= 1 {
                        assert(grid.nth_along(current, d, n) is None);
                    }
                }
            },
            Some(next) => {
                assert(grid.nth_along(current, d, 1) == Some(next));
                match grid.piece_at(next) {
                    Some(piece) => {
                        assert forall|n: nat| n >= 2 implies !#[trigger] grid.reaches(
                            current,
                            to,
                            n,
                            budget,
                            color,
                            cap,
                        ) by {
                            assert(!grid.is_free_along(current, d, 1));
                        }
                        if cap.can_take && piece.color != color {
                            assert(steps =~= seq![go(origin, next)]);
                            if to == next {
                                assert(steps[0] == wanted);
                                assert(grid.reaches(current, to, 1, budget, color, cap));
                            }
                        } else {
                            assert(!steps.contains(wanted));
                        }
                    },
                    None => {
                        if cap.must_take {
                            assert(!steps.contains(wanted));
                        } else {
                            let inner = grid.ray(origin, next, budget_after(budget), color, cap);
                            lemma_ray_reaches(
                                grid,
                                origin,
                                next,
                                budget_after(budget),
                                color,
                                cap,
                                to,
                            );
                            assert(steps == inner.push(go(origin, next)));
                            assert(steps =~= inner + seq![go(origin, next)]);
                            lemma_concat_contains(inner, seq![go(origin, next)], wanted);
                            assert(seq![go(origin, next)].contains(wanted) <==> to == next) by {
                                if to == next {
                                    assert(seq![go(origin, next)][0] == wanted);
                                }
                            }
                            if to == next {
                                assert(grid.reaches(current, to, 1, budget, color, cap));
                            }
                            if inner.contains(wanted) {
                                let k = choose|k: nat| #[trigger]
                                    grid.reaches(next, to, k, budget_after(budget), color, cap);
                                lemma_reaches_shift(
                                    grid,
                                    current,
                                    next,
                                    to,
                                    k + 1,
                                    budget,
                                    color,
                                    cap,
                                );
                                assert(grid.reaches(current, to, k + 1, budget, color, cap));
                            }
                            if exists|n: nat| #[trigger]
                                grid.reaches(current, to, n, budget, color, cap) {
                                let n = choose|n: nat| #[trigger]
                                    grid.reaches(current, to, n, budget, color, cap);
                                if n >= 2 {
                                    lemma_reaches_shift(
                                        grid,
                                        current,
                                        next,
                                        to,
                                        n,
                                        budget,
                                        color,
                                        cap,
                                    );
                                    assert(grid.reaches(
                                        next,
                                        to,
                                        (n - 1) as nat,
                                        budget_after(budget),
                                        color,
                                        cap,
                                    ));
                                } else {
                                    assert(to == next);
                                }
                            }
                        }
                    },
                }
            },
        }
    }
}

/// The moves of the piece on a square are the moves to the squares that it
/// can reach.
pub proof fn lemma_field_steps_reach(grid: Grid, from: Location, to: Location, color: PieceColor)
    ensures
        grid.field_steps(from, color).contains(go(from, to)) <==> grid.can_reach(from, to, color),
{
    match grid.piece_at(from) {
        Some(piece) => {
            if piece.color == color {
                let caps = capabilities(piece);
                let parts = caps.map_values(grid.walk(from, color));
                lemma_flatten_contains(parts, go(from, to));
                assert forall|i: int| 0 <= i < caps.len() implies ((#[trigger] parts[i]).contains(
                    go(from, to),
                ) <==> exists|n: nat| #[trigger]
                    grid.reaches(from, to, n, caps[i].distance as int, color, caps[i])) by {
                    lemma_ray_reaches(grid, from, from, caps[i].distance as int, color, caps[i], to);
                }
                if grid.field_steps(from, color).contains(go(from, to)) {
                    let i = choose|i: int|
                        0 <= i < parts.len() && (#[trigger] parts[i]).contains(go(from, to));
                    let n = choose|n: nat| #[trigger]
                        grid.reaches(from, to, n, caps[i].distance as int, color, caps[i]);
                    assert(grid.reaches(from, to, n, caps[i].distance as int, color, caps[i]));
                }
                if grid.can_reach(from, to, color) {
                    let (i, n) = choose|i: int, n: nat|
                        0 <= i < caps.len() && #[trigger] grid.reaches(
                            from,
                            to,
                            n,
                            caps[i].distance as int,
                            color,
                            caps[i],
                        );
                    assert(parts[i].contains(go(from, to)));
                }
            } else {
                assert(!grid.field_steps(from, color).contains(go(from, to)));
            }
        },
        None => {
            assert(!grid.field_steps(from, color).contains(go(from, to)));
        },
    }
}

/// Every move along a ray is an ordinary move from the origin.
pub proof fn lemma_ray_from_origin(
    grid: Grid,
    origin: Location,
    current: Location,
    budget: int,
    color: PieceColor,
    cap: MoveCapability,
)
    ensures
        forall|k: int|
            0 <= k < grid.ray(origin, current, budget, color, cap).len() ==> starts_at(
                #[trigger] grid.ray(origin, current, budget, color, cap)[k],
                origin,
            ),
    decreases grid.room(current, cap.direction),
{
    let steps = grid.ray(origin, current, budget, color, cap);
    if steps.len() > 0 {
        let next = grid.neighbour(current, cap.direction)->0;
        match grid.piece_at(next) {
            Some(piece) => {
                assert(steps =~= seq![go(origin, next)]);
            },
            None => {
                let inner = grid.ray(origin, next, budget_after(budget), color, cap);
                lemma_ray_from_origin(grid, origin, next, budget_after(budget), color, cap);
                assert(steps == inner.push(go(origin, next)));
                assert forall|k: int| 0 <= k < steps.len() implies starts_at(
                    #[trigger] steps[k],
                    origin,
                ) by {
                    if k < inner.len() {
                        assert(steps[k] == inner[k]);
                    }
                }
            },
        }
    }
}

/// Whether a move is an ordinary move from `origin`.
pub open spec fn starts_at(kind: StepKind, origin: Location) -> bool {
    match kind {
        StepKind::GoTo(step) => step.from == origin,
        _ => false,
    }
}

/// Every move of the piece on a square is an ordinary move from that square.
pub proof fn lemma_field_steps_from_field(grid: Grid, from: Location, color: PieceColor)
    ensures
        forall|k: int|
            0 <= k < grid.field_steps(from, color).len() ==> starts_at(
                #[trigger] grid.field_steps(from, color)[k],
                from,
            ),
{
    match grid.piece_at(from) {
        Some(piece) => {
            if piece.color == color {
                let parts = capabilities(piece).map_values(grid.walk(from, color));
                let leaves = |kind: StepKind| starts_at(kind, from);
                assert forall|i: int, j: int|
                    0 <= i < parts.len() && 0 <= j < parts[i].len() implies leaves(
                    #[trigger] parts[i][j],
                ) by {
                    let cap = capabilities(piece)[i];
                    lemma_ray_from_origin(grid, from, from, cap.distance as int, color, cap);
                }
                lemma_flatten_all(parts, leaves);
            }
        },
        None => {},
    }
}

/// The moves that the geometry allows a side are the ordinary moves of its
/// pieces to the squares that they can reach.
pub proof fn lemma_simple_steps_reach(grid: Grid, color: PieceColor, kind: StepKind)
    ensures
        grid.simple_steps(color).contains(kind) <==> match kind {
            StepKind::GoTo(step) => grid.can_reach(step.from, step.to, color),
            _ => false,
        },
{
    let parts = grid.locations().map_values(grid.steps_from(color));
    lemma_flatten_contains(parts, kind);
    if grid.simple_steps(color).contains(kind) {
        let i = choose|i: int| 0 <= i < parts.len() && (#[trigger] parts[i]).contains(kind);
        let loc = grid.locations()[i];
        assert(parts[i] == grid.field_steps(loc, color));
        lemma_field_steps_from_field(grid, loc, color);
        let k = choose|k: int| 0 <= k < parts[i].len() && parts[i][k] == kind;
        assert(starts_at(parts[i][k], loc));
        let step = kind->GoTo_0;
        assert(kind == go(loc, step.to));
        lemma_field_steps_reach(grid, loc, step.to, color);
    }
    match kind {
        StepKind::GoTo(step) => {
            if grid.can_reach(step.from, step.to, color) {
                lemma_field_steps_reach(grid, step.from, step.to, color);
                lemma_location_place(grid, step.from);
                let j = step.from.y * grid.width + step.from.x;
                assert(parts[j] == grid.field_steps(step.from, color));
                assert(parts[j].contains(kind));
            }
        },
        _ => {},
    }
}

/// The moves among which the promotions of a step are found: the
/// promotions of that step to any kind.
pub proof fn lemma_promoted_contains(source: StepKind, kind: StepKind)
    ensures
        promoted()(source).contains(kind) <==> match (source, kind) {
            (StepKind::GoTo(step), StepKind::Promote { step: promoted_step, .. }) => promoted_step
                == step,
            _ => false,
        },
{
    match source {
        StepKind::GoTo(step) => {
            let all = promotions(step);
            match kind {
                StepKind::Promote { step: promoted_step, piece } => {
                    if promoted_step == step {
                        let i = match piece {
                            PieceKind::Pawn => 0int,
                            PieceKind::Rook => 1int,
                            PieceKind::Knight => 2int,
                            PieceKind::Bishop => 3int,
                            PieceKind::Queen => 4int,
                            PieceKind::King => 5int,
                        };
                        assert(all[i] == kind);
                    }
                },
                _ => {},
            }
        },
        _ => {},
    }
}

impl Grid {
    /// Whether a move is, for the side `color`, an ordinary move of a piece
    /// to a square that it can reach, other than a pawn's step onto the far
    /// rank; the promotion, to any kind, of a pawn that can reach the far
    /// rank with that step; or castling where it is allowed.
    pub open spec fn is_candidate(self, kind: StepKind, color: PieceColor) -> bool {
        match kind {
            StepKind::GoTo(step) => self.can_reach(step.from, step.to, color)
                && !self.is_promotion(kind),
            StepKind::Promote { step, .. } => self.can_reach(step.from, step.to, color)
                && self.is_promotion(StepKind::GoTo(step)),
            StepKind::Castle { .. } => {
                ||| self.can_castle_long(color) && kind == long_castle(self.castle_rank(color))
                ||| self.can_castle_short(color) && kind == short_castle(
                    self.castle_rank(color),
                    (self.width - 1) as usize,
                )
            },
        }
    }
}

/// The moves with promotions in place are the moves that are no promotion
/// and the promotions of those that are.
pub proof fn lemma_with_promotions_contains(grid: Grid, steps: Seq<StepKind>, kind: StepKind)
    ensures
        grid.with_promotions(steps).contains(kind) <==> (steps.contains(kind)
            && !grid.is_promotion(kind)) || match kind {
            StepKind::Promote { step, .. } => steps.contains(StepKind::GoTo(step))
                && grid.is_promotion(StepKind::GoTo(step)),
            _ => false,
        },
{
    let kept = steps.filter(grid.stays());
    let turned = steps.filter(grid.promotes()).reverse();
    let parts = turned.map_values(promoted());
    lemma_concat_contains(kept, parts.flatten(), kind);
    lemma_filter_contains(steps, grid.stays(), kind);
    lemma_flatten_contains(parts, kind);
    if parts.flatten().contains(kind) {
        let i = choose|i: int| 0 <= i < parts.len() && (#[trigger] parts[i]).contains(kind);
        let source = turned[i];
        lemma_promoted_contains(source, kind);
        assert(turned.contains(source));
        lemma_reverse_contains(steps.filter(grid.promotes()), source);
        lemma_filter_contains(steps, grid.promotes(), source);
    }
    match kind {
        StepKind::Promote { step, .. } => {
            let source = StepKind::GoTo(step);
            if steps.contains(source) && grid.is_promotion(source) {
                lemma_filter_contains(steps, grid.promotes(), source);
                lemma_reverse_contains(steps.filter(grid.promotes()), source);
                let i = choose|i: int| 0 <= i < turned.len() && turned[i] == source;
                lemma_promoted_contains(source, kind);
                assert(parts[i].contains(kind));
            }
        },
        _ => {},
    }
}

/// The candidates of a position, said without the way in which they are
/// generated.
pub proof fn lemma_candidates_contain(board: BoardView, kind: StepKind)
    ensures
        board.candidates().contains(kind) <==> board.grid.is_candidate(kind, board.turn_color()),
{
    let grid = board.grid;
    let color = board.turn_color();
    let simple = grid.simple_steps(color);
    lemma_concat_contains(grid.with_promotions(simple), grid.castles(color), kind);
    lemma_with_promotions_contains(grid, simple, kind);
    lemma_simple_steps_reach(grid, color, kind);
    match kind {
        StepKind::Promote { step, .. } => {
            lemma_simple_steps_reach(grid, color, StepKind::GoTo(step));
        },
        _ => {},
    }
    lemma_castling_options(grid, color);
    let castles = grid.castles(color);
    if castles.contains(kind) {
        let i = choose|i: int| 0 <= i < castles.len() && castles[i] == kind;
        assert(kind is Castle);
    }
}

/// The legal moves of a position: the candidates that do not leave the
/// king of the side that moves in check.
pub proof fn lemma_legal_steps_contain(board: BoardView, kind: StepKind)
    ensures
        board.legal_steps().contains(kind) <==> board.grid.is_candidate(kind, board.turn_color())
            && !board.leaves_in_check(kind),
{
    lemma_candidates_contain(board, kind);
    lemma_filter_contains(board.candidates(), board.is_safe(), kind);
}

/// A side is in check where a piece of the other side can reach the square
/// of its king.
pub proof fn lemma_in_check_is_reach(grid: Grid, color: PieceColor)
    ensures
        grid.in_check(color) <==> grid.has_king(color) && exists|from: Location| #[trigger]
            grid.can_reach(from, grid.king_location(color), opponent(color)),
{
    let king = grid.king_location(color);
    let steps = grid.simple_steps(opponent(color));
    if attacks(steps, king) {
        let i = choose|i: int| 0 <= i < steps.len() && target_of(#[trigger] steps[i]) == Some(king);
        assert(steps.contains(steps[i]));
        lemma_simple_steps_reach(grid, opponent(color), steps[i]);
        let step = steps[i]->GoTo_0;
        assert(grid.can_reach(step.from, king, opponent(color)));
    }
    if exists|from: Location| #[trigger] grid.can_reach(from, king, opponent(color)) {
        let from = choose|from: Location| #[trigger] grid.can_reach(from, king, opponent(color));
        lemma_simple_steps_reach(grid, opponent(color), go(from, king));
        let i = choose|i: int| 0 <= i < steps.len() && steps[i] == go(from, king);
        assert(target_of(steps[i]) == Some(king));
    }
}

} // verus!
