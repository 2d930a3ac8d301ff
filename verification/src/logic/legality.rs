//! Why the moves that the generator proposes can be tried, and what holds
//! of the moves that it returns.

use crate::logic::move_computer::{budget_after, go, promoted};
use crate::models::board::{BoardView, Grid};
use crate::models::field_content::FieldContent;
use crate::models::location::Location;
use crate::models::piece::{capabilities, MoveCapability, PieceColor, PieceKind};
use crate::models::step::{long_castle, short_castle, StepKind};
use crate::utils::sequences::{lemma_filter_all, lemma_flatten_all};
use vstd::prelude::*;

verus! {

impl Grid {
    /// Whether a move is an ordinary move of a piece of `color` that ends
    /// on the board and not on a piece of its own side.
    pub open spec fn is_plain_move(self, kind: StepKind, color: PieceColor) -> bool {
        match kind {
            StepKind::GoTo(step) => {
                &&& self.in_bounds(step.to)
                &&& match self.piece_at(step.from) {
                    Some(piece) => piece.color == color,
                    None => false,
                }
                &&& match self.piece_at(step.to) {
                    Some(piece) => piece.color != color,
                    None => true,
                }
            },
            _ => false,
        }
    }

    /// Whether a move is one that the generator proposes for `color`: an
    /// ordinary move, the promotion of a pawn, or castling where it is
    /// allowed.
    pub open spec fn is_proposal(self, kind: StepKind, color: PieceColor) -> bool {
        match kind {
            StepKind::GoTo(_) => self.is_plain_move(kind, color),
            StepKind::Promote { step, .. } => self.is_plain_move(StepKind::GoTo(step), color)
                && self.is_promotion(StepKind::GoTo(step)),
            StepKind::Castle { .. } => {
                ||| self.can_castle_long(color) && kind == long_castle(self.castle_rank(color))
                ||| self.can_castle_short(color) && kind == short_castle(
                    self.castle_rank(color),
                    (self.width - 1) as usize,
                )
            },
        }
    }
}

/// Every move along a ray is an ordinary move from the origin.
pub proof fn lemma_ray_is_plain(
    grid: Grid,
    origin: Location,
    current: Location,
    budget: int,
    color: PieceColor,
    cap: MoveCapability,
)
    requires
        match grid.piece_at(origin) {
            Some(piece) => piece.color == color,
            None => false,
        },
    ensures
        forall|k: int|
            0 <= k < grid.ray(origin, current, budget, color, cap).len() ==> grid.is_plain_move(
                #[trigger] grid.ray(origin, current, budget, color, cap)[k],
                color,
            ),
    decreases grid.room(current, cap.direction),
{
    let steps = grid.ray(origin, current, budget, color, cap);
    if steps.len() > 0 {
        let next = grid.neighbour(current, cap.direction)->0;
        assert(grid.in_bounds(next));
        match grid.piece_at(next) {
            Some(piece) => {
                assert(steps =~= seq![go(origin, next)]);
            },
            None => {
                let inner = grid.ray(origin, next, budget_after(budget), color, cap);
                lemma_ray_is_plain(grid, origin, next, budget_after(budget), color, cap);
                assert(steps == inner.push(go(origin, next)));
                assert forall|k: int| 0 <= k < steps.len() implies grid.is_plain_move(
                    #[trigger] steps[k],
                    color,
                ) by {
                    if k < inner.len() {
                        assert(steps[k] == inner[k]);
                    } else {
                        assert(steps[k] == go(origin, next));
                    }
                }
            },
        }
    }
}

/// Every move that the pieces of a side can make is an ordinary move of
/// that side.
pub proof fn lemma_simple_steps_are_plain(grid: Grid, color: PieceColor)
    ensures
        forall|k: int|
            0 <= k < grid.simple_steps(color).len() ==> grid.is_plain_move(
                #[trigger] grid.simple_steps(color)[k],
                color,
            ),
{
    let holds = |kind: StepKind| grid.is_plain_move(kind, color);
    let per_square = grid.locations().map_values(grid.steps_from(color));
    assert forall|i: int, j: int|
        0 <= i < per_square.len() && 0 <= j < per_square[i].len() implies holds(
        #[trigger] per_square[i][j],
    ) by {
        let loc = grid.locations()[i];
        assert(per_square[i] == grid.field_steps(loc, color));
        let piece = grid.piece_at(loc)->0;
        let per_cap = capabilities(piece).map_values(grid.walk(loc, color));
        assert forall|a: int, b: int|
            0 <= a < per_cap.len() && 0 <= b < per_cap[a].len() implies holds(
            #[trigger] per_cap[a][b],
        ) by {
            let cap = capabilities(piece)[a];
            lemma_ray_is_plain(grid, loc, loc, cap.distance as int, color, cap);
        }
        lemma_flatten_all(per_cap, holds);
    }
    lemma_flatten_all(per_square, holds);
}

/// Every candidate is a move that the generator proposes.
pub proof fn lemma_candidates_are_proposals(board: BoardView)
    ensures
        forall|k: int|
            0 <= k < board.candidates().len() ==> board.grid.is_proposal(
                #[trigger] board.candidates()[k],
                board.turn_color(),
            ),
{
    let grid = board.grid;
    let color = board.turn_color();
    let simple = grid.simple_steps(color);
    let plain = |kind: StepKind| grid.is_plain_move(kind, color);
    let proposal = |kind: StepKind| grid.is_proposal(kind, color);
    lemma_simple_steps_are_plain(grid, color);
    lemma_filter_all(simple, grid.stays(), plain);
    lemma_filter_all(simple, grid.promotes(), plain);
    let kept = simple.filter(grid.stays());
    let turned = simple.filter(grid.promotes()).reverse();
    let parts = turned.map_values(promoted());
    assert forall|i: int, j: int| 0 <= i < parts.len() && 0 <= j < parts[i].len() implies proposal(
        #[trigger] parts[i][j],
    ) by {
        let source = turned[i];
        let n = simple.filter(grid.promotes()).len();
        assert(source == simple.filter(grid.promotes())[n - 1 - i]);
        assert(plain(source) && grid.promotes()(source));
    }
    lemma_flatten_all(parts, proposal);
    let promoted_part = parts.flatten();
    let castles = grid.castles(color);
    assert forall|k: int| 0 <= k < board.candidates().len() implies grid.is_proposal(
        #[trigger] board.candidates()[k],
        color,
    ) by {
        let kind = board.candidates()[k];
        if k < kept.len() {
            assert(kind == kept[k]);
            assert(plain(kept[k]));
        } else if k < kept.len() + promoted_part.len() {
            assert(kind == promoted_part[k - kept.len()]);
            assert(proposal(promoted_part[k - kept.len()]));
        } else {
            assert(kind == castles[k - kept.len() - promoted_part.len()]);
        }
    }
}

/// A move that the generator proposes can be made, and the side that makes
/// it keeps a king where it had one.
pub proof fn lemma_proposal_can_be_tried(board: BoardView, kind: StepKind)
    requires
        board.grid.has_king(board.turn_color()),
        board.grid.is_proposal(kind, board.turn_color()),
    ensures
        board.can_try(kind),
{
    let grid = board.grid;
    let color = board.turn_color();
    let after = board.grid_after(kind);
    let king = choose|loc: Location| grid.is_king_of(loc, color);
    match kind {
        StepKind::GoTo(step) => {
            if king == step.from {
                assert(after.is_king_of(step.to, color));
            } else {
                assert(after.is_king_of(king, color));
            }
        },
        StepKind::Promote { step, piece } => {
            assert(after.is_king_of(king, color));
        },
        StepKind::Castle { king_step, rook_step } => {
            let between = grid.stepped(king_step, board.turn);
            assert(between.is_king_of(king_step.to, color));
            assert(after.is_king_of(king_step.to, color));
        },
    }
}

/// Every candidate can be tried where the side to move has a king.
pub proof fn lemma_candidates_can_be_tried(board: BoardView)
    requires
        board.grid.has_king(board.turn_color()),
    ensures
        forall|k: int|
            0 <= k < board.candidates().len() ==> board.can_try(#[trigger] board.candidates()[k]),
{
    lemma_candidates_are_proposals(board);
    assert forall|k: int| 0 <= k < board.candidates().len() implies board.can_try(
        #[trigger] board.candidates()[k],
    ) by {
        lemma_proposal_can_be_tried(board, board.candidates()[k]);
    }
}

/// A move that the generator proposes can be made.
pub proof fn lemma_proposal_can_be_made(board: BoardView, kind: StepKind)
    requires
        board.grid.is_proposal(kind, board.turn_color()),
    ensures
        board.grid.can_move(kind, board.turn),
{
}

/// No legal move leaves the king of the side that makes it in check: in
/// every position each legal move can be applied, and on the board that
/// results the side that made it is not in check. That side still has a
/// king where it had one before.
pub proof fn lemma_legal_steps_are_safe(board: BoardView, k: int)
    requires
        0 <= k < board.legal_steps().len(),
    ensures
        board.grid.can_move(board.legal_steps()[k], board.turn),
        !board.grid_after(board.legal_steps()[k]).in_check(board.turn_color()),
        board.grid.has_king(board.turn_color()) ==> board.grid_after(
            board.legal_steps()[k],
        ).has_king(board.turn_color()),
        board.turn < usize::MAX ==> match board.applied(board.legal_steps()[k]) {
            Ok(after) => !after.grid.in_check(board.turn_color()) && after.turn_color()
                != board.turn_color(),
            Err(_) => false,
        },
{
    let kind = board.legal_steps()[k];
    lemma_candidates_are_proposals(board);
    let made = |kind: StepKind| board.grid.can_move(kind, board.turn);
    assert forall|i: int| 0 <= i < board.candidates().len() implies made(
        #[trigger] board.candidates()[i],
    ) by {
        lemma_proposal_can_be_made(board, board.candidates()[i]);
    }
    lemma_filter_all(board.candidates(), board.is_safe(), made);
    assert(made(kind) && board.is_safe()(kind));
    if board.grid.has_king(board.turn_color()) {
        lemma_legal_steps_are_proposals(board, k);
        lemma_proposal_can_be_tried(board, kind);
    }
}

/// Every legal move is a move that the generator proposes: an ordinary
/// move of a piece of the side to move onto a square that holds none of its
/// own pieces, the promotion of one of its pawns, or castling where it is
/// allowed.
pub proof fn lemma_legal_steps_are_proposals(board: BoardView, k: int)
    requires
        0 <= k < board.legal_steps().len(),
    ensures
        board.grid.is_proposal(board.legal_steps()[k], board.turn_color()),
{
    lemma_candidates_are_proposals(board);
    let proposal = |kind: StepKind| board.grid.is_proposal(kind, board.turn_color());
    lemma_filter_all(board.candidates(), board.is_safe(), proposal);
    assert(proposal(board.legal_steps()[k]));
}

/// The castling moves of a side are those that it is allowed: towards the
/// first file, towards the last file, both or none.
pub proof fn lemma_castling_options(grid: Grid, color: PieceColor)
    ensures
        grid.castles(color).len() == (if grid.can_castle_long(color) {
            1int
        } else {
            0int
        }) + (if grid.can_castle_short(color) {
            1int
        } else {
            0int
        }),
        grid.can_castle_long(color) <==> grid.castles(color).contains(
            long_castle(grid.castle_rank(color)),
        ),
        grid.can_castle_short(color) <==> grid.castles(color).contains(
            short_castle(grid.castle_rank(color), (grid.width - 1) as usize),
        ),
{
    let castles = grid.castles(color);
    let long = long_castle(grid.castle_rank(color));
    let short = short_castle(grid.castle_rank(color), (grid.width - 1) as usize);
    if grid.can_castle_long(color) {
        assert(castles[0] == long);
    }
    if grid.can_castle_short(color) {
        assert(castles[castles.len() - 1] == short);
    }
}

/// What takes castling away. A king that has moved or left its home square
/// takes away both sides. A rook that has moved or left its corner, and a
/// piece on a square between king and rook, take away the side they are on.
pub proof fn lemma_castling_is_lost(grid: Grid, color: PieceColor)
    ensures
        !grid.is_unmoved(Location { x: 4, y: grid.castle_rank(color) }, PieceKind::King, color)
            ==> grid.castles(color).len() == 0,
        !grid.is_unmoved(Location { x: 0, y: grid.castle_rank(color) }, PieceKind::Rook, color)
            ==> !grid.can_castle_long(color),
        !grid.is_unmoved(
            Location { x: (grid.width - 1) as usize, y: grid.castle_rank(color) },
            PieceKind::Rook,
            color,
        ) ==> !grid.can_castle_short(color),
        forall|x: usize|
            0 < x < 4 && #[trigger] grid.field_at(Location { x, y: grid.castle_rank(color) })
                != Some(FieldContent::Empty) ==> !grid.can_castle_long(color),
        forall|x: usize|
            4 < x < grid.width - 1 && #[trigger] grid.field_at(
                Location { x, y: grid.castle_rank(color) },
            ) != Some(FieldContent::Empty) ==> !grid.can_castle_short(color),
{
}

} // verus!
