//! The move generator: what each piece may do, promotions, castling, and
//! the filter that keeps a side from leaving its own king in check.

use crate::logic::basic_evaluation::BasicEvaluation;
use crate::models::board::{Board, BoardView, Grid};
use crate::models::field_content::FieldContent;
use crate::models::location::Location;
use crate::models::piece::{
    capabilities, opponent, ColoredPiece, MoveCapability, PieceColor, PieceKind, UNBOUNDED,
};
use crate::models::step::{
    long_castle, promotions, short_castle, target_of, Direction, Step, StepKind,
};
use crate::logic::legality::lemma_candidates_can_be_tried;
use crate::utils::sequences::{lemma_filter_step, lemma_flat_map_step};
use vstd::prelude::*;

verus! {

/// The ordinary move from `from` to `to`.
pub open spec fn go(from: Location, to: Location) -> StepKind {
    StepKind::GoTo(Step { from, to })
}

/// What is left of a distance budget after one more square.
pub open spec fn budget_after(budget: int) -> int {
    if budget == UNBOUNDED {
        budget
    } else {
        budget - 1
    }
}

/// Whether one of `steps` ends on `loc`.
pub open spec fn attacks(steps: Seq<StepKind>, loc: Location) -> bool {
    exists|i: int| 0 <= i < steps.len() && target_of(#[trigger] steps[i]) == Some(loc)
}

impl Grid {
    /// How many more squares a walk from `loc` along `direction` can reach
    /// at most before it leaves the board.
    pub open spec fn room(self, loc: Location, direction: Direction) -> nat {
        if direction.0 > 0 {
            if loc.x < self.width {
                (self.width - loc.x) as nat
            } else {
                0
            }
        } else if direction.0 < 0 {
            loc.x as nat + 1
        } else if direction.1 > 0 {
            if loc.y < self.height {
                (self.height - loc.y) as nat
            } else {
                0
            }
        } else if direction.1 < 0 {
            loc.y as nat + 1
        } else {
            0
        }
    }

    /// The moves of the piece of colour `color` on `origin` that one
    /// capability gives it, once it has walked as far as `current` and may
    /// go `budget` squares further (without limit for [`UNBOUNDED`]).
    ///
    /// The walk looks at the next square along the direction. Off the board
    /// it ends. On a piece it ends, with a capture where the capability can
    /// take and the piece is an enemy. On an empty square it ends where the
    /// capability must take; otherwise the square is a destination and the
    /// walk goes on from there. Squares further away come first.
    pub open spec fn ray(
        self,
        origin: Location,
        current: Location,
        budget: int,
        color: PieceColor,
        cap: MoveCapability,
    ) -> Seq<StepKind>
        decreases self.room(current, cap.direction),
    {
        if (cap.direction.0 == 0 && cap.direction.1 == 0) || (budget != UNBOUNDED && budget <= 0) {
            Seq::empty()
        } else {
            match self.neighbour(current, cap.direction) {
                None => Seq::empty(),
                Some(next) => match self.piece_at(next) {
                    Some(piece) => if cap.can_take && piece.color != color {
                        seq![go(origin, next)]
                    } else {
                        Seq::empty()
                    },
                    None => if cap.must_take {
                        Seq::empty()
                    } else {
                        self.ray(origin, next, budget_after(budget), color, cap).push(
                            go(origin, next),
                        )
                    },
                },
            }
        }
    }

    /// The moves that one capability gives the piece of colour `color` on `loc`.
    pub open spec fn walk(self, loc: Location, color: PieceColor) -> spec_fn(MoveCapability) -> Seq<
        StepKind,
    > {
        |cap: MoveCapability| self.ray(loc, loc, cap.distance as int, color, cap)
    }

    /// The moves of the piece on `loc`, capability by capability in the
    /// order of the table; none where the square is empty, off the board or
    /// holds a piece of the other colour.
    pub open spec fn field_steps(self, loc: Location, color: PieceColor) -> Seq<StepKind> {
        match self.piece_at(loc) {
            Some(piece) => if piece.color == color {
                capabilities(piece).map_values(self.walk(loc, color)).flatten()
            } else {
                Seq::empty()
            },
            None => Seq::empty(),
        }
    }

    /// The moves of the piece on each square, for the side `color`.
    pub open spec fn steps_from(self, color: PieceColor) -> spec_fn(Location) -> Seq<StepKind> {
        |loc: Location| self.field_steps(loc, color)
    }

    /// Every move that the geometry of the pieces allows the side `color`,
    /// square by square in the order of `locations`, whether or not it
    /// leaves that side's king in check.
    pub open spec fn simple_steps(self, color: PieceColor) -> Seq<StepKind> {
        self.locations().map_values(self.steps_from(color)).flatten()
    }

    /// Whether the king of `color` stands where the other side could
    /// capture it.
    pub open spec fn in_check(self, color: PieceColor) -> bool {
        self.has_king(color) && attacks(
            self.simple_steps(opponent(color)),
            self.king_location(color),
        )
    }

    /// The rank a pawn of `color` must reach to be promoted.
    pub open spec fn far_rank(self, color: PieceColor) -> int {
        match color {
            PieceColor::White => self.height - 1,
            PieceColor::Black => 0,
        }
    }

    /// Whether a move is a pawn's step onto the rank farthest from its side.
    pub open spec fn is_promotion(self, kind: StepKind) -> bool {
        match kind {
            StepKind::GoTo(step) => match self.piece_at(step.from) {
                Some(piece) => piece.kind == PieceKind::Pawn && step.to.y == self.far_rank(
                    piece.color,
                ),
                None => false,
            },
            _ => false,
        }
    }

    /// `is_promotion` as a predicate.
    pub open spec fn promotes(self) -> spec_fn(StepKind) -> bool {
        |kind: StepKind| self.is_promotion(kind)
    }

    /// The negation of `is_promotion` as a predicate.
    pub open spec fn stays(self) -> spec_fn(StepKind) -> bool {
        |kind: StepKind| !self.is_promotion(kind)
    }

    /// The moves with every pawn's step onto the far rank replaced by the
    /// promotions it can be: first the moves that are no promotion, in
    /// their order; then, for each step that is one, last one first, its
    /// promotions.
    pub open spec fn with_promotions(self, steps: Seq<StepKind>) -> Seq<StepKind> {
        steps.filter(self.stays()) + steps.filter(self.promotes()).reverse().map_values(
            promoted(),
        ).flatten()
    }

    /// The rank on which the king and rooks of `color` start.
    pub open spec fn castle_rank(self, color: PieceColor) -> usize {
        match color {
            PieceColor::White => 0,
            PieceColor::Black => (self.height - 1) as usize,
        }
    }

    /// Whether `loc` holds a piece of that kind and colour that has not moved.
    pub open spec fn is_unmoved(self, loc: Location, kind: PieceKind, color: PieceColor) -> bool {
        self.field_at(loc) == Some(
            FieldContent::Occupied { piece: ColoredPiece { kind, color }, turn: 0 },
        )
    }

    /// Whether the squares of `rank` strictly between the files `low` and
    /// `high` are all empty.
    pub open spec fn empty_between(self, rank: usize, low: usize, high: usize) -> bool {
        forall|x: usize|
            low < x < high ==> #[trigger] self.field_at(Location { x, y: rank }) == Some(
                FieldContent::Empty,
            )
    }

    /// Whether `color` may castle towards the first file: king and rook
    /// stand unmoved on the fifth and the first file of the home rank, with
    /// nothing between them.
    pub open spec fn can_castle_long(self, color: PieceColor) -> bool {
        let rank = self.castle_rank(color);
        &&& self.is_unmoved(Location { x: 4, y: rank }, PieceKind::King, color)
        &&& self.is_unmoved(Location { x: 0, y: rank }, PieceKind::Rook, color)
        &&& self.empty_between(rank, 0, 4)
    }

    /// Whether `color` may castle towards the last file: king and rook
    /// stand unmoved on the fifth and the last file of the home rank, with
    /// nothing between them, and the squares on which they land lie between
    /// them.
    pub open spec fn can_castle_short(self, color: PieceColor) -> bool {
        let rank = self.castle_rank(color);
        &&& self.width >= 8
        &&& self.is_unmoved(Location { x: 4, y: rank }, PieceKind::King, color)
        &&& self.is_unmoved(
            Location { x: (self.width - 1) as usize, y: rank },
            PieceKind::Rook,
            color,
        )
        &&& self.empty_between(rank, 4, (self.width - 1) as usize)
    }

    /// The castling moves of `color`: towards the first file, then towards
    /// the last, each where it is allowed. Whether the king passes through
    /// check is not looked at here.
    pub open spec fn castles(self, color: PieceColor) -> Seq<StepKind> {
        let rank = self.castle_rank(color);
        (if self.can_castle_long(color) {
            seq![long_castle(rank)]
        } else {
            Seq::empty()
        }) + (if self.can_castle_short(color) {
            seq![short_castle(rank, (self.width - 1) as usize)]
        } else {
            Seq::empty()
        })
    }
}

/// The promotions of an ordinary move; none for any other move.
pub open spec fn promoted() -> spec_fn(StepKind) -> Seq<StepKind> {
    |kind: StepKind|
        match kind {
            StepKind::GoTo(step) => promotions(step),
            _ => Seq::empty(),
        }
}

impl BoardView {
    /// The moves among which the legal ones are chosen: the moves of the
    /// pieces of the side to move, with promotions in place of steps onto
    /// the far rank, and then castling.
    pub open spec fn candidates(self) -> Seq<StepKind> {
        self.grid.with_promotions(self.grid.simple_steps(self.turn_color())) + self.grid.castles(
            self.turn_color(),
        )
    }

    /// The squares after the side to move has made a move.
    pub open spec fn grid_after(self, kind: StepKind) -> Grid {
        self.grid.moved(kind, self.turn, self.turn_color())
    }

    /// Whether a move leaves the king of the side that makes it in check.
    pub open spec fn leaves_in_check(self, kind: StepKind) -> bool {
        self.grid_after(kind).in_check(self.turn_color())
    }

    /// The negation of `leaves_in_check` as a predicate.
    pub open spec fn is_safe(self) -> spec_fn(StepKind) -> bool {
        |kind: StepKind| !self.leaves_in_check(kind)
    }

    /// Whether a move can be tried: it can be made, and the side that makes
    /// it still has a king afterwards.
    pub open spec fn can_try(self, kind: StepKind) -> bool {
        self.grid.can_move(kind, self.turn) && self.grid_after(kind).has_king(self.turn_color())
    }

    /// The legal moves of the side to move: the candidates that do not
    /// leave its king in check, in the order of the candidates.
    pub open spec fn legal_steps(self) -> Seq<StepKind> {
        self.candidates().filter(self.is_safe())
    }
}

impl BoardView {
    /// The side that a question is about: the one named, or else the side
    /// to move.
    pub open spec fn side(self, color_opt: Option<PieceColor>) -> PieceColor {
        match color_opt {
            Some(color) => color,
            None => self.turn_color(),
        }
    }
}

/// The questions that a position answers about the moves in it.
pub trait StepComputer {
    /// The position as a mathematical value.
    spec fn position(&self) -> BoardView;

    /// The legal moves of the side to move. That side must have a king.
    fn compute_steps(&self) -> (steps: Vec<StepKind>)
        requires
            self.position().grid.has_king(self.position().turn_color()),
        ensures
            steps@ == self.position().legal_steps(),
    ;

    /// Whether the king of a side is in check: of the side named, or else
    /// of the side to move. That side must have a king.
    fn has_check(&self, color_opt: Option<PieceColor>) -> (r: bool)
        requires
            self.position().grid.has_king(self.position().side(color_opt)),
        ensures
            r == self.position().grid.in_check(self.position().side(color_opt)),
    ;

    /// The legal moves of the side to move, whether it is in check, and
    /// whether the game has ended. That side must have a king.
    fn evaluate_basic(&self) -> (evaluation: BasicEvaluation)
        requires
            self.position().grid.has_king(self.position().turn_color()),
        ensures
            evaluation.describes(self.position()),
    ;
}

impl StepComputer for Board {
    open spec fn position(&self) -> BoardView {
        self@
    }

    fn evaluate_basic(&self) -> (evaluation: BasicEvaluation) {
        let possible_moves = self.compute_steps();
        let has_check = self.has_check(None);
        let none_left = possible_moves.len() == 0;
        BasicEvaluation {
            has_check,
            has_checkmate: none_left && has_check,
            has_stalemate: none_left && !has_check,
            possible_moves,
        }
    }

    fn compute_steps(&self) -> (steps: Vec<StepKind>) {
        let mut steps = self.compute_simple_steps(None);
        self.extend_promotions(&mut steps);
        let mut castles = self.castle_moves();
        steps.append(&mut castles);
        proof {
            lemma_candidates_can_be_tried(self@);
            assert(steps@ =~= self@.candidates());
        }
        self.filter_check_steps(&mut steps);

        steps
    }

    fn has_check(&self, color_opt: Option<PieceColor>) -> (r: bool) {
        self.checked_by_steps(color_opt, None)
    }
}

impl Board {
    /// Whether one of the given moves ends on the king of a side: of the
    /// side named, or else of the side to move. Without a list of moves,
    /// the moves that the pieces of the other side can make are taken.
    #[verifier::loop_isolation(false)]
    pub fn checked_by_steps(
        &self,
        color_opt: Option<PieceColor>,
        steps_opt: Option<Vec<StepKind>>,
    ) -> (r: bool)
        requires
            self@.grid.has_king(self@.side(color_opt)),
        ensures
            r == attacks(
                match steps_opt {
                    Some(steps) => steps@,
                    None => self@.grid.simple_steps(opponent(self@.side(color_opt))),
                },
                self@.grid.king_location(self@.side(color_opt)),
            ),
            steps_opt is None ==> r == self@.grid.in_check(self@.side(color_opt)),
    {
        let color = match color_opt {
            Some(color) => color,
            None => self.turn_color(),
        };
        let king_position = match self.find_king(color) {
            Some(location) => location,
            None => {
                return false;
            },
        };
        let steps = match steps_opt {
            Some(steps) => steps,
            None => self.compute_simple_steps(Some(color.invert())),
        };
        let mut i: usize = 0;
        while i < steps.len()
            invariant
                i <= steps.len(),
                forall|j: int| 0 <= j < i ==> target_of(#[trigger] steps@[j]) != Some(king_position),
            decreases steps.len() - i,
        {
            let target = steps[i].target();
            if target.is_some() && target.unwrap() == king_position {
                assert(target_of(steps@[i as int]) == Some(king_position));
                return true;
            }
            i = i + 1;
        }
        false
    }

    /// The moves that the capabilities of its pieces give a side: the side
    /// named, or else the side to move. Whether a move leaves the king in
    /// check is not looked at.
    pub fn compute_simple_steps(&self, color_opt: Option<PieceColor>) -> (steps: Vec<StepKind>)
        ensures
            steps@ == self@.grid.simple_steps(self@.side(color_opt)),
    {
        let color = match color_opt {
            Some(color) => color,
            None => self.turn_color(),
        };
        let locations = self.locations();
        let mut steps: Vec<StepKind> = Vec::new();
        let mut i: usize = 0;
        assert(locations@.take(0).map_values(self@.grid.steps_from(color)) =~= Seq::empty());
        while i < locations.len()
            invariant
                i <= locations.len(),
                locations@ == self@.grid.locations(),
                steps@ == locations@.take(i as int).map_values(
                    self@.grid.steps_from(color),
                ).flatten(),
            decreases locations.len() - i,
        {
            let mut more = self.compute_field_steps(&locations[i], color);
            steps.append(&mut more);
            proof {
                lemma_flat_map_step(locations@, self@.grid.steps_from(color), i as int);
            }
            i = i + 1;
        }
        assert(locations@.take(locations@.len() as int) =~= locations@);
        steps
    }

    /// Whether the squares of `rank` strictly between two files are empty.
    fn all_empty(&self, rank: usize, low: usize, high: usize) -> (r: bool)
        requires
            high <= self@.grid.width,
            rank < self@.grid.height,
        ensures
            r == self@.grid.empty_between(rank, low, high),
    {
        if low >= high {
            return true;
        }
        let mut x: usize = low + 1;
        while x < high
            invariant
                low < x <= high <= self@.grid.width,
                rank < self@.grid.height,
                forall|z: usize|
                    low < z < x ==> #[trigger] self@.grid.field_at(Location { x: z, y: rank })
                        == Some(FieldContent::Empty),
            decreases high - x,
        {
            if !self.location_is_emtpy(&Location::new(x, rank)) {
                return false;
            }
            x = x + 1;
        }
        true
    }

    /// Whether a square holds a piece of that kind and colour that has not
    /// moved.
    fn holds_unmoved(&self, location: &Location, kind: PieceKind, color: PieceColor) -> (r: bool)
        ensures
            r == self@.grid.is_unmoved(*location, kind, color),
    {
        match self.field_at_location(location) {
            Some(FieldContent::Occupied { piece, turn }) => piece.kind == kind && piece.color
                == color && *turn == 0,
            _ => false,
        }
    }

    /// The castling moves of the side to move.
    pub fn castle_moves(&self) -> (castles: Vec<StepKind>)
        ensures
            castles@ == self@.grid.castles(self@.turn_color()),
    {
        let color = self.turn_color();
        let mut res: Vec<StepKind> = Vec::new();
        let width = self.width();
        let height = self.height();
        if height == 0 || width < 5 {
            assert(res@ =~= self@.grid.castles(color));
            return res;
        }
        let rank: usize = if color == PieceColor::White {
            0
        } else {
            height - 1
        };
        let king_location = Location { x: 4, y: rank };
        // 1. check king hasn't moved
        if !self.holds_unmoved(&king_location, PieceKind::King, color) {
            assert(res@ =~= self@.grid.castles(color));
            return res;
        }
        // queenside:
        // contains rook that hasn't been moved
        let rook1_loc = Location::new(0, rank);
        if self.holds_unmoved(&rook1_loc, PieceKind::Rook, color) && self.all_empty(rank, 0, 4) {
            res.push(
                StepKind::Castle {
                    king_step: Step::new((4, rank), (2, rank)),
                    rook_step: Step::new((0, rank), (3, rank)),
                },
            )
        }
        // kingside

        let rook2_loc = Location::new(width - 1, rank);
        if width >= 8 && self.holds_unmoved(&rook2_loc, PieceKind::Rook, color) && self.all_empty(
            rank,
            4,
            width - 1,
        ) {
            res.push(
                StepKind::Castle {
                    king_step: Step::new((4, rank), (6, rank)),
                    rook_step: Step::new((width - 1, rank), (5, rank)),
                },
            )
        }
        assert(res@ =~= self@.grid.castles(color));
        res
    }

    /// Removes the moves that would leave the king of the side to move in
    /// check. Each move must be one that can be tried.
    pub fn filter_check_steps(&self, steps: &mut Vec<StepKind>)
        requires
            forall|i: int|
                0 <= i < old(steps)@.len() ==> self@.can_try(#[trigger] old(steps)@[i]),
        ensures
            final(steps)@ == old(steps)@.filter(self@.is_safe()),
    {
        let color = self.turn_color();
        let mut kept: Vec<StepKind> = Vec::new();
        let mut index: usize = 0;
        proof {
            reveal(Seq::filter);
            assert(steps@.take(0).filter(self@.is_safe()) =~= Seq::empty());
        }
        while index < steps.len()
            invariant
                index <= steps.len(),
                steps@ == old(steps)@,
                color == self@.turn_color(),
                forall|i: int| 0 <= i < steps@.len() ==> self@.can_try(#[trigger] steps@[i]),
                kept@ == steps@.take(index as int).filter(self@.is_safe()),
            decreases steps.len() - index,
        {
            let step = steps[index];
            let mut new_board: Board = self.clone();
            if new_board.move_pieces(&step).is_ok() && !new_board.has_check(Some(color)) {
                kept.push(step);
            }
            proof {
                lemma_filter_step(steps@, self@.is_safe(), index as int);
            }
            index = index + 1;
        }
        assert(steps@.take(steps@.len() as int) =~= steps@);
        *steps = kept;
    }

    /// Whether a move is a pawn's step onto the rank farthest from its side.
    fn is_promotable(&self, kind: &StepKind) -> (r: bool)
        ensures
            r == self@.grid.is_promotion(*kind),
    {
        let height = self.height();
        match kind {
            StepKind::GoTo(Step { from, to }) => match self.field_at_location(from) {
                Some(FieldContent::Occupied { piece, .. }) => piece.kind == PieceKind::Pawn && (
                match piece.color {
                    PieceColor::White => height > 0 && to.y == height - 1,
                    PieceColor::Black => to.y == 0,
                }),
                _ => false,
            },
            _ => false,
        }
    }

    /// Replaces every pawn's step onto the far rank by the promotions it
    /// can be.
    pub fn extend_promotions(&self, steps: &mut Vec<StepKind>)
        ensures
            final(steps)@ == self@.grid.with_promotions(old(steps)@),
    {
        let mut kept: Vec<StepKind> = Vec::new();
        let mut promotable: Vec<StepKind> = Vec::new();
        let mut index: usize = 0;
        proof {
            reveal(Seq::filter);
            assert(steps@.take(0).filter(self@.grid.stays()) =~= Seq::empty());
            assert(steps@.take(0).filter(self@.grid.promotes()) =~= Seq::empty());
        }
        while index < steps.len()
            invariant
                index <= steps.len(),
                steps@ == old(steps)@,
                kept@ == steps@.take(index as int).filter(self@.grid.stays()),
                promotable@ == steps@.take(index as int).filter(self@.grid.promotes()),
            decreases steps.len() - index,
        {
            let step = steps[index];
            // check if it's a pawn, moving to last row
            if self.is_promotable(&step) {
                promotable.push(step);
            } else {
                kept.push(step);
            }
            proof {
                lemma_filter_step(steps@, self@.grid.stays(), index as int);
                lemma_filter_step(steps@, self@.grid.promotes(), index as int);
            }
            index = index + 1;
        }
        assert(steps@.take(steps@.len() as int) =~= steps@);
        let ghost plain = kept@;
        let ghost reversed = promotable@.reverse();
        let count = promotable.len();
        let mut left: usize = count;
        assert(reversed.take(0).map_values(promoted()) =~= Seq::empty());
        assert(kept@ =~= plain + reversed.take(0).map_values(promoted()).flatten());
        while left > 0
            invariant
                left <= count == promotable@.len(),
                reversed == promotable@.reverse(),
                kept@ == plain + reversed.take(count - left).map_values(promoted()).flatten(),
            decreases left,
        {
            left = left - 1;
            let ghost before = kept@;
            let mut more = match promotable[left] {
                StepKind::GoTo(step) => StepKind::possible_promotions(step),
                _ => Vec::new(),
            };
            assert(more@ =~= promoted()(promotable@[left as int]));
            kept.append(&mut more);
            proof {
                assert(reversed[count - left - 1] == promotable@[left as int]);
                lemma_flat_map_step(reversed, promoted(), count - left - 1);
                assert(kept@ =~= plain + reversed.take(count - left).map_values(
                    promoted(),
                ).flatten());
            }
        }
        assert(reversed.take(count as int) =~= reversed);
        *steps = kept;
    }

    /// The moves of the piece on a square, for the side `turn_color`.
    pub fn compute_field_steps(&self, location: &Location, turn_color: PieceColor) -> (steps: Vec<
        StepKind,
    >)
        ensures
            steps@ == self@.grid.field_steps(*location, turn_color),
    {
        let field_content_opt = self.field_at_location(location);
        if let Some(FieldContent::Occupied { piece, .. }) = field_content_opt {
            if piece.color != turn_color {
                return Vec::new();
            }
            let caps = piece.piece_move_capabilities();
            let mut steps: Vec<StepKind> = Vec::new();
            let mut i: usize = 0;
            assert(caps@.take(0).map_values(self@.grid.walk(*location, turn_color)) =~= Seq::empty());
            while i < caps.len()
                invariant
                    i <= caps.len(),
                    caps@ == capabilities(*piece),
                    piece.color == turn_color,
                    steps@ == caps@.take(i as int).map_values(
                        self@.grid.walk(*location, turn_color),
                    ).flatten(),
                decreases caps.len() - i,
            {
                let cap = &caps[i];
                let mut more = self.compute_steps_with_capablity(
                    location,
                    location,
                    cap.distance,
                    piece.color,
                    cap,
                );
                steps.append(&mut more);
                proof {
                    lemma_flat_map_step(caps@, self@.grid.walk(*location, turn_color), i as int);
                }
                i = i + 1;
            }
            assert(caps@.take(caps@.len() as int) =~= caps@);
            steps
        } else {
            Vec::new()
        }
    }

    /// The moves that one capability gives the piece on `origin_location`
    /// once it has walked as far as `current_location` and may go `budget`
    /// squares further.
    fn compute_steps_with_capablity(
        &self,
        origin_location: &Location,
        current_location: &Location,
        budget: i16,
        color: PieceColor,
        cap: &MoveCapability,
    ) -> (steps: Vec<StepKind>)
        ensures
            steps@ == self@.grid.ray(
                *origin_location,
                *current_location,
                budget as int,
                color,
                *cap,
            ),
        decreases self@.grid.room(*current_location, cap.direction),
    {
        // distance left?
        if (cap.direction.0 == 0 && cap.direction.1 == 0) || (budget != UNBOUNDED && budget <= 0) {
            return Vec::new();
        }
        // is next location on board?

        if let Some(next_location) = self.add_location_direction(current_location, &cap.direction) {
            // is there a piece at that location?
            let field_opt = self.field_at_location(&next_location);
            if let Some(FieldContent::Occupied { piece, .. }) = field_opt {
                // the case where there is a piece.
                if !cap.can_take || piece.color == color {
                    // if the piece is the same color, or the current piece is not
                    // allowed to take:
                    Vec::new()
                } else {
                    // piece is different color, and we are allowed to take:
                    vec![StepKind::GoTo(Step { from: *origin_location, to: next_location })]
                }
            } else {
                // the case where there is no piece
                if cap.must_take {
                    Vec::new()
                } else {
                    let left: i16 = if budget == UNBOUNDED {
                        budget
                    } else {
                        budget - 1
                    };
                    let mut res_recursive = self.compute_steps_with_capablity(
                        origin_location,
                        &next_location,
                        left,
                        color,
                        cap,
                    );
                    let step = StepKind::GoTo(Step { from: *origin_location, to: next_location });
                    res_recursive.push(step);
                    res_recursive
                }
            }
        } else {
            Vec::new()
        }
    }
}

} // verus!
