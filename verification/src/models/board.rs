//! The board: a grid of squares and a turn counter.
//!
//! [`Grid`] and [`BoardView`] are the mathematical model; [`Board`] is the
//! value that programs hold. Every method of `Board` says what it does in
//! terms of the model.

use crate::models::error::ChessError;
use crate::models::field_content::{piece_of, pretty, FieldContent};
use crate::models::location::Location;
use crate::models::piece::{opponent, ColoredPiece, PieceColor, PieceKind};
use crate::models::step::{Direction, Step, StepKind};
use vstd::arithmetic::div_mod::{
    lemma_div_pos_is_pos, lemma_fundamental_div_mod, lemma_fundamental_div_mod_converse,
    lemma_mod_bound, lemma_multiply_divide_lt,
};
use vstd::arithmetic::mul::lemma_mul_is_commutative;
use vstd::prelude::*;
use vstd::string::StringExecFns;

verus! {

/// The squares of a board: its size, and what each square holds.
pub struct Grid {
    pub width: usize,
    pub height: usize,
    pub squares: Map<Location, FieldContent>,
}

/// A board as a mathematical value: the squares, and the number of moves
/// made so far.
pub struct BoardView {
    pub grid: Grid,
    pub turn: usize,
}

/// Whether `a` comes before `b` when the squares are read rank by rank from
/// the first rank, each rank from the first file.
pub open spec fn precedes(a: Location, b: Location) -> bool {
    a.y < b.y || (a.y == b.y && a.x < b.x)
}

impl Grid {
    /// Whether a location is a square of this board.
    pub open spec fn in_bounds(self, loc: Location) -> bool {
        loc.x < self.width && loc.y < self.height
    }

    /// A grid holds a content for each of its squares and for nothing else.
    pub open spec fn wf(self) -> bool {
        forall|loc: Location| self.squares.dom().contains(loc) <==> self.in_bounds(loc)
    }

    /// The grid of the given size on which every square is empty.
    pub open spec fn empty(width: usize, height: usize) -> Grid {
        Grid {
            width,
            height,
            squares: Map::new(
                |loc: Location| loc.x < width && loc.y < height,
                |loc: Location| FieldContent::Empty,
            ),
        }
    }

    /// What a square holds; `None` for a location outside the board.
    pub open spec fn field_at(self, loc: Location) -> Option<FieldContent> {
        if self.in_bounds(loc) {
            Some(self.squares[loc])
        } else {
            None
        }
    }

    /// The piece on a square; `None` for an empty square and for a location
    /// outside the board.
    pub open spec fn piece_at(self, loc: Location) -> Option<ColoredPiece> {
        match self.field_at(loc) {
            Some(content) => piece_of(content),
            None => None,
        }
    }

    /// The grid with the content of one square replaced.
    pub open spec fn put(self, loc: Location, content: FieldContent) -> Grid {
        Grid { squares: self.squares.insert(loc, content), ..self }
    }

    /// All squares, rank by rank from the first rank, each rank from the
    /// first file.
    pub open spec fn locations(self) -> Seq<Location> {
        Seq::new(
            (self.width * self.height) as nat,
            |i: int|
                Location { x: (i % self.width as int) as usize, y: (i / self.width as int) as usize },
        )
    }

    /// The square that lies `direction` away from `loc`, if it is on the board.
    pub open spec fn neighbour(self, loc: Location, direction: Direction) -> Option<Location> {
        let x = loc.x + direction.0;
        let y = loc.y + direction.1;
        if 0 <= x < self.width && 0 <= y < self.height {
            Some(Location { x: x as usize, y: y as usize })
        } else {
            None
        }
    }

    /// Whether a square holds a king of the given colour.
    pub open spec fn is_king_of(self, loc: Location, color: PieceColor) -> bool {
        self.piece_at(loc) == Some(ColoredPiece { kind: PieceKind::King, color })
    }

    /// Whether the board holds a king of the given colour.
    pub open spec fn has_king(self, color: PieceColor) -> bool {
        exists|loc: Location| self.is_king_of(loc, color)
    }

    /// Whether `loc` holds the king of that colour that comes first.
    pub open spec fn is_first_king(self, loc: Location, color: PieceColor) -> bool {
        self.is_king_of(loc, color) && forall|other: Location| #[trigger]
            self.is_king_of(other, color) ==> !precedes(other, loc)
    }

    /// The square of the king of the given colour: the first one where
    /// there are several.
    pub open spec fn king_location(self, color: PieceColor) -> Location {
        choose|loc: Location| self.is_first_king(loc, color)
    }

    /// Whether a step can be made: it starts on a piece and ends on the board.
    pub open spec fn can_step(self, step: Step) -> bool {
        self.piece_at(step.from) is Some && self.in_bounds(step.to)
    }

    /// Why a step cannot be made.
    pub open spec fn step_error(self, step: Step) -> ChessError {
        if self.piece_at(step.from) is None {
            ChessError::EmptyField(step.from)
        } else {
            ChessError::OutOfBounds(step.to)
        }
    }

    /// The grid after a step: the piece stands on the destination with the
    /// stamp `stamp`, and the origin is empty.
    pub open spec fn stepped(self, step: Step, stamp: usize) -> Grid {
        self.put(
            step.to,
            FieldContent::Occupied { piece: self.piece_at(step.from)->0, turn: stamp },
        ).put(step.from, FieldContent::Empty)
    }

    /// Whether a move can be made on this grid.
    pub open spec fn can_move(self, kind: StepKind, stamp: usize) -> bool {
        match kind {
            StepKind::GoTo(step) => self.can_step(step),
            StepKind::Castle { king_step, rook_step } => self.can_step(king_step) && self.stepped(
                king_step,
                stamp,
            ).can_step(rook_step),
            StepKind::Promote { step, .. } => self.in_bounds(step.to) && self.in_bounds(step.from),
        }
    }

    /// Why a move cannot be made.
    pub open spec fn move_error(self, kind: StepKind, stamp: usize) -> ChessError {
        match kind {
            StepKind::GoTo(step) => self.step_error(step),
            StepKind::Castle { king_step, rook_step } => if self.can_step(king_step) {
                self.stepped(king_step, stamp).step_error(rook_step)
            } else {
                self.step_error(king_step)
            },
            StepKind::Promote { step, .. } => if self.in_bounds(step.to) {
                ChessError::OutOfBounds(step.from)
            } else {
                ChessError::OutOfBounds(step.to)
            },
        }
    }

    /// The grid after a move by the side `color`: one step; the king's step
    /// and then the rook's; or a new piece of the promoted kind on the
    /// destination and an empty origin.
    pub open spec fn moved(self, kind: StepKind, stamp: usize, color: PieceColor) -> Grid {
        match kind {
            StepKind::GoTo(step) => self.stepped(step, stamp),
            StepKind::Castle { king_step, rook_step } => self.stepped(king_step, stamp).stepped(
                rook_step,
                stamp,
            ),
            StepKind::Promote { step, piece } => self.put(
                step.to,
                FieldContent::Occupied { piece: ColoredPiece { kind: piece, color }, turn: stamp },
            ).put(step.from, FieldContent::Empty),
        }
    }
}

impl BoardView {
    /// The side to move: White on even turns, Black on odd ones.
    pub open spec fn turn_color(self) -> PieceColor {
        if self.turn % 2 == 0 {
            PieceColor::White
        } else {
            PieceColor::Black
        }
    }

    /// The board after one step, which leaves the turn counter as it is.
    pub open spec fn stepped(self, step: Step) -> Result<BoardView, ChessError> {
        if self.grid.can_step(step) {
            Ok(BoardView { grid: self.grid.stepped(step, self.turn), ..self })
        } else {
            Err(self.grid.step_error(step))
        }
    }

    /// The board after the side to move has made a move: the pieces are
    /// relocated, stamped with the current turn, and the turn counter
    /// advances by one. A move that cannot be made, or a turn counter that
    /// cannot advance, gives the error.
    pub open spec fn applied(self, kind: StepKind) -> Result<BoardView, ChessError> {
        if !self.grid.can_move(kind, self.turn) {
            Err(self.grid.move_error(kind, self.turn))
        } else if self.turn == usize::MAX {
            Err(ChessError::TurnLimit)
        } else {
            Ok(
                BoardView {
                    grid: self.grid.moved(kind, self.turn, self.turn_color()),
                    turn: (self.turn + 1) as usize,
                },
            )
        }
    }
}

/// The side to move changes with every move that is applied.
pub proof fn lemma_applied_alternates(board: BoardView, kind: StepKind)
    requires
        board.applied(kind) is Ok,
    ensures
        board.applied(kind)->Ok_0.turn == board.turn + 1,
        board.applied(kind)->Ok_0.turn_color() == opponent(board.turn_color()),
        board.applied(kind)->Ok_0.turn_color() != board.turn_color(),
{
}

/// The place of a square in a vector that holds the board rank by rank.
pub proof fn lemma_flat_index(w: int, h: int, x: int, y: int)
    requires
        0 <= x < w,
        0 <= y < h,
    ensures
        0 <= y * w + x < w * h,
        w * y == y * w,
{
    assert(0 <= y * w + x < w * h && w * y == y * w) by (nonlinear_arith)
        requires
            0 <= x < w,
            0 <= y < h,
    ;
}

/// Two squares of a board have different places in the vector.
pub proof fn lemma_flat_index_distinct(w: int, a: Location, b: Location)
    requires
        a.x < w,
        b.x < w,
        a != b,
    ensures
        a.y * w + a.x != b.y * w + b.x,
{
    let (ax, ay, bx, by) = (a.x as int, a.y as int, b.x as int, b.y as int);
    assert(ay * w + ax == by * w + bx ==> ax == bx && ay == by) by (nonlinear_arith)
        requires
            0 <= ax < w,
            0 <= bx < w,
            0 <= ay,
            0 <= by,
    ;
}

/// Each square of a board stands once in the list of its squares.
pub proof fn lemma_location_place(grid: Grid, loc: Location)
    requires
        grid.in_bounds(loc),
    ensures
        0 <= loc.y * grid.width + loc.x < grid.locations().len(),
        grid.locations()[loc.y * grid.width + loc.x] == loc,
        forall|i: int|
            0 <= i < grid.locations().len() && #[trigger] grid.locations()[i] == loc ==> i == loc.y
                * grid.width + loc.x,
{
    let w = grid.width as int;
    let j = loc.y * w + loc.x;
    lemma_flat_index(w, grid.height as int, loc.x as int, loc.y as int);
    lemma_fundamental_div_mod_converse(j, w, loc.y as int, loc.x as int);
    assert forall|i: int|
        0 <= i < grid.locations().len() && #[trigger] grid.locations()[i] == loc implies i == j by {
        lemma_fundamental_div_mod(i, w);
        lemma_mod_bound(i, w);
        lemma_div_pos_is_pos(i, w);
        lemma_multiply_divide_lt(i, w, grid.height as int);
        assert(w * (i / w) == (i / w) * w) by (nonlinear_arith);
    }
}

/// Among the kings of a colour exactly one comes first.
pub proof fn lemma_first_king_unique(grid: Grid, color: PieceColor, a: Location, b: Location)
    requires
        grid.is_first_king(a, color),
        grid.is_first_king(b, color),
    ensures
        a == b,
{
}

/// `n` copies of `s`, one after the other.
pub open spec fn repeated(s: Seq<char>, n: nat) -> Seq<char>
    decreases n,
{
    if n == 0 {
        Seq::empty()
    } else {
        repeated(s, (n - 1) as nat) + s
    }
}

/// The line of dashes above and below a drawn board of `width` files.
pub open spec fn frame_line(width: usize) -> Seq<char> {
    repeated(seq!['-', '-', '-', '-'], width as nat) + seq!['-']
}

/// The line between two ranks of a drawn board.
pub open spec fn middle_line_of(width: usize) -> Seq<char> {
    repeated(seq!['|', '-', '-', '-'], width as nat) + seq!['|', '\n']
}

/// The first `n` squares of rank `y` as they are drawn: each after a bar
/// and between two blanks.
pub open spec fn pretty_squares(grid: Grid, y: usize, n: nat) -> Seq<char>
    decreases n,
{
    if n == 0 {
        Seq::empty()
    } else {
        pretty_squares(grid, y, (n - 1) as nat) + seq!['|', ' '] + pretty(
            grid.squares[Location { x: (n - 1) as usize, y }],
        ) + seq![' ']
    }
}

/// The ranks below rank `n` as they are drawn, from rank `n - 1` down to the
/// first, with a middle line between two of them.
pub open spec fn pretty_ranks(grid: Grid, n: nat) -> Seq<char>
    decreases n,
{
    if n == 0 {
        Seq::empty()
    } else {
        pretty_squares(grid, (n - 1) as usize, grid.width as nat) + seq!['|', '\n'] + (if n - 1 != 0 {
            middle_line_of(grid.width)
        } else {
            Seq::empty()
        }) + pretty_ranks(grid, (n - 1) as nat)
    }
}

/// The whole drawing of a board.
pub open spec fn pretty_board(grid: Grid) -> Seq<char> {
    frame_line(grid.width) + seq!['\n'] + pretty_ranks(grid, grid.height as nat) + frame_line(grid.width)
}

/// The board. Its squares are kept rank by rank in one vector, the square
/// `(x, y)` at index `y * width + x`.
#[derive(Debug)]
pub struct Board {
    width: usize,
    height: usize,
    fields: Vec<FieldContent>,
    turn: usize,
}

impl View for Board {
    type V = BoardView;

    closed spec fn view(&self) -> BoardView {
        model(self.width, self.height, self.fields@, self.turn)
    }
}

/// The board that a vector of squares stands for.
pub closed spec fn model(
    width: usize,
    height: usize,
    fields: Seq<FieldContent>,
    turn: usize,
) -> BoardView {
    BoardView {
        grid: Grid {
            width,
            height,
            squares: Map::new(
                |loc: Location| loc.x < width && loc.y < height,
                |loc: Location| fields[loc.y * width + loc.x],
            ),
        },
        turn,
    }
}

impl Clone for Board {
    fn clone(&self) -> (copy: Self)
        ensures
            copy@ == self@,
    {
        proof {
            use_type_invariant(self);
        }
        let mut fields: Vec<FieldContent> = Vec::new();
        let mut i: usize = 0;
        while i < self.fields.len()
            invariant
                i <= self.fields.len(),
                fields@ == self.fields@.take(i as int),
            decreases self.fields.len() - i,
        {
            fields.push(self.fields[i]);
            assert(fields@ =~= self.fields@.take(i + 1));
            i = i + 1;
        }
        assert(fields@ =~= self.fields@);
        let copy = Board { width: self.width, height: self.height, fields, turn: self.turn };
        assert(copy@.grid.squares =~= self@.grid.squares);
        copy
    }
}

impl Default for Board {
    fn default() -> (board: Self)
        ensures
            board@ == standard_position(),
    {
        Self::standard_board()
    }
}

/// The kind of the piece that starts on file `x` of a back rank.
pub open spec fn back_rank_kind(x: usize) -> PieceKind {
    if x == 0 || x == 7 {
        PieceKind::Rook
    } else if x == 1 || x == 6 {
        PieceKind::Knight
    } else if x == 2 || x == 5 {
        PieceKind::Bishop
    } else if x == 3 {
        PieceKind::Queen
    } else {
        PieceKind::King
    }
}

/// What a square holds at the start of a game.
pub open spec fn opening_content(loc: Location) -> FieldContent {
    if loc.y == 0 {
        FieldContent::Occupied {
            piece: ColoredPiece { kind: back_rank_kind(loc.x), color: PieceColor::White },
            turn: 0,
        }
    } else if loc.y == 1 {
        FieldContent::Occupied {
            piece: ColoredPiece { kind: PieceKind::Pawn, color: PieceColor::White },
            turn: 0,
        }
    } else if loc.y == 6 {
        FieldContent::Occupied {
            piece: ColoredPiece { kind: PieceKind::Pawn, color: PieceColor::Black },
            turn: 0,
        }
    } else if loc.y == 7 {
        FieldContent::Occupied {
            piece: ColoredPiece { kind: back_rank_kind(loc.x), color: PieceColor::Black },
            turn: 0,
        }
    } else {
        FieldContent::Empty
    }
}

/// The position from which a game starts: thirty-two pieces on a board of
/// eight by eight, none of them moved, White to move.
pub open spec fn standard_position() -> BoardView {
    BoardView {
        grid: Grid {
            width: 8,
            height: 8,
            squares: Map::new(
                |loc: Location| loc.x < 8 && loc.y < 8,
                |loc: Location| opening_content(loc),
            ),
        },
        turn: 0,
    }
}

impl Board {
    /// The vector holds one square for each location of the board.
    #[verifier::type_invariant]
    pub closed spec fn inv(&self) -> bool {
        self.fields@.len() == self.width * self.height
    }

    /// A square of the board has its place in the vector.
    proof fn lemma_index(&self, loc: Location)
        requires
            self.inv(),
            self@.grid.in_bounds(loc),
        ensures
            0 <= loc.y * self.width + loc.x < self.fields@.len(),
            self.width * loc.y + loc.x == loc.y * self.width + loc.x,
            self@.grid.squares[loc] == self.fields@[loc.y * self.width + loc.x],
    {
        lemma_flat_index(self.width as int, self.height as int, loc.x as int, loc.y as int);
    }

    /// Replacing one entry of the vector replaces one square of the model.
    proof fn lemma_update(&self, loc: Location)
        requires
            self.inv(),
            self@.grid.in_bounds(loc),
        ensures
            forall|content: FieldContent| #[trigger]
                model(
                    self.width,
                    self.height,
                    self.fields@.update(loc.y * self.width + loc.x, content),
                    self.turn,
                ) == (BoardView { grid: self@.grid.put(loc, content), turn: self@.turn }),
    {
        self.lemma_index(loc);
        assert forall|content: FieldContent| #[trigger]
            model(
                self.width,
                self.height,
                self.fields@.update(loc.y * self.width + loc.x, content),
                self.turn,
            ) == (BoardView { grid: self@.grid.put(loc, content), turn: self@.turn }) by {
            let after = model(
                self.width,
                self.height,
                self.fields@.update(loc.y * self.width + loc.x, content),
                self.turn,
            );
            let expected = self@.grid.put(loc, content);
            assert forall|other: Location| #[trigger]
                after.grid.squares.dom().contains(other) implies after.grid.squares[other]
                == expected.squares[other] by {
                self.lemma_index(other);
                if other != loc {
                    lemma_flat_index_distinct(self.width as int, other, loc);
                }
            }
            assert(after.grid.squares.dom() =~= expected.squares.dom());
            assert(after.grid.squares =~= expected.squares);
        }
    }

    /// The model of a board is a well-formed grid.
    pub proof fn lemma_view_wf(&self)
        ensures
            self@.grid.wf(),
    {
    }

    /// An empty board of the given size, with White to move.
    pub fn new(width: usize, height: usize) -> (board: Self)
        requires
            width * height <= usize::MAX,
        ensures
            board@ == (BoardView { grid: Grid::empty(width, height), turn: 0 }),
    {
        let size: usize = width * height;
        let mut fields: Vec<FieldContent> = Vec::new();
        let mut i: usize = 0;
        while i < size
            invariant
                i <= size,
                fields@.len() == i,
                forall|j: int| 0 <= j < i ==> fields@[j] == FieldContent::Empty,
            decreases size - i,
        {
            fields.push(FieldContent::Empty);
            i = i + 1;
        }
        let board = Self { height, width, fields, turn: 0 };
        proof {
            let expected = Grid::empty(width, height);
            assert forall|loc: Location| #[trigger]
                board@.grid.squares.dom().contains(loc) implies board@.grid.squares[loc]
                == expected.squares[loc] by {
                board.lemma_index(loc);
            }
            assert(board@.grid.squares.dom() =~= expected.squares.dom());
            assert(board@.grid.squares =~= expected.squares);
        }
        board
    }

    /// The number of files.
    pub fn width(&self) -> (w: usize)
        ensures
            w == self@.grid.width,
            self@.grid.wf(),
    {
        self.width
    }

    /// The number of ranks.
    pub fn height(&self) -> (h: usize)
        ensures
            h == self@.grid.height,
            self@.grid.wf(),
    {
        self.height
    }

    /// The number of moves made so far.
    pub fn turn(&self) -> (t: usize)
        ensures
            t == self@.turn,
    {
        self.turn
    }

    /// Whether a square holds a piece of the given colour and of one of the
    /// given kinds.
    pub fn location_contains_piece(
        &self,
        location: &Location,
        piece_kinds: Vec<PieceKind>,
        target_color: PieceColor,
    ) -> (r: bool)
        ensures
            r == match self@.grid.piece_at(*location) {
                Some(piece) => piece_kinds@.contains(piece.kind) && piece.color == target_color,
                None => false,
            },
    {
        let field_opt = self.field_at_location(location);
        if let Some(FieldContent::Occupied { piece: ColoredPiece { kind, color }, .. }) = field_opt {
            let mut found = false;
            let mut i: usize = 0;
            while i < piece_kinds.len()
                invariant
                    i <= piece_kinds.len(),
                    found == exists|j: int| 0 <= j < i && piece_kinds@[j] == *kind,
                decreases piece_kinds.len() - i,
            {
                if piece_kinds[i] == *kind {
                    found = true;
                }
                i = i + 1;
            }
            found && *color == target_color
        } else {
            false
        }
    }

    /// Whether a square holds a piece that has not moved.
    pub fn location_piece_unmoved(&self, location: &Location) -> (r: bool)
        ensures
            r == match self@.grid.field_at(*location) {
                Some(FieldContent::Occupied { turn, .. }) => turn == 0,
                _ => false,
            },
    {
        let field_opt = self.field_at_location(location);
        match field_opt {
            Some(FieldContent::Occupied { turn, .. }) => *turn == 0,
            _ => false,
        }
    }

    /// Whether a square of the board is empty.
    pub fn location_is_emtpy(&self, location: &Location) -> (r: bool)
        requires
            self@.grid.in_bounds(*location),
        ensures
            r == (self@.grid.field_at(*location) == Some(FieldContent::Empty)),
    {
        let field_opt = self.field_at_location(location);
        match field_opt {
            Some(FieldContent::Empty) => true,
            _ => false,
        }
    }

    /// The square of the king of the given colour: where the board holds
    /// several, the first in the order of `locations`.
    pub fn find_king(&self, target_color: PieceColor) -> (r: Option<Location>)
        ensures
            match r {
                Some(loc) => self@.grid.has_king(target_color) && loc == self@.grid.king_location(
                    target_color,
                ) && self@.grid.is_first_king(loc, target_color),
                None => !self@.grid.has_king(target_color),
            },
    {
        proof {
            use_type_invariant(self);
        }
        let king = ColoredPiece { kind: PieceKind::King, color: target_color };
        let mut idx: usize = 0;
        while idx < self.fields.len()
            invariant
                self.inv(),
                idx <= self.fields.len(),
                king == (ColoredPiece { kind: PieceKind::King, color: target_color }),
                forall|j: int| 0 <= j < idx ==> piece_of(#[trigger] self.fields@[j]) != Some(king),
            decreases self.fields.len() - idx,
        {
            if let FieldContent::Occupied { piece, .. } = self.fields[idx] {
                if piece.kind == PieceKind::King && piece.color == target_color {
                    let loc = self.revert_compute_location(idx);
                    proof {
                        self.lemma_index(loc);
                        assert(self@.grid.is_king_of(loc, target_color));
                        assert forall|other: Location| #[trigger]
                            self@.grid.is_king_of(other, target_color) implies !precedes(
                            other,
                            loc,
                        ) by {
                            self.lemma_index(other);
                            let j = other.y * self.width + other.x;
                            if precedes(other, loc) {
                                assert(j < idx) by (nonlinear_arith)
                                    requires
                                        j == other.y * self.width + other.x,
                                        idx == loc.y * self.width + loc.x,
                                        precedes(other, loc),
                                        other.x < self.width,
                                        loc.x < self.width,
                                ;
                                assert(piece_of(self.fields@[j]) != Some(king));
                            }
                        }
                        let first = self@.grid.king_location(target_color);
                        assert(self@.grid.is_first_king(loc, target_color));
                        lemma_first_king_unique(self@.grid, target_color, loc, first);
                    }
                    return Some(loc);
                }
            }
            idx = idx + 1;
        }
        proof {
            assert forall|loc: Location| !self@.grid.is_king_of(loc, target_color) by {
                if self@.grid.in_bounds(loc) {
                    self.lemma_index(loc);
                    assert(piece_of(self.fields@[loc.y * self.width + loc.x]) != Some(king));
                }
            }
        }
        None
    }

    /// All squares of the board, rank by rank.
    pub fn locations(&self) -> (all: Vec<Location>)
        ensures
            all@ == self@.grid.locations(),
    {
        proof {
            use_type_invariant(self);
        }
        let mut all: Vec<Location> = Vec::new();
        let mut idx: usize = 0;
        while idx < self.fields.len()
            invariant
                self.inv(),
                idx <= self.fields.len(),
                all@.len() == idx,
                forall|j: int| 0 <= j < idx ==> all@[j] == self@.grid.locations()[j],
            decreases self.fields.len() - idx,
        {
            let loc = self.revert_compute_location(idx);
            all.push(loc);
            idx = idx + 1;
        }
        assert(all@ =~= self@.grid.locations());
        all
    }

    /// The square that lies `direction` away from `location`, if it is on
    /// the board.
    pub fn add_location_direction(&self, location: &Location, direction: &Direction) -> (r: Option<
        Location,
    >)
        ensures
            r == self@.grid.neighbour(*location, *direction),
    {
        let x: i128 = location.x as i128 + direction.0 as i128;
        let y: i128 = location.y as i128 + direction.1 as i128;
        if 0 <= x && x < self.width as i128 && 0 <= y && y < self.height as i128 {
            Some(Location { x: x as usize, y: y as usize })
        } else {
            None
        }
    }

    fn compute_index_xy(&self, x: usize, y: usize) -> (idx: usize)
        requires
            x < self@.grid.width,
            y < self@.grid.height,
        ensures
            idx == y * self@.grid.width + x,
            idx < self@.grid.width * self@.grid.height,
    {
        proof {
            use_type_invariant(self);
            lemma_flat_index(self.width as int, self.height as int, x as int, y as int);
            assert(self.fields@.len() == self.fields.len());
        }
        self.width * y + x
    }

    fn revert_compute_location(&self, idx: usize) -> (loc: Location)
        requires
            idx < self@.grid.width * self@.grid.height,
        ensures
            self@.grid.in_bounds(loc),
            loc == self@.grid.locations()[idx as int],
            loc.y * self@.grid.width + loc.x == idx,
    {
        let (x, y) = self.revert_compute_index(idx);
        Location { x, y }
    }

    fn revert_compute_index(&self, idx: usize) -> (xy: (usize, usize))
        requires
            idx < self@.grid.width * self@.grid.height,
        ensures
            xy.0 == (idx as int) % (self@.grid.width as int),
            xy.1 == (idx as int) / (self@.grid.width as int),
            xy.0 < self@.grid.width,
            xy.1 < self@.grid.height,
            xy.1 * self@.grid.width + xy.0 == idx,
    {
        proof {
            let w = self.width as int;
            assert(w > 0) by (nonlinear_arith)
                requires
                    idx < w * self.height,
                    0 <= idx,
            ;
            lemma_multiply_divide_lt(idx as int, w, self.height as int);
            lemma_fundamental_div_mod(idx as int, w);
            lemma_mul_is_commutative(w, idx as int / w);
        }
        let y = idx / self.width;
        let x = idx % self.width;
        (x, y)
    }

    /// The side to move.
    pub fn turn_color(&self) -> (color: PieceColor)
        ensures
            color == self@.turn_color(),
    {
        if self.turn % 2 == 0 {
            PieceColor::White
        } else {
            PieceColor::Black
        }
    }

    /// What the square `(x, y)` holds; `None` outside the board.
    pub fn field_at_xy(&self, x: usize, y: usize) -> (r: Option<&FieldContent>)
        ensures
            match r {
                Some(content) => self@.grid.field_at(Location { x, y }) == Some(*content),
                None => self@.grid.field_at(Location { x, y }) is None,
            },
    {
        if x < self.width && y < self.height {
            let index = self.compute_index_xy(x, y);
            proof {
                use_type_invariant(self);
                self.lemma_index(Location { x, y });
            }
            Some(&self.fields[index])
        } else {
            None
        }
    }

    /// The content of a square, to be read or replaced in place.
    pub fn field_at_xy_mut(&mut self, x: usize, y: usize) -> (r: Option<&mut FieldContent>)
        ensures
            match r {
                Some(content) => old(self)@.grid.field_at(Location { x, y }) == Some(*content)
                    && final(self)@ == (BoardView {
                    grid: old(self)@.grid.put(Location { x, y }, *final(content)),
                    ..old(self)@
                }),
                None => old(self)@.grid.field_at(Location { x, y }) is None && final(self)@ == old(self)@,
            },
    {
        if x < self.width && y < self.height {
            let index = self.compute_index_xy(x, y);
            proof {
                use_type_invariant(&*self);
                self.lemma_index(Location { x, y });
            }
            proof {
                self.lemma_update(Location { x, y });
            }
            Some(&mut self.fields[index])
        } else {
            None
        }
    }

    /// What a square holds; `None` outside the board.
    pub fn field_at_location(&self, location: &Location) -> (r: Option<&FieldContent>)
        ensures
            match r {
                Some(content) => self@.grid.field_at(*location) == Some(*content),
                None => self@.grid.field_at(*location) is None,
            },
    {
        self.field_at_xy(location.x, location.y)
    }

    /// The content of a square, to be read or replaced in place.
    pub fn field_at_location_mut(&mut self, location: &Location) -> (r: Option<&mut FieldContent>)
        ensures
            match r {
                Some(content) => old(self)@.grid.field_at(*location) == Some(*content)
                    && final(self)@ == (BoardView {
                    grid: old(self)@.grid.put(*location, *final(content)),
                    ..old(self)@
                }),
                None => old(self)@.grid.field_at(*location) is None && final(self)@ == old(self)@,
            },
    {
        self.field_at_xy_mut(location.x, location.y)
    }

    /// Whether a location is a square of the board.
    pub fn in_bounds(&self, location: &Location) -> (r: bool)
        ensures
            r == self@.grid.in_bounds(*location),
    {
        location.x < self.width && location.y < self.height
    }

    fn set_field_empty(&mut self, location: &Location)
        requires
            old(self)@.grid.in_bounds(*location),
        ensures
            final(self)@ == (BoardView {
                grid: old(self)@.grid.put(*location, FieldContent::Empty),
                ..old(self)@
            }),
    {
        let index = self.compute_index_xy(location.x, location.y);
        proof {
            use_type_invariant(&*self);
            self.lemma_index(*location);
            self.lemma_update(*location);
        }
        self.fields[index] = FieldContent::Empty;
    }

    /// Puts a piece on a square of the board, with the turn on which it
    /// arrived there.
    pub fn put_piece_on_field_xy(&mut self, colored_piece: ColoredPiece, xy: (usize, usize), turn: usize)
        requires
            old(self)@.grid.in_bounds(Location { x: xy.0, y: xy.1 }),
        ensures
            final(self)@ == (BoardView {
                grid: old(self)@.grid.put(
                    Location { x: xy.0, y: xy.1 },
                    FieldContent::Occupied { piece: colored_piece, turn },
                ),
                ..old(self)@
            }),
    {
        let index = self.compute_index_xy(xy.0, xy.1);
        proof {
            use_type_invariant(&*self);
            self.lemma_index(Location { x: xy.0, y: xy.1 });
            self.lemma_update(Location { x: xy.0, y: xy.1 });
        }
        self.fields[index] = FieldContent::Occupied { piece: colored_piece, turn };
    }

    /// Puts a piece on a square of the board, with the turn on which it
    /// arrived there.
    pub fn put_piece_on_location(&mut self, colored_piece: ColoredPiece, location: &Location, turn: usize)
        requires
            old(self)@.grid.in_bounds(*location),
        ensures
            final(self)@ == (BoardView {
                grid: old(self)@.grid.put(
                    *location,
                    FieldContent::Occupied { piece: colored_piece, turn },
                ),
                ..old(self)@
            }),
    {
        self.put_piece_on_field_xy(colored_piece, (location.x, location.y), turn);
    }

    /// The piece on a square, if there is one.
    fn piece_on(&self, location: &Location) -> (r: Option<ColoredPiece>)
        ensures
            r == self@.grid.piece_at(*location),
    {
        match self.field_at_location(location) {
            Some(FieldContent::Occupied { piece, .. }) => Some(*piece),
            _ => None,
        }
    }

    /// Whether a step can be made, and the error where it cannot.
    fn check_step(&self, step: &Step) -> (r: Result<(), ChessError>)
        ensures
            match r {
                Ok(_) => self@.grid.can_step(*step),
                Err(e) => !self@.grid.can_step(*step) && e == self@.grid.step_error(*step),
            },
    {
        if self.piece_on(&step.from).is_none() {
            Err(ChessError::EmptyField(step.from))
        } else if !self.in_bounds(&step.to) {
            Err(ChessError::OutOfBounds(step.to))
        } else {
            Ok(())
        }
    }

    /// Whether a move can be made, and the error where it cannot.
    fn check_move(&self, kind: &StepKind) -> (r: Result<(), ChessError>)
        ensures
            match r {
                Ok(_) => self@.grid.can_move(*kind, self@.turn),
                Err(e) => !self@.grid.can_move(*kind, self@.turn) && e == self@.grid.move_error(
                    *kind,
                    self@.turn,
                ),
            },
    {
        match kind {
            StepKind::GoTo(step) => self.check_step(step),
            StepKind::Castle { king_step, rook_step } => {
                match self.check_step(king_step) {
                    Ok(_) => {},
                    Err(e) => {
                        return Err(e);
                    },
                }
                // what the rook's origin will hold once the king has moved
                let occupied = if rook_step.from == king_step.from {
                    false
                } else if rook_step.from == king_step.to {
                    true
                } else {
                    self.piece_on(&rook_step.from).is_some()
                };
                if !occupied {
                    Err(ChessError::EmptyField(rook_step.from))
                } else if !self.in_bounds(&rook_step.to) {
                    Err(ChessError::OutOfBounds(rook_step.to))
                } else {
                    Ok(())
                }
            },
            StepKind::Promote { step, .. } => {
                if !self.in_bounds(&step.to) {
                    Err(ChessError::OutOfBounds(step.to))
                } else if !self.in_bounds(&step.from) {
                    Err(ChessError::OutOfBounds(step.from))
                } else {
                    Ok(())
                }
            },
        }
    }

    /// Makes a step that can be made.
    fn relocate(&mut self, step: &Step)
        requires
            old(self)@.grid.can_step(*step),
        ensures
            final(self)@ == (BoardView {
                grid: old(self)@.grid.stepped(*step, old(self)@.turn),
                ..old(self)@
            }),
    {
        let piece = match self.piece_on(&step.from) {
            Some(piece) => piece,
            None => {
                return ;
            },
        };
        let turn = self.turn;
        self.put_piece_on_location(piece, &step.to, turn);
        self.set_field_empty(&step.from);
    }

    /// Makes a move that can be made, without advancing the turn counter.
    fn shift(&mut self, step_kind: &StepKind)
        requires
            old(self)@.grid.can_move(*step_kind, old(self)@.turn),
        ensures
            final(self)@ == (BoardView {
                grid: old(self)@.grid.moved(*step_kind, old(self)@.turn, old(self)@.turn_color()),
                ..old(self)@
            }),
    {
        match step_kind {
            StepKind::GoTo(step) => self.relocate(step),
            StepKind::Castle { king_step, rook_step } => {
                self.relocate(king_step);
                self.relocate(rook_step);
            },
            StepKind::Promote { step: Step { from, to }, piece } => {
                let color = self.turn_color();
                let turn = self.turn;
                self.put_piece_on_location(ColoredPiece { kind: *piece, color }, to, turn);
                self.set_field_empty(from);
            },
        }
    }

    /// Moves the pieces as the side to move asks, and leaves the turn
    /// counter as it is. The board is unchanged where the move cannot be made.
    pub fn move_pieces(&mut self, step_kind: &StepKind) -> (r: Result<(), ChessError>)
        ensures
            match r {
                Ok(_) => old(self)@.grid.can_move(*step_kind, old(self)@.turn) && final(self)@ == (
                BoardView {
                    grid: old(self)@.grid.moved(
                        *step_kind,
                        old(self)@.turn,
                        old(self)@.turn_color(),
                    ),
                    ..old(self)@
                }),
                Err(e) => !old(self)@.grid.can_move(*step_kind, old(self)@.turn)
                    && e == old(self)@.grid.move_error(
                    *step_kind,
                    old(self)@.turn,
                ) && final(self)@ == old(self)@,
            },
    {
        match self.check_move(step_kind) {
            Ok(_) => {
                self.shift(step_kind);
                Ok(())
            },
            Err(e) => Err(e),
        }
    }

    /// Makes a move for the side to move and passes the turn to the other
    /// side. The board is unchanged where this fails.
    pub fn apply_step_kind(&mut self, step_kind: &StepKind) -> (r: Result<(), ChessError>)
        ensures
            match old(self)@.applied(*step_kind) {
                Ok(after) => r is Ok && final(self)@ == after,
                Err(e) => r == Err::<(), ChessError>(e) && final(self)@ == old(self)@,
            },
            r is Ok ==> final(self)@.turn_color() == opponent(old(self)@.turn_color()),
    {
        match self.check_move(step_kind) {
            Ok(_) => {},
            Err(e) => {
                return Err(e);
            },
        }
        if self.turn == usize::MAX {
            return Err(ChessError::TurnLimit);
        }
        self.shift(step_kind);
        proof {
            use_type_invariant(&*self);
        }
        self.turn += 1;
        Ok(())
    }

    /// Moves the piece on `step.from` to `step.to`, with the current turn as
    /// its stamp, and empties `step.from`. The board is unchanged where
    /// this fails.
    pub fn apply_step(&mut self, step: &Step) -> (r: Result<(), ChessError>)
        ensures
            match old(self)@.stepped(*step) {
                Ok(after) => r is Ok && final(self)@ == after,
                Err(e) => r == Err::<(), ChessError>(e) && final(self)@ == old(self)@,
            },
    {
        match self.check_step(step) {
            Ok(_) => {
                self.relocate(step);
                Ok(())
            },
            Err(e) => Err(e),
        }
    }

    /// Draws the board as text, the last rank at the top: a frame of
    /// dashes, and each square between bars.
    #[verifier::loop_isolation(false)]
    pub fn to_pretty_string(&self) -> (s: String)
        ensures
            s@ == pretty_board(self@.grid),
    {
        proof {
            reveal_strlit("-");
            reveal_strlit("----");
            reveal_strlit("|---");
            reveal_strlit("|\n");
            reveal_strlit("\n");
            reveal_strlit("| ");
            reveal_strlit(" ");
            assert("-"@ =~= seq!['-']);
            assert("----"@ =~= seq!['-', '-', '-', '-']);
            assert("|---"@ =~= seq!['|', '-', '-', '-']);
            assert("|\n"@ =~= seq!['|', '\n']);
            assert("\n"@ =~= seq!['\n']);
            assert("| "@ =~= seq!['|', ' ']);
            assert(" "@ =~= seq![' ']);
        }
        let mut line = String::new();
        let mut middle_line = String::new();
        let mut i: usize = 0;
        while i < self.width
            invariant
                i <= self.width,
                line@ == repeated(seq!['-', '-', '-', '-'], i as nat),
                middle_line@ == repeated(seq!['|', '-', '-', '-'], i as nat),
            decreases self.width - i,
        {
            line.append("----");
            middle_line.append("|---");
            i = i + 1;
        }
        line.append("-");
        middle_line.append("|\n");
        let mut result = line.clone();
        result.append("\n");
        let ghost header = result@;
        let ghost grid = self@.grid;
        let mut y: usize = self.height;
        assert(result@ + pretty_ranks(grid, y as nat) =~= header + pretty_ranks(grid, grid.height as nat));
        while y > 0
            invariant
                y <= self.height,
                result@ + pretty_ranks(grid, y as nat) == header + pretty_ranks(grid, grid.height as nat),
            decreases y,
        {
            let ghost start = result@;
            y = y - 1;
            let mut x: usize = 0;
            assert(result@ =~= start + pretty_squares(grid, y, x as nat));
            while x < self.width
                invariant
                    x <= self.width,
                    result@ == start + pretty_squares(grid, y, x as nat),
                decreases self.width - x,
            {
                let ghost so_far = result@;
                let icon = match self.field_at_xy(x, y) {
                    Some(field) => field.to_pretty_string(),
                    None => String::new(),
                };
                assert(icon@ == pretty(grid.squares[Location { x, y }]));
                result.append("| ");
                result.append(icon.as_str());
                result.append(" ");
                assert(result@ =~= so_far + seq!['|', ' '] + icon@ + seq![' ']);
                assert(pretty_squares(grid, y, (x + 1) as nat) == pretty_squares(grid, y, x as nat)
                    + seq!['|', ' '] + icon@ + seq![' ']);
                assert(result@ =~= start + pretty_squares(grid, y, (x + 1) as nat));
                x = x + 1;
            }
            let ghost squares = result@;
            result.append("|\n");
            if y != 0 {
                result.append(middle_line.as_str());
            }
            assert(result@ =~= start + (pretty_squares(grid, y, grid.width as nat) + seq!['|', '\n'] + (if y
                != 0 {
                middle_line_of(grid.width)
            } else {
                Seq::empty()
            })));
            assert(pretty_ranks(grid, (y + 1) as nat) == pretty_squares(grid, y, grid.width as nat) + seq![
                '|',
                '\n',
            ] + (if y != 0 {
                middle_line_of(grid.width)
            } else {
                Seq::empty()
            }) + pretty_ranks(grid, y as nat));
            assert(result@ + pretty_ranks(grid, y as nat) =~= start + pretty_ranks(
                grid,
                (y + 1) as nat,
            ));
        }
        result.append(line.as_str());
        assert(result@ =~= pretty_board(grid));
        result
    }

    /// The board from which a game starts.
    pub fn standard_board() -> (board: Self)
        ensures
            board@ == standard_position(),
    {
        let mut board = Self::new(8, 8);

        // standard pieces:
        let white_pawn = ColoredPiece { kind: PieceKind::Pawn, color: PieceColor::White };
        let black_pawn = ColoredPiece { kind: PieceKind::Pawn, color: PieceColor::Black };
        let mut i: usize = 0;
        while i < 8
            invariant
                i <= 8,
                white_pawn == (ColoredPiece { kind: PieceKind::Pawn, color: PieceColor::White }),
                black_pawn == (ColoredPiece { kind: PieceKind::Pawn, color: PieceColor::Black }),
                board@.turn == 0,
                board@.grid.width == 8,
                board@.grid.height == 8,
                board@.grid.wf(),
                forall|loc: Location|
                    board@.grid.in_bounds(loc) ==> #[trigger] board@.grid.squares[loc] == (if (loc.y
                        == 1 || loc.y == 6) && loc.x < i {
                        opening_content(loc)
                    } else {
                        FieldContent::Empty
                    }),
            decreases 8 - i,
        {
            board.put_piece_on_field_xy(white_pawn, (i, 1), 0);
            board.put_piece_on_field_xy(black_pawn, (i, 6), 0);
            i = i + 1;
        }

        let white_rook = ColoredPiece { kind: PieceKind::Rook, color: PieceColor::White };
        let black_rook = ColoredPiece { kind: PieceKind::Rook, color: PieceColor::Black };
        board.put_piece_on_field_xy(white_rook, (0, 0), 0);
        board.put_piece_on_field_xy(white_rook, (7, 0), 0);
        board.put_piece_on_field_xy(black_rook, (0, 7), 0);
        board.put_piece_on_field_xy(black_rook, (7, 7), 0);

        let white_knight = ColoredPiece { kind: PieceKind::Knight, color: PieceColor::White };
        let black_knight = ColoredPiece { kind: PieceKind::Knight, color: PieceColor::Black };
        board.put_piece_on_field_xy(white_knight, (1, 0), 0);
        board.put_piece_on_field_xy(white_knight, (6, 0), 0);
        board.put_piece_on_field_xy(black_knight, (1, 7), 0);
        board.put_piece_on_field_xy(black_knight, (6, 7), 0);

        let white_bishop = ColoredPiece { kind: PieceKind::Bishop, color: PieceColor::White };
        let black_bishop = ColoredPiece { kind: PieceKind::Bishop, color: PieceColor::Black };
        board.put_piece_on_field_xy(white_bishop, (2, 0), 0);
        board.put_piece_on_field_xy(white_bishop, (5, 0), 0);
        board.put_piece_on_field_xy(black_bishop, (2, 7), 0);
        board.put_piece_on_field_xy(black_bishop, (5, 7), 0);

        let white_queen = ColoredPiece { kind: PieceKind::Queen, color: PieceColor::White };
        let black_queen = ColoredPiece { kind: PieceKind::Queen, color: PieceColor::Black };
        board.put_piece_on_field_xy(white_queen, (3, 0), 0);
        board.put_piece_on_field_xy(black_queen, (3, 7), 0);

        let white_king = ColoredPiece { kind: PieceKind::King, color: PieceColor::White };
        let black_king = ColoredPiece { kind: PieceKind::King, color: PieceColor::Black };
        board.put_piece_on_field_xy(white_king, (4, 0), 0);
        board.put_piece_on_field_xy(black_king, (4, 7), 0);

        proof {
            let expected = standard_position();
            assert forall|loc: Location| #[trigger]
                board@.grid.squares.dom().contains(loc) implies board@.grid.squares[loc]
                == expected.grid.squares[loc] by {}
            assert(board@.grid.squares.dom() =~= expected.grid.squares.dom());
            assert(board@.grid.squares =~= expected.grid.squares);
        }
        board
    }
}

} // verus!
