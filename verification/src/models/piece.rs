//! Piece kinds and colours, and the table of how each kind moves.

use crate::models::error::ChessError;
use crate::models::step::Direction;
use crate::utils::text::{ascii_lower, decimal_digits, to_ascii_lower};
use ansi_term::Colour;
use vstd::prelude::*;

verus! {

/// The six kinds of pieces.
#[derive(Copy, Clone, Debug, PartialEq, Eq, Structural)]
pub enum PieceKind {
    Pawn,
    Rook,
    Knight,
    Bishop,
    Queen,
    King,
}

/// The two sides.
#[derive(Copy, Clone, Debug, PartialEq, Eq, Structural)]
pub enum PieceColor {
    White,
    Black,
}

/// A piece: its kind, and the side it belongs to.
#[derive(Copy, Clone, Debug, PartialEq, Eq, Structural)]
pub struct ColoredPiece {
    pub kind: PieceKind,
    pub color: PieceColor,
}

/// One way in which a piece may travel.
///
/// The piece walks from its square along `direction`, one multiple of it at a
/// time, for at most `distance` squares, or without limit where `distance` is
/// [`UNBOUNDED`]. With `must_take` it may only end on an enemy piece; without
/// `can_take` it may not end on any piece.
#[derive(Copy, Clone, Debug, PartialEq, Eq, Structural)]
pub struct MoveCapability {
    pub direction: Direction,
    pub distance: i16,
    pub must_take: bool,
    pub can_take: bool,
}

/// The `distance` of a capability that slides until something blocks it.
pub const UNBOUNDED: i16 = -1;

/// The colours of `ansi_term`, with their variants in view.
#[verifier::external_type_specification]
pub struct ExColour(Colour);

/// The parameter of the escape sequence that selects `colour` for the text.
pub open spec fn foreground_code(colour: Colour) -> Seq<char> {
    match colour {
        Colour::Black => seq!['3', '0'],
        Colour::Red => seq!['3', '1'],
        Colour::Green => seq!['3', '2'],
        Colour::Yellow => seq!['3', '3'],
        Colour::Blue => seq!['3', '4'],
        Colour::Purple => seq!['3', '5'],
        Colour::Cyan => seq!['3', '6'],
        Colour::White => seq!['3', '7'],
        Colour::Fixed(n) => seq!['3', '8', ';', '5', ';'] + decimal_digits(n as nat),
        Colour::RGB(r, g, b) => seq!['3', '8', ';', '2', ';'] + decimal_digits(r as nat) + seq![
            ';',
        ] + decimal_digits(g as nat) + seq![';'] + decimal_digits(b as nat),
    }
}

/// A text in a colour: the escape sequence that selects the colour, the
/// text, and the escape sequence that resets the terminal.
pub open spec fn painted(colour: Colour, text: Seq<char>) -> Seq<char> {
    seq!['\x1b', '['] + foreground_code(colour) + seq!['m'] + text + seq!['\x1b', '[', '0', 'm']
}

/// The colour in which the pieces of a side are shown.
pub open spec fn display_colour(color: PieceColor) -> Colour {
    match color {
        PieceColor::White => Colour::Yellow,
        PieceColor::Black => Colour::Red,
    }
}

/// Calls `ansi_term::Colour::paint` and renders what it returns. The
/// contract states the three parts that `ansi_term` writes for a style that
/// sets nothing but the foreground: `ESC [ code m`, the text, `ESC [ 0 m`.
#[verifier::external_body]
fn paint(colour: Colour, text: &str) -> (s: String)
    ensures
        s@ == painted(colour, text@),
{
    colour.paint(text).to_string()
}

/// The letter that stands for a piece kind in promotions.
pub open spec fn kind_letter(kind: PieceKind) -> char {
    match kind {
        PieceKind::Pawn => 'P',
        PieceKind::Bishop => 'B',
        PieceKind::Knight => 'N',
        PieceKind::Rook => 'R',
        PieceKind::Queen => 'Q',
        PieceKind::King => 'K',
    }
}

/// The glyph that shows a piece kind on screen.
pub open spec fn kind_symbol(kind: PieceKind) -> Seq<char> {
    match kind {
        PieceKind::Pawn => "\u{f0859}"@,
        PieceKind::Bishop => "\u{f085c}"@,
        PieceKind::Knight => "\u{f0858}"@,
        PieceKind::Rook => "\u{f085b}"@,
        PieceKind::Queen => "\u{f085a}"@,
        PieceKind::King => "\u{f0857}"@,
    }
}

/// The piece kind that a letter names, in either case.
pub open spec fn kind_of(c: char) -> Result<PieceKind, ChessError> {
    let lower = ascii_lower(c);
    if lower == 'p' {
        Ok(PieceKind::Pawn)
    } else if lower == 'b' {
        Ok(PieceKind::Bishop)
    } else if lower == 'n' {
        Ok(PieceKind::Knight)
    } else if lower == 'r' {
        Ok(PieceKind::Rook)
    } else if lower == 'q' {
        Ok(PieceKind::Queen)
    } else if lower == 'k' {
        Ok(PieceKind::King)
    } else {
        Err(ChessError::InvalidPieceKind(lower))
    }
}

/// The colour that a letter names, in either case.
pub open spec fn color_of(c: char) -> Result<PieceColor, ChessError> {
    let lower = ascii_lower(c);
    if lower == 'w' {
        Ok(PieceColor::White)
    } else if lower == 'b' {
        Ok(PieceColor::Black)
    } else {
        Err(ChessError::InvalidColor(lower))
    }
}

/// The letter of a piece kind names that kind.
pub proof fn lemma_kind_letter_round_trip(kind: PieceKind)
    ensures
        kind_of(kind_letter(kind)) == Ok::<PieceKind, ChessError>(kind),
{
}

/// The colour that moves second where `color` moves first.
pub open spec fn opponent(color: PieceColor) -> PieceColor {
    match color {
        PieceColor::White => PieceColor::Black,
        PieceColor::Black => PieceColor::White,
    }
}

/// The direction in which the pawns of a colour advance along the ranks.
pub open spec fn forward(color: PieceColor) -> int {
    match color {
        PieceColor::White => 1,
        PieceColor::Black => -1,
    }
}

/// The offset of `dx` files and `dy` ranks.
pub open spec fn offset(dx: int, dy: int) -> Direction {
    Direction(dx as isize, dy as isize)
}

/// The four directions along files and ranks.
pub open spec fn straight_directions() -> Seq<Direction> {
    seq![offset(0, 1), offset(0, -1), offset(1, 0), offset(-1, 0)]
}

/// The four diagonal directions.
pub open spec fn diagonal_directions() -> Seq<Direction> {
    seq![offset(1, 1), offset(1, -1), offset(-1, 1), offset(-1, -1)]
}

/// The eight jumps of a knight.
pub open spec fn knight_jumps() -> Seq<Direction> {
    seq![
        offset(1, 2),
        offset(1, -2),
        offset(-1, 2),
        offset(-1, -2),
        offset(2, 1),
        offset(2, -1),
        offset(-2, 1),
        offset(-2, -1),
    ]
}

/// A capability that may end on an empty square or capture, travelling up to
/// `distance` squares along `direction`.
pub open spec fn free_move(direction: Direction, distance: i16) -> MoveCapability {
    MoveCapability { direction, distance, must_take: false, can_take: true }
}

/// The capabilities that let a piece travel along each of `directions`.
pub open spec fn free_moves(directions: Seq<Direction>, distance: i16) -> Seq<MoveCapability> {
    directions.map_values(|d: Direction| free_move(d, distance))
}

/// The movement table: for each piece, its capabilities in the order in which
/// moves are generated.
///
/// A pawn advances up to two squares without capturing and captures one
/// square diagonally ahead. Rook, bishop and queen slide; king and knight
/// take a single step.
pub open spec fn capabilities(piece: ColoredPiece) -> Seq<MoveCapability> {
    match piece.kind {
        PieceKind::Pawn => {
            let dy = forward(piece.color);
            seq![
                MoveCapability {
                    direction: offset(0, dy),
                    distance: 2,
                    must_take: false,
                    can_take: false,
                },
                MoveCapability {
                    direction: offset(1, dy),
                    distance: 1,
                    must_take: true,
                    can_take: true,
                },
                MoveCapability {
                    direction: offset(-1, dy),
                    distance: 1,
                    must_take: true,
                    can_take: true,
                },
            ]
        },
        PieceKind::Rook => free_moves(straight_directions(), UNBOUNDED),
        PieceKind::Knight => free_moves(knight_jumps(), 1),
        PieceKind::Bishop => free_moves(diagonal_directions(), UNBOUNDED),
        PieceKind::Queen => free_moves(diagonal_directions() + straight_directions(), UNBOUNDED),
        PieceKind::King => free_moves(diagonal_directions() + straight_directions(), 1),
    }
}

impl PieceKind {
    /// The glyph that shows the kind on screen.
    pub fn to_symbol(&self) -> (s: String)
        ensures
            s@ == kind_symbol(*self),
    {
        match self {
            PieceKind::Pawn => "\u{f0859}".to_owned(),
            PieceKind::Bishop => "\u{f085c}".to_owned(),
            PieceKind::Knight => "\u{f0858}".to_owned(),
            PieceKind::Rook => "\u{f085b}".to_owned(),
            PieceKind::Queen => "\u{f085a}".to_owned(),
            PieceKind::King => "\u{f0857}".to_owned(),
        }
    }

    /// The letter of the kind, as in promotions.
    pub fn encode(&self) -> (s: String)
        ensures
            s@ == seq![kind_letter(*self)],
    {
        proof {
            reveal_strlit("P");
            reveal_strlit("B");
            reveal_strlit("N");
            reveal_strlit("R");
            reveal_strlit("Q");
            reveal_strlit("K");
        }
        let s = match self {
            PieceKind::Pawn => "P".to_owned(),
            PieceKind::Bishop => "B".to_owned(),
            PieceKind::Knight => "N".to_owned(),
            PieceKind::Rook => "R".to_owned(),
            PieceKind::Queen => "Q".to_owned(),
            PieceKind::King => "K".to_owned(),
        };
        assert(s@ =~= seq![kind_letter(*self)]);
        s
    }

    /// The kind that a letter names, in either case.
    pub fn decode(input: char) -> (r: Result<PieceKind, ChessError>)
        ensures
            r == kind_of(input),
    {
        let input: char = to_ascii_lower(input);
        match input {
            'p' => Ok(PieceKind::Pawn),
            'b' => Ok(PieceKind::Bishop),
            'n' => Ok(PieceKind::Knight),
            'r' => Ok(PieceKind::Rook),
            'q' => Ok(PieceKind::Queen),
            'k' => Ok(PieceKind::King),
            c => Err(ChessError::InvalidPieceKind(c)),
        }
    }
}

impl PieceColor {
    /// The colour in which the pieces of the side are shown.
    pub fn ansi_color(&self) -> (colour: Colour)
        ensures
            colour == display_colour(*self),
    {
        match self {
            PieceColor::White => Colour::Yellow,
            PieceColor::Black => Colour::Red,
        }
    }

    /// The other side.
    pub fn invert(&self) -> (c: Self)
        ensures
            c == opponent(*self),
    {
        match self {
            PieceColor::White => PieceColor::Black,
            PieceColor::Black => PieceColor::White,
        }
    }

    /// The side that a letter names, in either case.
    pub fn decode(c: char) -> (r: Result<Self, ChessError>)
        ensures
            r == color_of(c),
    {
        let c = to_ascii_lower(c);
        match c {
            'w' => Ok(Self::White),
            'b' => Ok(Self::Black),
            _ => Err(ChessError::InvalidColor(c)),
        }
    }
}

fn free(dx: isize, dy: isize, distance: i16) -> (cap: MoveCapability)
    ensures
        cap == free_move(offset(dx as int, dy as int), distance),
{
    MoveCapability { direction: Direction(dx, dy), distance, must_take: false, can_take: true }
}

fn straight(distance: i16) -> (caps: Vec<MoveCapability>)
    ensures
        caps@ == free_moves(straight_directions(), distance),
{
    let caps = vec![
        free(0, 1, distance),
        free(0, -1, distance),
        free(1, 0, distance),
        free(-1, 0, distance),
    ];
    assert(caps@ =~= free_moves(straight_directions(), distance));
    caps
}

fn diagonal(distance: i16) -> (caps: Vec<MoveCapability>)
    ensures
        caps@ == free_moves(diagonal_directions(), distance),
{
    let caps = vec![
        free(1, 1, distance),
        free(1, -1, distance),
        free(-1, 1, distance),
        free(-1, -1, distance),
    ];
    assert(caps@ =~= free_moves(diagonal_directions(), distance));
    caps
}

fn every_direction(distance: i16) -> (caps: Vec<MoveCapability>)
    ensures
        caps@ == free_moves(diagonal_directions() + straight_directions(), distance),
{
    let mut caps = diagonal(distance);
    let mut rest = straight(distance);
    caps.append(&mut rest);
    assert(caps@ =~= free_moves(diagonal_directions() + straight_directions(), distance));
    caps
}

impl ColoredPiece {
    /// The glyph of the piece, in the colour of its side.
    pub fn to_colored_symbol(&self) -> (s: String)
        ensures
            s@ == painted(display_colour(self.color), kind_symbol(self.kind)),
    {
        let symbol = self.kind.to_symbol();
        let color = self.color.ansi_color();
        paint(color, symbol.as_str())
    }

    /// The capabilities of this piece, in the order in which its moves are
    /// generated.
    pub fn piece_move_capabilities(&self) -> (caps: Vec<MoveCapability>)
        ensures
            caps@ == capabilities(*self),
    {
        match self.kind {
            PieceKind::Pawn => {
                let direction_y: isize = if self.color == PieceColor::White {
                    1
                } else {
                    -1
                };
                let caps = vec![
                    MoveCapability {
                        direction: Direction(0, direction_y),
                        distance: 2,
                        must_take: false,
                        can_take: false,
                    },
                    MoveCapability {
                        direction: Direction(1, direction_y),
                        distance: 1,
                        must_take: true,
                        can_take: true,
                    },
                    MoveCapability {
                        direction: Direction(-1, direction_y),
                        distance: 1,
                        must_take: true,
                        can_take: true,
                    },
                ];
                assert(caps@ =~= capabilities(*self));
                caps
            },
            PieceKind::Rook => straight(UNBOUNDED),
            PieceKind::Knight => {
                let caps = vec![
                    free(1, 2, 1),
                    free(1, -2, 1),
                    free(-1, 2, 1),
                    free(-1, -2, 1),
                    free(2, 1, 1),
                    free(2, -1, 1),
                    free(-2, 1, 1),
                    free(-2, -1, 1),
                ];
                assert(caps@ =~= capabilities(*self));
                caps
            },
            PieceKind::Bishop => diagonal(UNBOUNDED),
            PieceKind::Queen => every_direction(UNBOUNDED),
            PieceKind::King => every_direction(1),
        }
    }
}

} // verus!
