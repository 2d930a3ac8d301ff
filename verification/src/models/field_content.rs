//! What a square holds.

use crate::models::piece::{display_colour, kind_symbol, painted, ColoredPiece, PieceColor};
use vstd::prelude::*;

verus! {

/// A square is empty or holds a piece, together with the number of the turn
/// on which the piece arrived there; zero for a piece that has not moved.
#[derive(Debug, Clone, Copy, PartialEq, Eq, Structural)]
pub enum FieldContent {
    // usize limits the number of possible turns in a game
    Occupied { piece: ColoredPiece, turn: usize },
    Empty,
}

/// The piece on a square, if there is one.
pub open spec fn piece_of(content: FieldContent) -> Option<ColoredPiece> {
    match content {
        FieldContent::Occupied { piece, .. } => Some(piece),
        FieldContent::Empty => None,
    }
}

/// How a square is drawn: the coloured glyph of its piece, or a blank.
pub open spec fn pretty(content: FieldContent) -> Seq<char> {
    match content {
        FieldContent::Occupied { piece, .. } => painted(
            display_colour(piece.color),
            kind_symbol(piece.kind),
        ),
        FieldContent::Empty => seq![' '],
    }
}

impl FieldContent {
    /// The piece on the square and the turn on which it arrived.
    pub fn get_content(&self) -> (r: Option<(ColoredPiece, usize)>)
        ensures
            r == match *self {
                FieldContent::Occupied { piece, turn } => Some((piece, turn)),
                FieldContent::Empty => None,
            },
    {
        if let Self::Occupied { piece, turn } = *self {
            Some((piece, turn))
        } else {
            None
        }
    }

    /// The square as it is drawn: the coloured glyph of its piece, or a blank.
    pub fn to_pretty_string(&self) -> (s: String)
        ensures
            s@ == pretty(*self),
    {
        match self {
            FieldContent::Occupied { piece, .. } => piece.to_colored_symbol(),
            FieldContent::Empty => {
                proof {
                    reveal_strlit(" ");
                }
                let s = " ".to_owned();
                assert(s@ =~= seq![' ']);
                s
            },
        }
    }

    /// The glyph of the piece without colour, or a blank.
    pub fn to_uncolored_piece_string(&self) -> (s: String)
        ensures
            s@ == match *self {
                FieldContent::Occupied { piece, .. } => kind_symbol(piece.kind),
                FieldContent::Empty => seq![' '],
            },
    {
        match self {
            FieldContent::Occupied { piece, .. } => piece.kind.to_symbol(),
            FieldContent::Empty => {
                proof {
                    reveal_strlit(" ");
                }
                let s = " ".to_owned();
                assert(s@ =~= seq![' ']);
                s
            },
        }
    }

    /// The side whose piece stands on the square.
    pub fn get_color(&self) -> (r: Option<PieceColor>)
        ensures
            r == match piece_of(*self) {
                Some(piece) => Some(piece.color),
                None => None,
            },
    {
        match self {
            FieldContent::Empty => None,
            FieldContent::Occupied { piece, .. } => Some(piece.color),
        }
    }
}

} // verus!
