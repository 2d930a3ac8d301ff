//! Why the engine rejected an input.

use crate::models::location::Location;
use crate::models::piece::PieceColor;
use crate::models::step::StepKind;
use vstd::prelude::*;

verus! {

/// Every way in which a request to the engine can fail.
#[derive(Debug, PartialEq)]
pub enum ChessError {
    /// A square was not written as a file letter followed by a rank number.
    InvalidLocation,
    /// The character (in lower case) names no piece kind.
    InvalidPieceKind(char),
    /// The character (in lower case) names no colour.
    InvalidColor(char),
    /// A promotion has nothing after its `=`.
    InvalidPromotion,
    /// The text is no move in any of the notations.
    InvalidMoveFormat,
    /// A line of a board description is too short to hold a placement.
    InvalidPlacement,
    /// The square lies outside the board.
    OutOfBounds(Location),
    /// A step starts on a square that holds no piece.
    EmptyField(Location),
    /// The move is well formed but not among the legal ones, which are listed.
    IllegalMove { attempted: StepKind, legal: Vec<StepKind> },
    /// The position holds no king of this colour, so it cannot be evaluated.
    MissingKing(PieceColor),
    /// The turn counter cannot be advanced any further.
    TurnLimit,
    /// A new game was asked for while one is still being played.
    GameInProgress,
}

impl ChessError {
    /// The text of `message` for each error.
    pub open spec fn text(&self) -> Seq<char> {
        match self {
            ChessError::InvalidLocation => "failed parsing a location"@,
            ChessError::InvalidPieceKind(_) => "failed decoding piece char"@,
            ChessError::InvalidColor(_) => "Invalid color!"@,
            ChessError::InvalidPromotion => "Invalid promotion"@,
            ChessError::InvalidMoveFormat => "Invalid move format"@,
            ChessError::InvalidPlacement => "Invalid placement"@,
            ChessError::OutOfBounds(_) => "Location outside of the board"@,
            ChessError::EmptyField(_) => "Empty or non-existent field"@,
            ChessError::IllegalMove { .. } => "illegal move!"@,
            ChessError::MissingKing(_) => "No king on the board"@,
            ChessError::TurnLimit => "The turn counter is exhausted"@,
            ChessError::GameInProgress => "End this game first"@,
        }
    }

    /// A short description of the error for the user.
    pub fn message(&self) -> (s: String)
        ensures
            s@ == self.text(),
    {
        match self {
            ChessError::InvalidLocation => "failed parsing a location".to_owned(),
            ChessError::InvalidPieceKind(_) => "failed decoding piece char".to_owned(),
            ChessError::InvalidColor(_) => "Invalid color!".to_owned(),
            ChessError::InvalidPromotion => "Invalid promotion".to_owned(),
            ChessError::InvalidMoveFormat => "Invalid move format".to_owned(),
            ChessError::InvalidPlacement => "Invalid placement".to_owned(),
            ChessError::OutOfBounds(_) => "Location outside of the board".to_owned(),
            ChessError::EmptyField(_) => "Empty or non-existent field".to_owned(),
            ChessError::IllegalMove { .. } => "illegal move!".to_owned(),
            ChessError::MissingKing(_) => "No king on the board".to_owned(),
            ChessError::TurnLimit => "The turn counter is exhausted".to_owned(),
            ChessError::GameInProgress => "End this game first".to_owned(),
        }
    }
}

} // verus!
