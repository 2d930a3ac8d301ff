//! Boards written down as text, one piece to a line.

use crate::models::board::{Board, BoardView, Grid};
use crate::models::error::ChessError;
use crate::models::field_content::FieldContent;
use crate::models::location::{location_of, Location};
use crate::models::piece::{color_of, kind_of, ColoredPiece, PieceColor, PieceKind};
use crate::utils::text::{find_char, position_of, lemma_position_of, trim, trimmed};
use vstd::prelude::*;
use vstd::string::StrSliceExecFns;

verus! {

/// Sets boards up from descriptions.
pub struct BoardCreation;

/// The placement that a token denotes: a square of two characters, the
/// letter of a piece kind and the letter of a colour. What follows them is
/// not looked at.
pub open spec fn placement_of(token: Seq<char>) -> Result<(Location, ColoredPiece), ChessError> {
    if token.len() < 4 {
        Err(ChessError::InvalidPlacement)
    } else {
        match location_of(token.subrange(0, 2)) {
            None => Err(ChessError::InvalidLocation),
            Some(loc) => match kind_of(token[2]) {
                Err(e) => Err(e),
                Ok(kind) => match color_of(token[3]) {
                    Err(e) => Err(e),
                    Ok(color) => Ok((loc, ColoredPiece { kind, color })),
                },
            },
        }
    }
}

/// The grid with the piece of one line put on it. A line of blanks leaves
/// the grid as it is.
pub open spec fn line_placed(line: Seq<char>, grid: Grid) -> Result<Grid, ChessError> {
    let token = trimmed(line);
    if token.len() == 0 {
        Ok(grid)
    } else {
        match placement_of(token) {
            Err(e) => Err(e),
            Ok((loc, piece)) => if grid.in_bounds(loc) {
                Ok(grid.put(loc, FieldContent::Occupied { piece, turn: 0 }))
            } else {
                Err(ChessError::OutOfBounds(loc))
            },
        }
    }
}

/// The length of the first line of a text.
pub open spec fn first_line_len(text: Seq<char>) -> int {
    match position_of(text, '\n') {
        Some(at) => at,
        None => text.len() as int,
    }
}

/// The grid with the pieces of a text put on it, line by line; the first
/// line that cannot be read gives the error.
pub open spec fn described(text: Seq<char>, grid: Grid) -> Result<Grid, ChessError>
    decreases text.len(),
{
    let n = first_line_len(text);
    if 0 <= n <= text.len() {
        match line_placed(text.take(n), grid) {
            Err(e) => Err(e),
            Ok(next) => if n >= text.len() {
                Ok(next)
            } else {
                described(text.skip(n + 1), next)
            },
        }
    } else {
        Ok(grid)
    }
}

impl BoardCreation {
    /// Sets up a board of eight by eight from a description: on each line
    /// a square, the letter of a piece kind and the letter of a colour, as
    /// in `a1kw` for a white king on a1. No piece has moved, and White is
    /// to move.
    pub fn from_description(descr: String) -> (r: Result<Board, ChessError>)
        ensures
            match described(descr@, Grid::empty(8, 8)) {
                Ok(grid) => match r {
                    Ok(board) => board@ == (BoardView { grid, turn: 0 }),
                    Err(_) => false,
                },
                Err(e) => match r {
                    Ok(_) => false,
                    Err(got) => got == e,
                },
            },
    {
        let mut board = Board::new(8, 8);
        let text = descr.as_str();
        let len = text.unicode_len();
        let mut start: usize = 0;
        assert(text@.skip(0) =~= text@);
        loop
            invariant
                start <= len == text@.len(),
                text@ == descr@,
                board@.turn == 0,
                board@.grid.width == 8,
                board@.grid.height == 8,
                described(descr@, Grid::empty(8, 8)) == described(
                    text@.skip(start as int),
                    board@.grid,
                ),
            decreases len - start,
        {
            let rest = text.substring_char(start, len);
            assert(rest@ =~= text@.skip(start as int));
            proof {
                lemma_position_of(rest@, '\n');
            }
            let n = match find_char(rest, '\n') {
                Some(at) => at,
                None => len - start,
            };
            let line = trim(rest.substring_char(0, n));
            assert(rest@.subrange(0, n as int) =~= rest@.take(n as int));
            if line.unicode_len() > 0 {
                if line.unicode_len() < 4 {
                    return Err(ChessError::InvalidPlacement);
                }
                let location = match Location::decode(line.substring_char(0, 2)) {
                    Ok(location) => location,
                    Err(e) => {
                        return Err(e);
                    },
                };
                let piece_kind = match PieceKind::decode(line.get_char(2)) {
                    Ok(kind) => kind,
                    Err(e) => {
                        return Err(e);
                    },
                };
                let piece_color = match PieceColor::decode(line.get_char(3)) {
                    Ok(color) => color,
                    Err(e) => {
                        return Err(e);
                    },
                };
                let piece = ColoredPiece { kind: piece_kind, color: piece_color };
                if !board.in_bounds(&location) {
                    return Err(ChessError::OutOfBounds(location));
                }
                board.put_piece_on_location(piece, &location, 0);
            }
            if n >= len - start {
                return Ok(board);
            }
            assert(rest@.skip(n + 1) =~= text@.skip(start + n + 1));
            start = start + n + 1;
        }
    }
}

} // verus!
