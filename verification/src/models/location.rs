//! Board coordinates and their algebraic notation.

use crate::models::error::ChessError;
use crate::utils::text::{
    ascii_lower, decimal_digits, decimal_value, is_decimal, lemma_decimal_round_trip,
    parse_decimal, push_decimal, to_ascii_lower,
};
use vstd::prelude::*;
use vstd::string::StrSliceExecFns;
use vstd::string::StringExecFns;

verus! {

/// A square of the board: `x` counts files from the left, `y` ranks from
/// White's side, both from zero.
#[derive(PartialEq, Eq, Debug, Clone, Copy, Structural)]
pub struct Location {
    /// location along width of board
    pub x: usize,
    /// location along height of board
    pub y: usize,
}

/// The letter of file `x`, for `x < 26`.
pub open spec fn file_letter(x: nat) -> char {
    (('a' as u8) + (x as u8)) as char
}

/// Whether a location has a notation: its file has a letter and its rank
/// number can be represented.
pub open spec fn has_notation(loc: Location) -> bool {
    loc.x < 26 && loc.y < usize::MAX
}

/// The notation of a location: the file letter, then the rank counted from one.
pub open spec fn notation(loc: Location) -> Seq<char> {
    seq![file_letter(loc.x as nat)] + decimal_digits((loc.y + 1) as nat)
}

/// The location that a text denotes, if any: a letter in either case, then a
/// decimal rank number of at least one.
pub open spec fn location_of(s: Seq<char>) -> Option<Location> {
    if s.len() < 2 {
        None
    } else {
        let file = ascii_lower(s[0]);
        let rank = s.subrange(1, s.len() as int);
        if 'a' <= file && file <= 'z' && is_decimal(rank) && 1 <= decimal_value(rank)
            <= usize::MAX {
            Some(
                Location {
                    x: (file as u8 - 'a' as u8) as usize,
                    y: (decimal_value(rank) - 1) as usize,
                },
            )
        } else {
            None
        }
    }
}

/// Reading the notation of a location gives the location back.
pub proof fn lemma_location_round_trip(loc: Location)
    requires
        has_notation(loc),
    ensures
        location_of(notation(loc)) == Some(loc),
{
    let s = notation(loc);
    let digits = decimal_digits((loc.y + 1) as nat);
    lemma_decimal_round_trip((loc.y + 1) as nat);
    assert(s.subrange(1, s.len() as int) =~= digits);
    assert(s[0] == file_letter(loc.x as nat));
}

/// The one-letter string of file `x`.
fn file_str(x: usize) -> (s: &'static str)
    requires
        x < 26,
    ensures
        s@ == seq![file_letter(x as nat)],
{
    proof {
        reveal_strlit("abcdefghijklmnopqrstuvwxyz");
    }
    let s = "abcdefghijklmnopqrstuvwxyz".substring_char(x, x + 1);
    assert(s@ =~= seq![file_letter(x as nat)]);
    s
}

impl Location {
    /// The square on file `x` and rank `y`.
    pub fn new(x: usize, y: usize) -> (loc: Self)
        ensures
            loc == (Location { x, y }),
    {
        Self { x, y }
    }

    /// Writes the location in algebraic notation, `a1` for the origin.
    pub fn encode(&self) -> (s: String)
        requires
            has_notation(*self),
        ensures
            s@ == notation(*self),
    {
        let mut out = file_str(self.x).to_owned();
        push_decimal(&mut out, self.y + 1);
        out
    }

    /// Reads a square written in algebraic notation, such as `e4`, in
    /// either case. The rank may have several digits.
    pub fn decode(encoded: &str) -> (r: Result<Self, ChessError>)
        ensures
            match location_of(encoded@) {
                Some(loc) => r == Ok::<Location, ChessError>(loc),
                None => r == Err::<Location, ChessError>(ChessError::InvalidLocation),
            },
    {
        let len = encoded.unicode_len();
        if len < 2 {
            return Err(ChessError::InvalidLocation);
        }
        let file = to_ascii_lower(encoded.get_char(0));
        if !('a' <= file && file <= 'z') {
            return Err(ChessError::InvalidLocation);
        }
        match parse_decimal(encoded, 1, len) {
            Some(rank) => {
                if rank >= 1 {
                    Ok(Location { x: ((file as u8) - ('a' as u8)) as usize, y: rank - 1 })
                } else {
                    Err(ChessError::InvalidLocation)
                }
            },
            None => Err(ChessError::InvalidLocation),
        }
    }
}

} // verus!
