//! Moves: a single relocation, the three kinds of move built from it, and
//! their notation.

use crate::models::error::ChessError;
use crate::models::location::{
    has_notation, lemma_location_round_trip, location_of, notation, Location,
};
use crate::models::piece::{kind_letter, kind_of, PieceColor, PieceKind};
use crate::utils::text::{find_char, lemma_position_of_first, position_of};
use vstd::prelude::*;
use vstd::string::StrSliceExecFns;
use vstd::string::StringExecFns;

verus! {

/// One piece going from one square to another.
#[derive(Debug, Clone, Copy, PartialEq, Eq, Structural)]
pub struct Step {
    pub from: Location,
    pub to: Location,
}

/// An offset on the board: files first, then ranks.
#[derive(Debug, Clone, Copy, PartialEq, Eq, Structural)]
pub struct Direction(pub isize, pub isize);

/// A move: an ordinary move or capture, a pawn's step onto the far rank
/// with the piece it turns into, or castling with the steps of king and
/// rook.
#[derive(Debug, Clone, Copy, PartialEq, Eq, Structural)]
pub enum StepKind {
    GoTo(Step),
    Promote { step: Step, piece: PieceKind },
    Castle { king_step: Step, rook_step: Step },
}

/// The kinds a pawn may turn into, in the order in which promotions are
/// listed: every kind, a pawn and a king among them.
pub open spec fn promotion_kinds() -> Seq<PieceKind> {
    seq![
        PieceKind::Pawn,
        PieceKind::Rook,
        PieceKind::Knight,
        PieceKind::Bishop,
        PieceKind::Queen,
        PieceKind::King,
    ]
}

/// The promotions that can replace `step`, one for each promotion kind.
pub open spec fn promotions(step: Step) -> Seq<StepKind> {
    promotion_kinds().map_values(|piece: PieceKind| StepKind::Promote { step, piece })
}

/// The square on which a move ends, where it has a single one.
pub open spec fn target_of(kind: StepKind) -> Option<Location> {
    match kind {
        StepKind::GoTo(step) => Some(step.to),
        StepKind::Promote { step, .. } => Some(step.to),
        StepKind::Castle { .. } => None,
    }
}

/// The rank on which the pieces of a colour start on a board of eight ranks.
pub open spec fn home_rank(color: PieceColor) -> usize {
    match color {
        PieceColor::White => 0,
        PieceColor::Black => 7,
    }
}

/// Castling towards the last file: the king goes two files over from its
/// home file, and the rook of the last file lands beside it.
pub open spec fn short_castle(rank: usize, rook_file: usize) -> StepKind {
    StepKind::Castle {
        king_step: Step { from: Location { x: 4, y: rank }, to: Location { x: 6, y: rank } },
        rook_step: Step { from: Location { x: rook_file, y: rank }, to: Location { x: 5, y: rank } },
    }
}

/// Castling towards the first file.
pub open spec fn long_castle(rank: usize) -> StepKind {
    StepKind::Castle {
        king_step: Step { from: Location { x: 4, y: rank }, to: Location { x: 2, y: rank } },
        rook_step: Step { from: Location { x: 0, y: rank }, to: Location { x: 3, y: rank } },
    }
}

/// Whether both ends of a step have a notation.
pub open spec fn step_has_notation(step: Step) -> bool {
    has_notation(step.from) && has_notation(step.to)
}

/// The notation of a step: origin, then destination.
pub open spec fn step_notation(step: Step) -> Seq<char> {
    notation(step.from) + notation(step.to)
}

/// Whether a move can be written down.
pub open spec fn kind_has_notation(kind: StepKind) -> bool {
    match kind {
        StepKind::GoTo(step) => step_has_notation(step),
        StepKind::Promote { step, .. } => step_has_notation(step),
        StepKind::Castle { .. } => true,
    }
}

/// The notation of a move: the step; the step, `=` and the new piece's
/// letter; or `0-0-0` where the rook comes from the first file and `0-0`
/// where it comes from elsewhere.
pub open spec fn kind_notation(kind: StepKind) -> Seq<char> {
    match kind {
        StepKind::GoTo(step) => step_notation(step),
        StepKind::Promote { step, piece } => step_notation(step) + seq!['=', kind_letter(piece)],
        StepKind::Castle { rook_step, .. } => if rook_step.from.x == 0 {
            seq!['0', '-', '0', '-', '0']
        } else {
            seq!['0', '-', '0']
        },
    }
}

/// The step that four characters denote: two squares of two characters each.
pub open spec fn step_of(s: Seq<char>) -> Option<Step> {
    if s.len() != 4 {
        None
    } else {
        match (location_of(s.subrange(0, 2)), location_of(s.subrange(2, 4))) {
            (Some(from), Some(to)) => Some(Step { from, to }),
            _ => None,
        }
    }
}

/// Whether a text asks for castling towards the last file.
pub open spec fn is_short_castle(s: Seq<char>) -> bool {
    s == seq!['O', '-', 'O']
}

/// The move that a text denotes for the side `color`, or why it denotes none.
///
/// `O-O` is castling towards the last file, read for the home rank of
/// `color` on a board of eight files; castling towards the first file has
/// no text that is read. Four characters are a step. Any other text is read
/// as a promotion where it holds a `=`: the character after the first `=`
/// names the new piece and the text before it is the step.
pub open spec fn kind_of_text(s: Seq<char>, color: PieceColor) -> Result<StepKind, ChessError> {
    if is_short_castle(s) {
        Ok(short_castle(home_rank(color), 7))
    } else if s.len() == 4 {
        match step_of(s) {
            Some(step) => Ok(StepKind::GoTo(step)),
            None => Err(ChessError::InvalidLocation),
        }
    } else {
        match position_of(s, '=') {
            Some(at) => if at + 1 >= s.len() {
                Err(ChessError::InvalidPromotion)
            } else {
                match kind_of(s[at + 1]) {
                    Ok(piece) => match step_of(s.subrange(0, at)) {
                        Some(step) => Ok(StepKind::Promote { step, piece }),
                        None => Err(ChessError::InvalidLocation),
                    },
                    Err(e) => Err(e),
                }
            },
            None => Err(ChessError::InvalidMoveFormat),
        }
    }
}

/// Whether a square has a notation of two characters: a letter and one digit.
pub open spec fn has_short_notation(loc: Location) -> bool {
    loc.x < 26 && loc.y < 9
}

/// The notation of a step between two squares of the standard board is read
/// back as that step.
pub proof fn lemma_step_round_trip(step: Step)
    requires
        has_short_notation(step.from),
        has_short_notation(step.to),
    ensures
        step_notation(step).len() == 4,
        step_of(step_notation(step)) == Some(step),
        forall|j: int| 0 <= j < 4 ==> step_notation(step)[j] != '=',
{
    let s = step_notation(step);
    lemma_location_round_trip(step.from);
    lemma_location_round_trip(step.to);
    assert(notation(step.from).len() == 2);
    assert(notation(step.to).len() == 2);
    assert(s.subrange(0, 2) =~= notation(step.from));
    assert(s.subrange(2, 4) =~= notation(step.to));
}

/// Reading what `encode` writes gives the move back, for every ordinary move
/// and every promotion between squares of the standard board, whichever
/// side reads it.
pub proof fn lemma_notation_round_trip(kind: StepKind, color: PieceColor)
    requires
        match kind {
            StepKind::GoTo(step) => has_short_notation(step.from) && has_short_notation(step.to),
            StepKind::Promote { step, .. } => has_short_notation(step.from) && has_short_notation(
                step.to,
            ),
            StepKind::Castle { .. } => false,
        },
    ensures
        kind_has_notation(kind),
        kind_of_text(kind_notation(kind), color) == Ok::<StepKind, ChessError>(kind),
{
    let s = kind_notation(kind);
    match kind {
        StepKind::GoTo(step) => {
            lemma_step_round_trip(step);
        },
        StepKind::Promote { step, piece } => {
            lemma_step_round_trip(step);
            let head = step_notation(step);
            assert(s.len() == 6);
            assert(s[4] == '=');
            assert(s[5] == kind_letter(piece));
            assert forall|j: int| 0 <= j < 4 implies s[j] != '=' by {
                assert(s[j] == head[j]);
            }
            lemma_position_of_first(s, '=', 4);
            assert(s.subrange(0, 4) =~= head);
        },
        StepKind::Castle { .. } => {},
    }
}

impl Step {
    /// The step between two squares given by file and rank.
    pub fn new(from: (usize, usize), to: (usize, usize)) -> (step: Self)
        ensures
            step == (Step {
                from: Location { x: from.0, y: from.1 },
                to: Location { x: to.0, y: to.1 },
            }),
    {
        Self { from: Location { x: from.0, y: from.1 }, to: Location { x: to.0, y: to.1 } }
    }

    /// Writes the step down: origin, then destination.
    pub fn encode(&self) -> (s: String)
        requires
            step_has_notation(*self),
        ensures
            s@ == step_notation(*self),
    {
        let mut out = self.from.encode();
        let to = self.to.encode();
        out.append(to.as_str());
        out
    }
}

impl Direction {
    /// The opposite offset.
    pub fn reverse(&self) -> (d: Self)
        requires
            self.0 > isize::MIN,
            self.1 > isize::MIN,
        ensures
            d.0 == -self.0,
            d.1 == -self.1,
    {
        Self(-self.0, -self.1)
    }
}

/// Whether `s` holds exactly the characters `a`, `b`, `c`.
fn is_three(s: &str, a: char, b: char, c: char) -> (r: bool)
    ensures
        r == (s@ == seq![a, b, c]),
{
    if s.unicode_len() != 3 {
        return false;
    }
    let r = s.get_char(0) == a && s.get_char(1) == b && s.get_char(2) == c;
    if r {
        assert(s@ =~= seq![a, b, c]);
    }
    r
}

/// Reads four characters as a step.
fn decode_step(s: &str) -> (r: Option<Step>)
    ensures
        r == step_of(s@),
{
    if s.unicode_len() != 4 {
        return None;
    }
    let from = Location::decode(s.substring_char(0, 2));
    let to = Location::decode(s.substring_char(2, 4));
    match (from, to) {
        (Ok(from), Ok(to)) => Some(Step { from, to }),
        _ => None,
    }
}

impl StepKind {
    /// The promotions that can replace `step`.
    pub fn possible_promotions(step: Step) -> (kinds: Vec<StepKind>)
        ensures
            kinds@ == promotions(step),
    {
        let kinds = vec![
            StepKind::Promote { step, piece: PieceKind::Pawn },
            StepKind::Promote { step, piece: PieceKind::Rook },
            StepKind::Promote { step, piece: PieceKind::Knight },
            StepKind::Promote { step, piece: PieceKind::Bishop },
            StepKind::Promote { step, piece: PieceKind::Queen },
            StepKind::Promote { step, piece: PieceKind::King },
        ];
        assert(kinds@ =~= promotions(step));
        kinds
    }

    /// The square on which the move ends; castling has none.
    pub fn target(&self) -> (t: Option<Location>)
        ensures
            t == target_of(*self),
    {
        match self {
            StepKind::GoTo(step) => Some(step.to),
            StepKind::Promote { step, .. } => Some(step.to),
            _ => None,
        }
    }

    /// Writes the move down.
    pub fn encode(&self) -> (s: String)
        requires
            kind_has_notation(*self),
        ensures
            s@ == kind_notation(*self),
    {
        match self {
            StepKind::GoTo(step) => step.encode(),
            StepKind::Promote { step, piece } => {
                let mut out = step.encode();
                let letter = piece.encode();
                proof {
                    reveal_strlit("=");
                }
                out.append("=");
                out.append(letter.as_str());
                assert(out@ =~= kind_notation(*self));
                out
            },
            StepKind::Castle { rook_step, .. } => {
                proof {
                    reveal_strlit("0-0-0");
                    reveal_strlit("0-0");
                }
                if rook_step.from.x == 0 {
                    // long castle:
                    let out = "0-0-0".to_owned();
                    assert(out@ =~= kind_notation(*self));
                    out
                } else {
                    let out = "0-0".to_owned();
                    assert(out@ =~= kind_notation(*self));
                    out
                }
            },
        }
    }

    /// Reads a move that the side `current_color` has written down.
    pub fn decode(input: &str, current_color: PieceColor) -> (r: Result<Self, ChessError>)
        ensures
            r == kind_of_text(input@, current_color),
    {
        let rank: usize = if current_color == PieceColor::White {
            0
        } else {
            7
        };
        if is_three(input, 'O', '-', 'O') {
            let rook_step = Step::new((7, rank), (5, rank));
            let king_step = Step::new((4, rank), (6, rank));
            return Ok(StepKind::Castle { king_step, rook_step });
        }
        let len = input.unicode_len();
        if len == 4 {
            return match decode_step(input) {
                Some(step) => Ok(StepKind::GoTo(step)),
                None => Err(ChessError::InvalidLocation),
            };
        }
        match find_char(input, '=') {
            Some(eq_pos) => {
                if eq_pos + 1 >= len {
                    return Err(ChessError::InvalidPromotion);
                }
                let piece = match PieceKind::decode(input.get_char(eq_pos + 1)) {
                    Ok(piece) => piece,
                    Err(e) => {
                        return Err(e);
                    },
                };
                match decode_step(input.substring_char(0, eq_pos)) {
                    Some(step) => Ok(StepKind::Promote { step, piece }),
                    None => Err(ChessError::InvalidLocation),
                }
            },
            None => Err(ChessError::InvalidMoveFormat),
        }
    }
}

} // verus!
