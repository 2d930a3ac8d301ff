//! What the side to move faces.

use crate::models::board::BoardView;
use crate::models::step::StepKind;
use vstd::prelude::*;

verus! {

/// The evaluation of a position for the side to move.
pub struct BasicEvaluation {
    pub has_check: bool,
    pub has_checkmate: bool,
    pub has_stalemate: bool,
    pub possible_moves: Vec<StepKind>,
}

impl BoardView {
    /// The side to move is in check and has no legal move.
    pub open spec fn is_checkmate(self) -> bool {
        self.legal_steps().len() == 0 && self.grid.in_check(self.turn_color())
    }

    /// The side to move is not in check and has no legal move.
    pub open spec fn is_stalemate(self) -> bool {
        self.legal_steps().len() == 0 && !self.grid.in_check(self.turn_color())
    }
}

impl BasicEvaluation {
    /// Whether this is the evaluation of `board`: its legal moves in the
    /// order in which they are generated, whether the side to move is in
    /// check, and whether it is mated or stalemated.
    pub open spec fn describes(&self, board: BoardView) -> bool {
        &&& self.possible_moves@ == board.legal_steps()
        &&& self.has_check == board.grid.in_check(board.turn_color())
        &&& self.has_checkmate == board.is_checkmate()
        &&& self.has_stalemate == board.is_stalemate()
    }
}

/// A position is never both checkmate and stalemate. Either one means that
/// the side to move has no legal move; they differ in whether it is in check.
pub proof fn lemma_mate_excludes_stalemate(board: BoardView)
    ensures
        !(board.is_checkmate() && board.is_stalemate()),
        board.is_checkmate() ==> board.legal_steps().len() == 0,
        board.is_stalemate() ==> board.legal_steps().len() == 0,
        board.legal_steps().len() == 0 ==> (board.is_checkmate() <==> board.grid.in_check(
            board.turn_color(),
        )),
        board.legal_steps().len() == 0 ==> (board.is_stalemate() <==> !board.grid.in_check(
            board.turn_color(),
        )),
{
}

} // verus!
