//! One game: a board, and the moves that the players ask for.

use crate::logic::basic_evaluation::BasicEvaluation;
use crate::logic::legality::lemma_legal_steps_are_safe;
use crate::logic::move_computer::StepComputer;
use crate::models::board::{standard_position, Board, BoardView};
use crate::models::error::ChessError;
use crate::models::game_state::GameState;
use crate::models::piece::{opponent, PieceColor};
use crate::models::step::{kind_of_text, StepKind};
use vstd::prelude::*;

verus! {

/// A game in progress: the board on which it is played.
#[derive(Debug)]
pub struct Game {
    pub board: Board,
}

impl BoardView {
    /// How the game stands on this board when `mover` has just moved: drawn
    /// where the side to move is stalemated, won by `mover` where it is
    /// mated, and going on otherwise.
    pub open spec fn state_after(self, mover: PieceColor) -> GameState {
        if self.is_stalemate() {
            GameState::Stalemate
        } else if self.is_checkmate() {
            GameState::Won(mover)
        } else {
            GameState::Ongoing
        }
    }

    /// Whether the side to move can play a move: it has a king, the move is
    /// legal, the turn counter can advance, and the other side has a king
    /// to go on with.
    pub open spec fn can_play(self, kind: StepKind) -> bool {
        &&& self.grid.has_king(self.turn_color())
        &&& self.legal_steps().contains(kind)
        &&& self.turn < usize::MAX
        &&& self.grid_after(kind).has_king(opponent(self.turn_color()))
    }

    /// Whether a move is passed over: the side to move has a king, and the
    /// move is not among its legal moves.
    pub open spec fn passes_over(self, kind: StepKind) -> bool {
        self.grid.has_king(self.turn_color()) && !self.legal_steps().contains(kind)
    }

    /// Whether `error` is the reason for which a move cannot be played. The
    /// reasons are looked for in this order: the side to move has no king;
    /// the move is not legal; the turn counter is at its limit; the other
    /// side would be left without a king.
    pub open spec fn rejects(self, kind: StepKind, error: ChessError) -> bool {
        if !self.grid.has_king(self.turn_color()) {
            error == ChessError::MissingKing(self.turn_color())
        } else if !self.legal_steps().contains(kind) {
            match error {
                ChessError::IllegalMove { attempted, legal } => attempted == kind && legal@
                    == self.legal_steps(),
                _ => false,
            }
        } else if self.turn == usize::MAX {
            error == ChessError::TurnLimit
        } else {
            error == ChessError::MissingKing(opponent(self.turn_color()))
        }
    }

    /// The board after a move that can be played.
    pub open spec fn played(self, kind: StepKind) -> BoardView {
        BoardView { grid: self.grid_after(kind), turn: (self.turn + 1) as usize }
    }
}

/// Whether `steps` holds `step`.
fn holds(steps: &Vec<StepKind>, step: &StepKind) -> (r: bool)
    ensures
        r == steps@.contains(*step),
{
    let mut i: usize = 0;
    while i < steps.len()
        invariant
            i <= steps.len(),
            forall|j: int| 0 <= j < i ==> steps@[j] != *step,
        decreases steps.len() - i,
    {
        if steps[i] == *step {
            return true;
        }
        i = i + 1;
    }
    false
}

impl Default for Game {
    fn default() -> (game: Self)
        ensures
            game.board@ == standard_position(),
    {
        Self::new()
    }
}

impl Game {
    /// A game on the standard board, with White to move.
    pub fn new() -> (game: Self)
        ensures
            game.board@ == standard_position(),
    {
        let board = Board::standard_board();
        Self { board }
    }

    /// Plays a legal move and says how the game stands then. The board is
    /// unchanged where this fails.
    fn commit(&mut self, step_kind: StepKind) -> (r: Result<GameState, ChessError>)
        requires
            old(self).board@.grid.has_king(old(self).board@.turn_color()),
            old(self).board@.legal_steps().contains(step_kind),
        ensures
            match r {
                Ok(state) => old(self).board@.can_play(step_kind) && final(self).board@ == old(
                    self,
                ).board@.played(step_kind) && state == final(self).board@.state_after(
                    old(self).board@.turn_color(),
                ),
                Err(e) => !old(self).board@.can_play(step_kind) && old(self).board@.rejects(
                    step_kind,
                    e,
                ) && final(self).board@ == old(self).board@,
            },
    {
        let color = self.board.turn_color();
        proof {
            let k = choose|k: int|
                0 <= k < self.board@.legal_steps().len() && self.board@.legal_steps()[k]
                    == step_kind;
            lemma_legal_steps_are_safe(self.board@, k);
        }
        let mut next = self.board.clone();
        match next.apply_step_kind(&step_kind) {
            Ok(_) => {},
            Err(e) => {
                return Err(e);
            },
        }
        if next.find_king(color.invert()).is_none() {
            return Err(ChessError::MissingKing(color.invert()));
        }
        let new_eval = next.evaluate_basic();
        self.board = next;
        Ok(Self::state_of(&new_eval, color))
    }

    /// How the game stands on an evaluated board when `mover` has just moved.
    fn state_of(evaluation: &BasicEvaluation, mover: PieceColor) -> (state: GameState)
        ensures
            forall|board: BoardView| #[trigger]
                evaluation.describes(board) ==> state == board.state_after(mover),
    {
        if evaluation.has_stalemate {
            GameState::Stalemate
        } else if evaluation.has_checkmate {
            GameState::Won(mover)
        } else {
            GameState::Ongoing
        }
    }

    /// Reads a move that the side to move has written down, plays it where
    /// it is legal, and says how the game stands then. The board is
    /// unchanged where this fails.
    pub fn apply_input(&mut self, input: &str) -> (r: Result<GameState, ChessError>)
        ensures
            match kind_of_text(input@, old(self).board@.turn_color()) {
                Ok(kind) => match r {
                    Ok(state) => old(self).board@.can_play(kind) && final(self).board@ == old(
                        self,
                    ).board@.played(kind) && state == final(self).board@.state_after(
                        old(self).board@.turn_color(),
                    ),
                    Err(e) => !old(self).board@.can_play(kind) && old(self).board@.rejects(kind, e)
                        && final(self).board@ == old(self).board@,
                },
                Err(e) => r == Err::<GameState, ChessError>(e) && final(self).board@ == old(
                    self,
                ).board@,
            },
    {
        // 1. decode:
        let color = self.board.turn_color();
        let step_kind = match StepKind::decode(input, color) {
            Ok(step_kind) => step_kind,
            Err(e) => {
                return Err(e);
            },
        };
        if self.board.find_king(color).is_none() {
            return Err(ChessError::MissingKing(color));
        }
        let eval = self.board.evaluate_basic();

        // 2. check step is legal
        if holds(&eval.possible_moves, &step_kind) {
            self.commit(step_kind)
        } else {
            Err(ChessError::IllegalMove { attempted: step_kind, legal: eval.possible_moves })
        }
    }

    /// Plays a move where it is legal, and says how the game stands then.
    /// A move that is not legal is passed over without an error: the board
    /// stays as it is, and the answer is how the game stands on it for the
    /// side to move. The board is unchanged where this fails.
    pub fn apply_stepkind(&mut self, step_kind: StepKind) -> (r: Result<GameState, ChessError>)
        ensures
            match r {
                Ok(state) => if old(self).board@.passes_over(step_kind) {
                    final(self).board@ == old(self).board@ && state == old(
                        self,
                    ).board@.state_after(old(self).board@.turn_color())
                } else {
                    old(self).board@.can_play(step_kind) && final(self).board@ == old(
                        self,
                    ).board@.played(step_kind) && state == final(self).board@.state_after(
                        old(self).board@.turn_color(),
                    )
                },
                Err(e) => !old(self).board@.can_play(step_kind) && !old(self).board@.passes_over(
                    step_kind,
                ) && old(self).board@.rejects(step_kind, e) && final(self).board@ == old(
                    self,
                ).board@,
            },
    {
        // 1. evaluate position beforehand:
        let color = self.board.turn_color();
        if self.board.find_king(color).is_none() {
            return Err(ChessError::MissingKing(color));
        }
        let eval = self.board.evaluate_basic();

        if holds(&eval.possible_moves, &step_kind) {
            self.commit(step_kind)
        } else {
            Ok(Self::state_of(&eval, color))
        }
    }
}

} // verus!
