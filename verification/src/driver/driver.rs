//! The game at the terminal: what is said after each move.

use crate::models::error::ChessError;
use crate::models::game_state::GameState;
use crate::models::piece::PieceColor;
use vstd::prelude::*;

verus! {

/// The game played line by line at the terminal.
pub struct Driver {}

/// What is said after a move.
pub open spec fn report_text(outcome: Result<GameState, ChessError>) -> Seq<char> {
    match outcome {
        Err(_) => "Move failed with error"@,
        Ok(GameState::Ongoing) => "Move executed"@,
        Ok(GameState::Won(PieceColor::White)) => "Color White has won!"@,
        Ok(GameState::Won(PieceColor::Black)) => "Color Black has won!"@,
        Ok(GameState::Stalemate) => "Game ended in stalemate!!!"@,
    }
}

impl Driver {
    /// What to say after a move, and whether to stop asking for moves:
    /// the game at the terminal ends when one side has won.
    pub fn report(outcome: &Result<GameState, ChessError>) -> (r: (&'static str, bool))
        ensures
            r.0@ == report_text(*outcome),
            r.1 == (*outcome matches Ok(GameState::Won(_))),
    {
        match outcome {
            Err(_) => ("Move failed with error", false),
            Ok(GameState::Ongoing) => ("Move executed", false),
            Ok(GameState::Won(PieceColor::White)) => ("Color White has won!", true),
            Ok(GameState::Won(PieceColor::Black)) => ("Color Black has won!", true),
            Ok(GameState::Stalemate) => ("Game ended in stalemate!!!", false),
        }
    }
}

} // verus!
