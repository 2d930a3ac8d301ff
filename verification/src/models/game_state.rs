//! How a game stands.

use crate::models::piece::PieceColor;
use vstd::prelude::*;

verus! {

/// A game goes on until it is drawn by stalemate or won by the side that
/// gave checkmate.
#[derive(PartialEq, Eq, Debug, Clone, Copy, Structural)]
pub enum GameState {
    Ongoing,
    Stalemate,
    Won(PieceColor),
}

/// The sentence that tells the players how the game stands.
pub open spec fn state_message(state: GameState) -> Seq<char> {
    match state {
        GameState::Ongoing => "Game is still ongoing"@,
        GameState::Stalemate => "Game ended in a draw because of stalemate"@,
        GameState::Won(PieceColor::White) => "White has won the game"@,
        GameState::Won(PieceColor::Black) => "Black has won the game"@,
    }
}

impl GameState {
    /// Whether the game is over.
    pub open spec fn is_final(self) -> bool {
        self != GameState::Ongoing
    }

    /// The sentence that tells the players how the game stands.
    pub fn message(&self) -> (s: String)
        ensures
            s@ == state_message(*self),
    {
        match self {
            GameState::Ongoing => "Game is still ongoing".to_owned(),
            GameState::Stalemate => "Game ended in a draw because of stalemate".to_owned(),
            GameState::Won(PieceColor::White) => "White has won the game".to_owned(),
            GameState::Won(PieceColor::Black) => "Black has won the game".to_owned(),
        }
    }
}

} // verus!
