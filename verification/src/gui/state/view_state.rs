//! What the screen shows: the start screen, or a game.

use crate::driver::game::Game;
use crate::models::board::standard_position;
use crate::models::error::ChessError;
use crate::models::game_state::GameState;
use crate::models::step::StepKind;
use vstd::prelude::*;

verus! {

/// What the screen shows: the start screen, or a game with its state and
/// the move that has been selected for it.
#[derive(Debug)]
pub enum ViewState {
    Startup,
    InGame { state: GameState, game: Game, next_step: Option<StepKind> },
}

impl Default for ViewState {
    fn default() -> (view: Self)
        ensures
            view is Startup,
    {
        ViewState::Startup
    }
}

impl ViewState {
    /// Whether no game is being played: none has been started, or the last
    /// one is over.
    pub open spec fn in_lobby(&self) -> bool {
        match self {
            ViewState::Startup => true,
            ViewState::InGame { state, .. } => state.is_final(),
        }
    }

    /// Whether this is a game that has just been set up.
    pub open spec fn is_fresh_game(&self) -> bool {
        match self {
            ViewState::Startup => false,
            ViewState::InGame { state, game, next_step } => *state == GameState::Ongoing
                && game.board@ == standard_position() && *next_step is None,
        }
    }

    /// Whether no game is being played.
    pub fn is_lobby_mode(&self) -> (r: bool)
        ensures
            r == self.in_lobby(),
    {
        match self {
            ViewState::Startup => true,
            ViewState::InGame { state, .. } => match state {
                GameState::Ongoing => false,
                _ => true,
            },
        }
    }

    /// Starts a new game, unless one is being played: then nothing changes.
    pub fn start(&mut self) -> (r: Result<(), ChessError>)
        ensures
            old(self).in_lobby() ==> r is Ok && final(self).is_fresh_game(),
            !old(self).in_lobby() ==> r == Err::<(), ChessError>(ChessError::GameInProgress)
                && *final(self) == *old(self),
    {
        if !self.is_lobby_mode() {
            return Err(ChessError::GameInProgress);
        }
        *self = Self::InGame { state: GameState::Ongoing, game: Game::new(), next_step: None };
        Ok(())
    }
}

} // verus!
