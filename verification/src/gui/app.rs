//! The application behind the screen: what a key, the mouse and the end of
//! a frame do to it. Reading the events and drawing are left to the program
//! that runs it.

use crate::gui::state::view_state::ViewState;
use crate::gui::widgets::board::{BoardWidget, ClickDirection, ClickState};
use crate::models::board::Board;
use crate::models::error::ChessError;
use crate::models::game_state::{state_message, GameState};
use vstd::prelude::*;

verus! {

/// What the mouse did.
#[derive(Debug, Clone, Copy, PartialEq, Eq, Structural)]
pub enum MouseAction {
    LeftDown,
    LeftUp,
    RightDown,
    Moved,
    Other,
}

/// An event of the mouse: what it did, and where.
#[derive(Debug, Clone, Copy, PartialEq, Eq, Structural)]
pub struct MouseInput {
    pub action: MouseAction,
    pub column: u16,
    pub row: u16,
}

/// What the middle of the screen shows.
pub enum Screen {
    /// The invitation to start a game.
    Start,
    /// The board of the game that is being played.
    Board,
    /// How the game has ended.
    Outcome(String),
}

/// The application: whether it is to end, the mouse over the board, and
/// what the screen shows.
#[derive(Debug)]
pub struct App {
    exit: bool,
    board_widget: BoardWidget,
    state: ViewState,
    board: Board,
}

impl Default for App {
    fn default() -> (app: Self)
        ensures
            !app.has_exited(),
            app.view_state() is Startup,
            app.widget() == (BoardWidget {
                mouse_position: (0, 0),
                click_state_1: ClickState::cleared(),
                click_state_2: ClickState::cleared(),
            }),
    {
        App {
            exit: false,
            board_widget: BoardWidget::default(),
            state: ViewState::default(),
            board: Board::standard_board(),
        }
    }
}

impl App {
    /// Whether the application has been asked to end.
    pub closed spec fn has_exited(&self) -> bool {
        self.exit
    }

    /// What the screen shows.
    pub closed spec fn view_state(&self) -> ViewState {
        self.state
    }

    /// The state of the mouse over the board.
    pub closed spec fn widget(&self) -> BoardWidget {
        self.board_widget
    }

    /// Whether the application has been asked to end.
    pub fn should_exit(&self) -> (r: bool)
        ensures
            r == self.has_exited(),
    {
        self.exit
    }

    /// What the screen shows.
    pub fn state(&self) -> (state: &ViewState)
        ensures
            *state == self.view_state(),
    {
        &self.state
    }

    /// The state of the mouse over the board.
    pub fn board_widget(&self) -> (widget: &BoardWidget)
        ensures
            *widget == self.widget(),
    {
        &self.board_widget
    }

    /// What the middle of the screen is to show.
    pub fn screen(&self) -> (screen: Screen)
        ensures
            match self.view_state() {
                ViewState::Startup => screen is Start,
                ViewState::InGame { state, .. } => if state == GameState::Ongoing {
                    screen is Board
                } else {
                    screen matches Screen::Outcome(text) && text@ == state_message(state)
                },
            },
    {
        match &self.state {
            ViewState::Startup => Screen::Start,
            ViewState::InGame { state, .. } => match state {
                GameState::Ongoing => Screen::Board,
                _ => Screen::Outcome(state.message()),
            },
        }
    }

    /// Sets the move that the players have selected on the screen, for the
    /// next call of `handle_state` to play.
    pub fn select_step(&mut self, selected: Option<crate::models::step::StepKind>)
        ensures
            final(self).has_exited() == old(self).has_exited(),
            final(self).widget() == old(self).widget(),
            match old(self).view_state() {
                ViewState::Startup => final(self).view_state() is Startup,
                ViewState::InGame { state, game, next_step } => final(self).view_state()
                    == (ViewState::InGame {
                    state,
                    game,
                    next_step: if selected is Some {
                        selected
                    } else {
                        next_step
                    },
                }),
            },
    {
        let mut current = ViewState::Startup;
        core::mem::swap(&mut self.state, &mut current);
        self.state = match current {
            ViewState::InGame { state, game, next_step } => ViewState::InGame {
                state,
                game,
                next_step: if selected.is_some() {
                    selected
                } else {
                    next_step
                },
            },
            ViewState::Startup => ViewState::Startup,
        };
    }

    /// What a key does: `q` ends the application, and `s` starts a game
    /// where `lobby_mode` says that none is being played.
    pub fn handle_key_event(&mut self, key: char, lobby_mode: bool)
        requires
            lobby_mode ==> old(self).view_state().in_lobby(),
        ensures
            final(self).widget() == old(self).widget(),
            final(self).has_exited() == (old(self).has_exited() || key == 'q'),
            key == 's' && lobby_mode ==> final(self).view_state().is_fresh_game(),
            !(key == 's' && lobby_mode) ==> final(self).view_state() == old(self).view_state(),
    {
        if key == 'q' {
            self.exit();
        } else if key == 's' && lobby_mode {
            self.start_game();
        }
    }

    /// What the mouse does: the left button goes to the selections, the
    /// right button clears them, and a movement is remembered.
    pub fn handle_mouse_event(&mut self, mouse_event: MouseInput)
        ensures
            final(self).has_exited() == old(self).has_exited(),
            final(self).view_state() == old(self).view_state(),
            final(self).widget() == match mouse_event.action {
                MouseAction::LeftDown => old(self).widget().clicked(
                    old(self).widget().mouse_position,
                    ClickDirection::Down,
                ).0,
                MouseAction::LeftUp => old(self).widget().clicked(
                    old(self).widget().mouse_position,
                    ClickDirection::Up,
                ).0,
                MouseAction::RightDown => BoardWidget {
                    click_state_1: ClickState::cleared(),
                    click_state_2: ClickState::cleared(),
                    ..old(self).widget()
                },
                MouseAction::Moved => BoardWidget {
                    mouse_position: (mouse_event.column, mouse_event.row),
                    ..old(self).widget()
                },
                MouseAction::Other => old(self).widget(),
            },
    {
        match mouse_event.action {
            MouseAction::LeftDown => {
                let position = self.board_widget.mouse_position;
                self.board_widget.click(position, ClickDirection::Down);
            },
            MouseAction::LeftUp => {
                let position = self.board_widget.mouse_position;
                self.board_widget.click(position, ClickDirection::Up);
            },
            MouseAction::RightDown => {
                self.board_widget.reset_clicks();
            },
            MouseAction::Moved => {
                self.board_widget.mouse_position = (mouse_event.column, mouse_event.row)
            },
            MouseAction::Other => {},  // ignoring things like scroll events
        }
    }

    /// Asks the application to end.
    pub fn exit(&mut self)
        ensures
            final(self).has_exited(),
            final(self).view_state() == old(self).view_state(),
            final(self).widget() == old(self).widget(),
    {
        self.exit = true;
    }

    /// Starts a new game from the lobby.
    pub fn start_game(&mut self)
        requires
            old(self).view_state().in_lobby(),
        ensures
            final(self).view_state().is_fresh_game(),
            final(self).has_exited() == old(self).has_exited(),
            final(self).widget() == old(self).widget(),
    {
        let _ = self.state.start();
    }

    /// Plays the move that has been selected, if there is one, and clears
    /// the selections. A move that is not legal is passed over. Returns the
    /// error where the game could not go on; it then stands as before.
    pub fn handle_state(&mut self) -> (r: Option<ChessError>)
        ensures
            final(self).has_exited() == old(self).has_exited(),
            match old(self).view_state() {
                ViewState::InGame { state, game, next_step: Some(step) } => {
                    &&& final(self).widget() == (BoardWidget {
                        click_state_1: ClickState::cleared(),
                        click_state_2: ClickState::cleared(),
                        ..old(self).widget()
                    })
                    &&& match final(self).view_state() {
                        ViewState::InGame { state: new_state, game: new_game, next_step: None } => {
                            if game.board@.passes_over(step) {
                                &&& r is None
                                &&& new_game.board@ == game.board@
                                &&& new_state == game.board@.state_after(game.board@.turn_color())
                            } else if game.board@.can_play(step) {
                                &&& r is None
                                &&& new_game.board@ == game.board@.played(step)
                                &&& new_state == new_game.board@.state_after(
                                    game.board@.turn_color(),
                                )
                            } else {
                                &&& r is Some
                                &&& game.board@.rejects(step, r->0)
                                &&& new_game.board@ == game.board@
                                &&& new_state == state
                            }
                        },
                        _ => false,
                    }
                },
                _ => r is None && final(self).view_state() == old(self).view_state()
                    && final(self).widget() == old(self).widget(),
            },
    {
        let mut current = ViewState::Startup;
        core::mem::swap(&mut self.state, &mut current);
        match current {
            ViewState::InGame { state, game, next_step: Some(step) } => {
                let mut game = game;
                let res = game.apply_stepkind(step);
                self.board_widget.reset_clicks();
                match res {
                    Ok(new_state) => {
                        self.state = ViewState::InGame { state: new_state, game, next_step: None };
                        None
                    },
                    Err(e) => {
                        self.state = ViewState::InGame { state, game, next_step: None };
                        Some(e)
                    },
                }
            },
            other => {
                self.state = other;
                None
            },
        }
    }
}

} // verus!
