//! The board on the screen: where its squares lie, and what the clicks of
//! the mouse select.

use crate::gui::widgets::board_field::BoardField;
use crate::models::step::{Step, StepKind};
use crate::models::location::Location;
use vstd::prelude::*;

verus! {

/// The columns beside the board that hold the names of the ranks.
pub const COORDINATE_WIDTH: u16 = 4;

/// The rows above and below the board that hold the names of the files.
pub const COORDINATE_HEIGHT: u16 = 2;

/// The columns of a square.
pub const CELL_WIDTH: u16 = 9;

/// The rows of a square.
pub const CELL_HEIGHT: u16 = 5;

/// The columns of the border around the squares.
pub const BORDER_WIDTH: u16 = 1;

/// The rows of the border around the squares.
pub const BORDER_HEIGHT: u16 = 1;

/// Whether the mouse button went down or came up.
#[derive(Debug, Clone, Copy, PartialEq, Eq, Structural)]
pub enum ClickDirection {
    Up,
    Down,
}

impl Default for ClickDirection {
    fn default() -> (direction: Self)
        ensures
            direction == ClickDirection::Down,
    {
        ClickDirection::Down
    }
}

/// One selection in the making: where the button went down, and the
/// position that was selected when it came up in the same place.
#[derive(Debug, Clone, Copy, PartialEq, Eq)]
pub struct ClickState {
    pub pressed_down_on: Option<(u16, u16)>,
    pub selected: Option<(u16, u16)>,
}

impl Default for ClickState {
    fn default() -> (state: Self)
        ensures
            state == ClickState::cleared(),
    {
        ClickState { pressed_down_on: None, selected: None }
    }
}

impl ClickState {
    /// The state in which nothing is pressed or selected.
    pub open spec fn cleared() -> ClickState {
        ClickState { pressed_down_on: None, selected: None }
    }

    /// The state after a click, and the position that the click selects.
    ///
    /// A button that goes down where none was down is remembered. A button
    /// that comes up where it went down selects that position. Anything
    /// else clears the state.
    pub open spec fn updated(self, position: (u16, u16), direction: ClickDirection) -> (
        ClickState,
        Option<(u16, u16)>,
    ) {
        match self.pressed_down_on {
            Some(down) => if direction == ClickDirection::Up && position == down {
                (ClickState { selected: Some(position), ..self }, Some(position))
            } else {
                (ClickState::cleared(), None)
            },
            None => match direction {
                ClickDirection::Up => (ClickState::cleared(), None),
                ClickDirection::Down => (
                    ClickState { pressed_down_on: Some(position), ..self },
                    None,
                ),
            },
        }
    }

    /// Takes a click into account and returns the position that it selects.
    pub fn update(&mut self, position: (u16, u16), click_direction: ClickDirection) -> (r: Option<
        (u16, u16),
    >)
        ensures
            (*final(self), r) == old(self).updated(position, click_direction),
    {
        if let Some(down_click_pos) = self.pressed_down_on {
            // check second one is up
            if let ClickDirection::Down = click_direction {
                self.reset();
                return None;
            }
            if position.0 == down_click_pos.0 && position.1 == down_click_pos.1 {
                self.selected = Some(position);
                Some(position)
            } else {
                self.reset();
                None
            }
        } else {
            if let ClickDirection::Up = click_direction {
                self.reset()
            } else {
                self.pressed_down_on = Some(position);
            }
            None
        }
    }

    /// Forgets what was pressed and selected.
    pub fn reset(&mut self)
        ensures
            *final(self) == ClickState::cleared(),
    {
        self.pressed_down_on = None;
        self.selected = None;
    }
}

/// A rectangle of the screen.
#[derive(Debug, Clone, Copy, PartialEq, Eq, Structural)]
pub struct Region {
    pub x: u16,
    pub y: u16,
    pub width: u16,
    pub height: u16,
}

/// The three rectangles of a drawn board: the outer frame with the
/// coordinates, the border inside it, and the squares inside the border.
#[derive(Debug, Clone, Copy, PartialEq, Eq, Structural)]
pub struct BoardLayout {
    pub outer: Region,
    pub border: Region,
    pub fields: Region,
}

/// The layout of a board whose outer frame starts at `(x, y)`.
pub open spec fn layout_at(x: u16, y: u16) -> BoardLayout {
    BoardLayout {
        outer: Region { x, y, width: 82, height: 46 },
        border: Region { x: (x + 4) as u16, y: (y + 2) as u16, width: 74, height: 42 },
        fields: Region { x: (x + 5) as u16, y: (y + 3) as u16, width: 72, height: 40 },
    }
}

/// The square of the board that is drawn over a position of the screen,
/// where the squares start at `(x, y)`: files run to the right, nine
/// columns each; ranks run upwards, five rows each.
pub open spec fn square_at(x: u16, y: u16, position: (u16, u16)) -> Option<(usize, usize)> {
    if x <= position.0 < x + 72 && y <= position.1 < y + 40 {
        Some((((position.0 - x) / 9) as usize, (7 - (position.1 - y) / 5) as usize))
    } else {
        None
    }
}

/// The square that a click state has selected.
pub open spec fn selected_square(x: u16, y: u16, state: ClickState) -> Option<(usize, usize)> {
    match state.selected {
        Some(position) => square_at(x, y, position),
        None => None,
    }
}

/// The square numbered `n` in the order in which the squares are laid out:
/// file by file, each file from the top of the screen.
pub open spec fn field_at(widget: BoardWidget, x: u16, y: u16, n: int) -> BoardField {
    let i = n / 8;
    let j = n % 8;
    BoardField {
        x: (9 * i) as u16,
        y: (5 * j) as u16,
        width: 9,
        height: 5,
        chess_coordinates: (i as usize, (7 - j) as usize),
        dark: (i + j) % 2 == 0,
        contains_mouse: square_at(x, y, widget.mouse_position) == Some(
            (i as usize, (7 - j) as usize),
        ),
        was_clicked: selected_square(x, y, widget.click_state_1) == Some(
            (i as usize, (7 - j) as usize),
        ),
    }
}

/// The move that two selected squares ask for.
pub open spec fn step_between(first: Option<(usize, usize)>, second: Option<(usize, usize)>) -> Option<
    StepKind,
> {
    match (first, second) {
        (Some(from), Some(to)) => Some(
            StepKind::GoTo(
                Step {
                    from: Location { x: from.0, y: from.1 },
                    to: Location { x: to.0, y: to.1 },
                },
            ),
        ),
        _ => None,
    }
}

/// The mouse over the board: where it is, and the two selections that make
/// a move.
#[derive(Debug, Clone, Copy, PartialEq, Eq)]
pub struct BoardWidget {
    pub mouse_position: (u16, u16),
    pub click_state_1: ClickState,
    pub click_state_2: ClickState,
}

impl Default for BoardWidget {
    fn default() -> (widget: Self)
        ensures
            widget == (BoardWidget {
                mouse_position: (0, 0),
                click_state_1: ClickState::cleared(),
                click_state_2: ClickState::cleared(),
            }),
    {
        BoardWidget {
            mouse_position: (0, 0),
            click_state_1: ClickState { pressed_down_on: None, selected: None },
            click_state_2: ClickState { pressed_down_on: None, selected: None },
        }
    }
}

impl BoardWidget {
    /// The widget after a click, and the step from the first selected
    /// position to the one that this click selects.
    ///
    /// Until a first position is selected, clicks go to the first
    /// selection; after that they go to the second.
    pub open spec fn clicked(self, position: (u16, u16), direction: ClickDirection) -> (
        BoardWidget,
        Option<Step>,
    ) {
        match self.click_state_1.selected {
            Some(first) => {
                let (second_state, second) = self.click_state_2.updated(position, direction);
                (
                    BoardWidget { click_state_2: second_state, ..self },
                    match second {
                        Some(second) => Some(
                            Step {
                                from: Location { x: first.0 as usize, y: first.1 as usize },
                                to: Location { x: second.0 as usize, y: second.1 as usize },
                            },
                        ),
                        None => None,
                    },
                )
            },
            None => (
                BoardWidget {
                    click_state_1: self.click_state_1.updated(position, direction).0,
                    ..self
                },
                None,
            ),
        }
    }

    /// The rectangles in which a board is drawn whose area starts at
    /// `(area_x, area_y)`.
    pub fn layout(area_x: u16, area_y: u16) -> (layout: BoardLayout)
        requires
            area_x + 5 <= u16::MAX,
            area_y + 3 <= u16::MAX,
        ensures
            layout == layout_at(area_x, area_y),
    {
        let full_width = CELL_WIDTH * 8 + COORDINATE_WIDTH * 2 + 2 * BORDER_WIDTH;
        let full_height = CELL_HEIGHT * 8 + COORDINATE_HEIGHT * 2 + 2 * BORDER_HEIGHT;
        let outer = Region { x: area_x, y: area_y, width: full_width, height: full_height };
        let border = Region {
            x: outer.x + COORDINATE_WIDTH,
            y: outer.y + COORDINATE_HEIGHT,
            width: full_width - 2 * COORDINATE_WIDTH,
            height: full_height - 2 * COORDINATE_HEIGHT,
        };
        let fields = Region {
            x: border.x + BORDER_WIDTH,
            y: border.y + BORDER_HEIGHT,
            width: 8 * CELL_WIDTH,
            height: 8 * CELL_HEIGHT,
        };
        BoardLayout { outer, border, fields }
    }

    /// The sixty-four squares as they are laid out in an area that starts
    /// at `(area_x, area_y)`, and the squares that the two selections lie on.
    pub fn board_fields(&self, area_x: u16, area_y: u16) -> (r: (
        Vec<BoardField>,
        Option<(usize, usize)>,
        Option<(usize, usize)>,
    ))
        requires
            area_x + 72 <= u16::MAX,
            area_y + 40 <= u16::MAX,
        ensures
            r.0@.len() == 64,
            forall|n: int| 0 <= n < 64 ==> #[trigger] r.0@[n] == field_at(*self, area_x, area_y, n),
            r.1 == selected_square(area_x, area_y, self.click_state_1),
            r.2 == selected_square(area_x, area_y, self.click_state_2),
    {
        let mut res_fields: Vec<BoardField> = Vec::new();
        let selected1 = match self.click_state_1.selected {
            Some(position) => position,
            None => (u16::MAX, u16::MAX),
        };
        let selected2 = match self.click_state_2.selected {
            Some(position) => position,
            None => (u16::MAX, u16::MAX),
        };
        let mut selected1_chess_cords: Option<(usize, usize)> = None;
        let mut selected2_chess_cords: Option<(usize, usize)> = None;
        let mut i: u16 = 0;
        while i < 8
            invariant
                i <= 8,
                area_x + 72 <= u16::MAX,
                area_y + 40 <= u16::MAX,
                res_fields@.len() == 8 * i,
                forall|n: int|
                    0 <= n < 8 * i ==> #[trigger] res_fields@[n] == field_at(
                        *self,
                        area_x,
                        area_y,
                        n,
                    ),
                selected1 == match self.click_state_1.selected {
                    Some(position) => position,
                    None => (u16::MAX, u16::MAX),
                },
                selected2 == match self.click_state_2.selected {
                    Some(position) => position,
                    None => (u16::MAX, u16::MAX),
                },
                selected1_chess_cords == (if selected1.0 < area_x + 9 * i {
                    square_at(area_x, area_y, selected1)
                } else {
                    None
                }),
                selected2_chess_cords == (if selected2.0 < area_x + 9 * i {
                    square_at(area_x, area_y, selected2)
                } else {
                    None
                }),
            decreases 8 - i,
        {
            let mut j: u16 = 0;
            while j < 8
                invariant
                    i < 8,
                    j <= 8,
                    area_x + 72 <= u16::MAX,
                    area_y + 40 <= u16::MAX,
                    res_fields@.len() == 8 * i + j,
                    forall|n: int|
                        0 <= n < 8 * i + j ==> #[trigger] res_fields@[n] == field_at(
                            *self,
                            area_x,
                            area_y,
                            n,
                        ),
                    selected1 == match self.click_state_1.selected {
                        Some(position) => position,
                        None => (u16::MAX, u16::MAX),
                    },
                    selected2 == match self.click_state_2.selected {
                        Some(position) => position,
                        None => (u16::MAX, u16::MAX),
                    },
                    selected1_chess_cords == (if selected1.0 < area_x + 9 * i || (selected1.0
                        < area_x + 9 * i + 9 && selected1.1 < area_y + 5 * j) {
                        square_at(area_x, area_y, selected1)
                    } else {
                        None
                    }),
                    selected2_chess_cords == (if selected2.0 < area_x + 9 * i || (selected2.0
                        < area_x + 9 * i + 9 && selected2.1 < area_y + 5 * j) {
                        square_at(area_x, area_y, selected2)
                    } else {
                        None
                    }),
                decreases 8 - j,
            {
                // we draw top to bottom, but the chess board is indexed bottom to top
                let chess_i = i as usize;
                let chess_j = 7 - j as usize;
                let x = CELL_WIDTH * i;
                let y = CELL_HEIGHT * j;
                let dark = (i + j) % 2 == 0;
                let left = area_x + x;
                let right = left + CELL_WIDTH;
                let top = area_y + y;
                let bottom = top + CELL_HEIGHT;
                let contains_mouse = Self::contains(left, right, top, bottom, self.mouse_position);
                let contains_first_click = Self::contains(left, right, top, bottom, selected1);
                let contains_second_click = Self::contains(left, right, top, bottom, selected2);
                if contains_first_click {
                    selected1_chess_cords = Some((chess_i, chess_j))
                }
                if contains_second_click {
                    selected2_chess_cords = Some((chess_i, chess_j))
                }
                let cell = BoardField::new(
                    x,
                    y,
                    CELL_WIDTH,
                    CELL_HEIGHT,
                    (chess_i, chess_j),
                    dark,
                    contains_mouse,
                    contains_first_click,
                );
                proof {
                    let n = 8 * i + j;
                    assert(n / 8 == i && n % 8 == j);
                    assert(cell == field_at(*self, area_x, area_y, n as int));
                }
                res_fields.push(cell);
                j = j + 1;
            }
            i = i + 1;
        }
        (res_fields, selected1_chess_cords, selected2_chess_cords)
    }

    /// Whether a position lies in a rectangle given by its edges.
    fn contains(left: u16, right: u16, top: u16, bottom: u16, pos: (u16, u16)) -> (r: bool)
        ensures
            r == (left <= pos.0 < right && top <= pos.1 < bottom),
    {
        let contains_vertical = left <= pos.0 && right > pos.0;
        let contains_horiz = top <= pos.1 && bottom > pos.1;
        contains_vertical && contains_horiz
    }

    /// The move that the two selections ask for, once both lie on squares.
    pub fn next_step(first: Option<(usize, usize)>, second: Option<(usize, usize)>) -> (r: Option<
        StepKind,
    >)
        ensures
            r == step_between(first, second),
    {
        if let (Some(pos1), Some(pos2)) = (first, second) {
            Some(StepKind::GoTo(Step::new(pos1, pos2)))
        } else {
            None
        }
    }

    /// Takes a click into account: the first selection is made before the
    /// second. Returns the step between the two selected positions once
    /// the second one is made.
    pub fn click(&mut self, position: (u16, u16), click_direction: ClickDirection) -> (r: Option<
        Step,
    >)
        ensures
            (*final(self), r) == old(self).clicked(position, click_direction),
    {
        if let Some(first_click) = self.click_state_1.selected {
            let second_click_opt = self.click_state_2.update(position, click_direction);
            if let Some(second_click) = second_click_opt {
                Some(
                    Step::new(
                        (first_click.0 as usize, first_click.1 as usize),
                        (second_click.0 as usize, second_click.1 as usize),
                    ),
                )
            } else {
                None
            }
        } else {
            self.click_state_1.update(position, click_direction);
            None
        }
    }

    /// Forgets both selections.
    pub fn reset_clicks(&mut self)
        ensures
            *final(self) == (BoardWidget {
                click_state_1: ClickState::cleared(),
                click_state_2: ClickState::cleared(),
                ..*old(self)
            }),
    {
        self.click_state_1.reset();
        self.click_state_2.reset();
    }
}

} // verus!
