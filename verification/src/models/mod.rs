pub mod board;
pub mod error;
pub mod field_content;
pub mod game_state;
pub mod location;
pub mod piece;
pub mod step;
