pub mod board;
pub mod board_field;
pub mod coordinate_field;
pub mod header;
