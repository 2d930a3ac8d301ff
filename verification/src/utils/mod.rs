pub mod board_creation;
pub mod sequences;
pub mod text;
