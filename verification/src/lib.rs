//! A chess rules engine: board representation, legal-move generation,
//! check, checkmate and stalemate detection, and a text codec for moves.
//!
//! Every executable function carries a contract over the mathematical model
//! of the board ([`models::board::Grid`] and [`models::board::BoardView`]).

pub mod driver;
pub mod gui;
pub mod logic;
pub mod models;
pub mod utils;
