pub mod driver;
pub mod game;
