pub mod app;
pub mod state;
pub mod widgets;
