pub mod basic_evaluation;
pub mod legality;
pub mod move_computer;
pub mod reach;
pub mod symmetry;
