pub mod view_state;
