pub mod cell;
pub mod grid;
pub mod pane;
pub mod split;
pub mod tab;
pub mod app;
