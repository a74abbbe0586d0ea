pub mod app;
pub mod appearance;
pub mod language;
pub mod network;
pub mod step;
pub mod user;
