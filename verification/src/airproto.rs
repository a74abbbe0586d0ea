pub mod messages;
pub mod types;
pub mod wire;
