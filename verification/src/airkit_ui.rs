pub mod button;
pub mod label;
pub mod layout;
