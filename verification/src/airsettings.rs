pub mod appearance;
pub mod category;
pub mod system;
pub mod menu;
