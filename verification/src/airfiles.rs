pub mod app;
pub mod breadcrumb;
pub mod fs;
pub mod order;
pub mod panel;
pub mod paths;
pub mod sidebar;
