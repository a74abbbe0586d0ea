pub mod scene;
pub mod window;
pub mod ipc;
pub mod events;
