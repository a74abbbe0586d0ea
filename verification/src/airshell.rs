pub mod bus_handler;
pub mod dock;
pub mod notifications;
pub mod topbar;
