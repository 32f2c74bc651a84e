pub mod devices;
pub mod hid;
pub mod init;
pub mod mouse;
pub mod xhci;
