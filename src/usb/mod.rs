pub mod error;
pub mod hid;
