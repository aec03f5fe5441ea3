//! The C runtime that every generated program carries, as constant text.
pub mod freestanding;
pub mod hosted;
pub mod sockets;
