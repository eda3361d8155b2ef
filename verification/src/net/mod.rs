//! Sockets on a shared network stack.

pub mod client;
pub mod pool;
pub mod smol;
pub mod stack;
pub mod tcp;
pub mod udp;
pub mod wire;
