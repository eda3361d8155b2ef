//! Device drivers, sockets and actors for cooperative executors.
//!
//! Every driver is written as a state machine over plain values: it is handed what was read from
//! the hardware or the network and says what is to be written next. The program around it moves
//! the values.

pub mod actor;
pub mod macros;
pub mod net;
pub mod ring_buffer;
pub mod stream;
pub mod text;
pub mod tick;
pub mod usart;
pub mod waker;
