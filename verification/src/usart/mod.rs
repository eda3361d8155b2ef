//! Serial ports.
//!
//! The drivers never touch a register. They are handed the values that were read and answer with
//! the register accesses that come next.

pub mod buffered_uart;
pub mod uart;
pub mod v2;

#[allow(unused_imports)]
use crate::waker::Poll;
use vstd::prelude::*;

verus! {

/// The parity bit of a frame.
#[derive(Clone, Copy, Debug, PartialEq, Eq, Structural)]
pub enum Parity {
    ParityNone,
    ParityEven,
    ParityOdd,
}

/// The settings of a serial port.
#[derive(Clone, Copy, Debug, PartialEq, Eq, Structural)]
pub struct Config {
    pub baudrate: u32,
    pub parity: Parity,
}

/// What can go wrong with a received frame.
#[derive(Clone, Copy, Debug, PartialEq, Eq, Structural)]
pub enum Error {
    /// The stop bit was not found.
    Framing,
    /// Noise was detected on the line.
    Noise,
    /// A frame arrived before the one before it had been read.
    Overrun,
    /// The parity bit did not match.
    Parity,
}

/// The flags of the status register.
#[derive(Clone, Copy, Debug, PartialEq, Eq, Structural)]
pub struct Status {
    /// Parity error.
    pub pe: bool,
    /// Framing error.
    pub fe: bool,
    /// Noise.
    pub nf: bool,
    /// Overrun.
    pub ore: bool,
    /// The line went idle.
    pub idle: bool,
    /// The receive register holds a frame.
    pub rxne: bool,
    /// The last transmission is complete.
    pub tc: bool,
    /// The transmit register is empty.
    pub txe: bool,
}

/// The mark of a direction without a DMA channel.
#[derive(Clone, Copy, Debug, PartialEq, Eq, Structural)]
pub struct NoDma;

/// The byte in the low bits of a data register.
pub open spec fn low_byte(word: u32) -> u8 {
    (word % 256) as u8
}

/// Takes the byte out of a data register.
pub fn data_byte(word: u32) -> (b: u8)
    ensures
        b == low_byte(word),
{
    (word % 256) as u8
}

/// The bytes of `buf` that a poll for writing accepted.
pub open spec fn accepted(r: Poll<Result<usize, Error>>, buf: Seq<u8>) -> Seq<u8> {
    match r {
        Poll::Ready(Ok(n)) => buf.take(n as int),
        _ => Seq::empty(),
    }
}

/// The byte of a data register is its low eight bits, and a byte that was written to one comes back
/// as it was.
pub proof fn lemma_low_byte(word: u32, byte: u8)
    ensures
        low_byte(word) as u32 == word & 0xff,
        low_byte(byte as u32) == byte,
{
    assert(word % 256 == word & 0xff) by (bit_vector);
}

/// A poll for writing accepts as many bytes from the front as it reports, and none where it has to
/// wait or fails.
pub proof fn lemma_accepted(r: Poll<Result<usize, Error>>, buf: Seq<u8>)
    ensures
        match r {
            Poll::Ready(Ok(n)) => n <= buf.len() ==> accepted(r, buf).is_prefix_of(buf) && accepted(
                r,
                buf,
            ).len() == n,
            _ => accepted(r, buf).len() == 0,
        },
{
}

} // verus!
