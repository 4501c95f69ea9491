use vstd::prelude::*;

verus! {

/// Errors surfaced by the driver.
///
/// The generic parameter `E` is the opaque error type of the underlying bus
/// transport; it is propagated, never interpreted.
#[derive(Debug, PartialEq, Eq)]
pub enum Error<E> {
    /// Wrong block check character (BCC)
    Bcc,
    /// FIFO buffer overflow
    BufferOverflow,
    /// Unrecoverable anticollision state
    Collision,
    /// Wrong CRC
    Crc,
    /// Incomplete RX frame
    IncompleteFrame,
    /// Provided buffer not large enough
    NoRoom,
    /// Internal temperature sensor detects overheating
    Overheating,
    /// Parity check failed
    Parity,
    /// Generic protocol error reported by the reader
    Protocol,
    /// Bus transport error
    Spi(E),
    /// Timeout
    Timeout,
    /// Write error: FIFO buffer was written at an invalid time
    Wr,
    /// Not acknowledge
    Nak,
    /// Proprietary frames, commands or protocols used
    Proprietary,
    /// Lost communication with the reader itself
    LostCommunication,
}

} // verus!
