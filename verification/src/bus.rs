use vstd::prelude::*;

verus! {

/// One bus transaction, as the contracts see it: the bytes clocked out and
/// the bytes clocked in during the same slots. A send-only transaction has
/// an empty `received`.
pub struct BusExchange {
    /// The bytes sent, address byte first.
    pub sent: Seq<u8>,
    /// The bytes received in the same clock slots; empty for a send-only
    /// transaction.
    pub received: Seq<u8>,
}

/// `h1` carries `h0` unchanged as its prefix: bus history only ever grows,
/// so facts about performed exchanges survive later ones.
pub open spec fn hist_extends(h0: Seq<BusExchange>, h1: Seq<BusExchange>) -> bool {
    &&& h0.len() <= h1.len()
    &&& forall|i: int| 0 <= i < h0.len() ==> h1[i] == h0[i]
}

/// The duplex byte transport that carries the driver's register accesses,
/// implemented by the environment (an SPI bus, or a simulated one).
///
/// Every call is one bus transaction. The ghost history records, per
/// transaction, the bytes sent and received, so callers can state exactly
/// which frames an operation put on the wire; the ghost transaction count
/// additionally counts failed attempts. The transport's error type is
/// opaque to the driver and is propagated, never interpreted.
pub trait Transport {
    /// The transport's own error type.
    type BusErr;

    /// The exchanges this transport has completed, in order.
    spec fn history(&self) -> Seq<BusExchange>;

    /// How many transactions this transport has carried, failed attempts
    /// included.
    spec fn txn_count(&self) -> nat;

    /// Full-duplex exchange: sends the buffer's bytes and replaces them with
    /// the bytes received in the same clock slots.
    fn transfer(&mut self, buffer: &mut Vec<u8>) -> (r: Result<(), Self::BusErr>)
        ensures
            final(self).txn_count() == old(self).txn_count() + 1,
            r is Ok ==> final(buffer)@.len() == old(buffer)@.len(),
            r is Ok ==> final(self).history() == old(self).history().push(
                (BusExchange { sent: old(buffer)@, received: final(buffer)@ }),
            ),
            r is Err ==> final(self).history() == old(self).history(),
    ;

    /// Send-only exchange: sends the buffer's bytes, discarding the reply.
    fn write_bytes(&mut self, buffer: &Vec<u8>) -> (r: Result<(), Self::BusErr>)
        ensures
            final(self).txn_count() == old(self).txn_count() + 1,
            r is Ok ==> final(self).history() == old(self).history().push(
                (BusExchange { sent: buffer@, received: Seq::empty() }),
            ),
            r is Err ==> final(self).history() == old(self).history(),
    ;
}

/// An optional software chip-select output: driven low for the duration of
/// each bus exchange and high afterwards.
pub trait NssPin {
    /// Asserts the chip select (drives the line low).
    fn set_low(&mut self);

    /// Releases the chip select (drives the line high).
    fn set_high(&mut self);
}

/// An optional hook run after each bus transaction, so platforms can honor
/// the IC's minimum chip-select high dwell time between transactions.
pub trait DelayHook {
    /// Busy-waits for the platform's chosen dwell time.
    fn pause(&mut self);
}

} // verus!
