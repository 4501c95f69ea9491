use vstd::prelude::*;
use crate::bus::{hist_extends, BusExchange, DelayHook, NssPin, Transport};
use crate::error::Error;
use crate::fifo::FifoData;
use crate::logic::{
    atqa_standard, build_anticollision_frame, build_select_frame, check_atqa_standard,
    classify_authent_poll, classify_transceive_poll, collision_next, decode_atqa, decode_sak,
    error_flags, force_tie_break, halt_outcome, ack_outcome, extract_block, spec_error_flags,
    AtqA, PollVerdict,
};
use crate::picc;
use crate::picc::Sak;
use crate::register::{
    Command, Register, CRC_IRQ, ERR_IRQ, FLUSH_BUFFER, IDLE_IRQ, POWER_DOWN, RX_IRQ, TIMER_IRQ,
};
use crate::util::{DummyDelay, DummyNSS, Sealed};

verus! {

/// A MIFARE sector key: a fixed 6-byte secret, supplied by the caller and
/// never persisted by the driver.
pub type MifareKey = [u8; 6];

/// A card's unique identifier, as resolved by the anticollision cascade:
/// one variant per UID length, each carrying the terminal select
/// acknowledge.
pub enum Uid {
    /// Single sized UID, 4 bytes long
    Single(GenericUid<4>),
    /// Double sized UID, 7 bytes long
    Double(GenericUid<7>),
    /// Triple sized UID, 10 bytes long
    Triple(GenericUid<10>),
}

impl Uid {
    /// The UID's bytes, whatever its length.
    pub open spec fn spec_bytes(&self) -> Seq<u8> {
        match self {
            Uid::Single(u) => u.spec_bytes(),
            Uid::Double(u) => u.spec_bytes(),
            Uid::Triple(u) => u.spec_bytes(),
        }
    }

    /// The terminal select acknowledge of the cascade that produced this UID.
    pub open spec fn spec_sak(&self) -> Sak {
        match self {
            Uid::Single(u) => u.spec_sak(),
            Uid::Double(u) => u.spec_sak(),
            Uid::Triple(u) => u.spec_sak(),
        }
    }

    /// The UID's bytes, whatever its length: 4 for `Single`, 7 for
    /// `Double`, 10 for `Triple`.
    pub fn as_bytes(&self) -> (r: &[u8])
        ensures
            r@ == self.spec_bytes(),
            self is Single ==> r@.len() == 4,
            self is Double ==> r@.len() == 7,
            self is Triple ==> r@.len() == 10,
    {
        match self {
            Uid::Single(u) => u.as_bytes(),
            Uid::Double(u) => u.as_bytes(),
            Uid::Triple(u) => u.as_bytes(),
        }
    }

    /// The UID's length is fixed by its variant: 4 bytes for `Single`, 7
    /// for `Double`, 10 for `Triple`.
    pub proof fn lemma_bytes_len(&self)
        ensures
            self is Single ==> self.spec_bytes().len() == 4,
            self is Double ==> self.spec_bytes().len() == 7,
            self is Triple ==> self.spec_bytes().len() == 10,
    {
        match self {
            Uid::Single(u) => u.lemma_bytes_len(),
            Uid::Double(u) => u.lemma_bytes_len(),
            Uid::Triple(u) => u.lemma_bytes_len(),
        }
    }

    /// The 4 UID bytes of the final cascade level, the only ones that
    /// participate in MIFARE authentication whatever the UID's length.
    pub fn auth_bytes(&self) -> (r: [u8; 4])
        ensures
            r@ == self.spec_bytes().subrange(
                self.spec_bytes().len() - 4,
                self.spec_bytes().len() as int,
            ),
    {
        let r: [u8; 4] = match self {
            Uid::Single(u) => [u.bytes[0], u.bytes[1], u.bytes[2], u.bytes[3]],
            Uid::Double(u) => [u.bytes[3], u.bytes[4], u.bytes[5], u.bytes[6]],
            Uid::Triple(u) => [u.bytes[6], u.bytes[7], u.bytes[8], u.bytes[9]],
        };
        proof {
            assert(r@ =~= self.spec_bytes().subrange(
                self.spec_bytes().len() - 4,
                self.spec_bytes().len() as int,
            ));
        }
        r
    }
}

/// A UID of one fixed length (4, 7 or 10 bytes) with the select acknowledge
/// returned by the card after successful selection.
pub struct GenericUid<const T: usize> {
    /// The UID bytes.
    bytes: [u8; T],
    /// The SAK byte returned from the card after successful selection.
    sak: Sak,
}

impl<const T: usize> GenericUid<T> {
    /// The UID's bytes.
    pub closed spec fn spec_bytes(&self) -> Seq<u8> {
        self.bytes@
    }

    /// The select acknowledge stored with the UID.
    pub closed spec fn spec_sak(&self) -> Sak {
        self.sak
    }

    /// Builds a UID from its bytes and the raw SAK byte.
    pub fn new(bytes: [u8; T], sak_byte: u8) -> (r: Self)
        ensures
            r.spec_bytes() == bytes@,
            r.spec_sak().byte == sak_byte,
    {
        Self { bytes, sak: Sak::from_byte(sak_byte) }
    }

    /// The UID's bytes: always exactly the width `T` of this type.
    pub fn as_bytes(&self) -> (r: &[u8])
        ensures
            r@ == self.spec_bytes(),
            r@.len() == T,
    {
        self.bytes.as_slice()
    }

    /// The UID's length equals the width parameter of this type.
    pub proof fn lemma_bytes_len(&self)
        ensures
            self.spec_bytes().len() == T,
    {
    }

    /// True when the stored SAK reports ISO 14443-4 compliance.
    pub fn is_compliant(&self) -> (r: bool)
        ensures
            r == (self.spec_sak().byte & 0x20 != 0),
    {
        self.sak.is_compliant()
    }
}

/// Implemented by the different states of the driver.
///
/// This trait cannot be implemented outside of this crate.
pub trait State: Sealed {

}

/// The driver starts in this state and needs to be initialized before the
/// protocol operations become available. A pure compile-time marker: it
/// carries no data and cannot be constructed outside this crate.
pub struct Uninitialized {
    _seal: (),
}

/// The driver is ready for use. A pure compile-time marker: it carries no
/// data and cannot be constructed outside this crate.
pub struct Initialized {
    _seal: (),
}

impl Sealed for Uninitialized {

}

impl Sealed for Initialized {

}

impl State for Uninitialized {

}

impl State for Initialized {

}

/// Scopes one bus exchange: the chip select is asserted before the exchange
/// and released after it, unconditionally, and the configured dwell delay
/// runs after the release. Implemented once for every driver handle; handles
/// built without a chip select or delay use the no-op capabilities.
pub trait WithNssDelay {
    /// Asserts the chip select before an exchange.
    fn begin_exchange(&mut self);

    /// Releases the chip select after an exchange and honors the minimum
    /// chip-select-high dwell time.
    fn end_exchange(&mut self);
}

/// The reader driver: owns the bus transport, an optional chip-select
/// output, an optional inter-transaction delay hook, and a compile-time
/// state marker. Protocol operations exist only on `Initialized` handles.
pub struct Mfrc522<SPI, NSS, D, S: State> {
    spi: SPI,
    nss: NSS,
    delay: D,
    state: core::marker::PhantomData<S>,
}

impl<SPI, NSS: NssPin, D: DelayHook, S: State> WithNssDelay for Mfrc522<SPI, NSS, D, S> {
    fn begin_exchange(&mut self) {
        self.nss_begin();
    }

    fn end_exchange(&mut self) {
        self.nss_end();
    }
}

impl<SPI, NSS: NssPin, D: DelayHook, S: State> Mfrc522<SPI, NSS, D, S> {
    /// Asserts the chip select before an exchange; the bus transport is
    /// untouched.
    fn nss_begin(&mut self)
        ensures
            final(self).spi == old(self).spi,
    {
        self.nss.set_low();
    }

    /// Releases the chip select after an exchange and honors the minimum
    /// chip-select-high dwell time; the bus transport is untouched.
    fn nss_end(&mut self)
        ensures
            final(self).spi == old(self).spi,
    {
        self.nss.set_high();
        self.delay.pause();
    }
}

impl<SPI: Transport> Mfrc522<SPI, DummyNSS, DummyDelay, Uninitialized> {
    /// Creates a new driver from a bus transport.
    ///
    /// The resulting driver uses a *dummy* chip-select pin and expects the
    /// actual chip select to be controlled by hardware; use
    /// [`Mfrc522::with_nss`] to add a software controlled pin and
    /// [`Mfrc522::with_delay`] to respect the chip-select dwell time under
    /// aggressive timing.
    pub fn new(spi: SPI) -> (r: Mfrc522<SPI, DummyNSS, DummyDelay, Uninitialized>)
        ensures
            r.spec_spi() == spi,
    {
        Mfrc522 { spi, nss: DummyNSS {  }, delay: DummyDelay {  }, state: core::marker::PhantomData }
    }
}

impl<SPI, D, S: State> Mfrc522<SPI, DummyNSS, D, S> {
    /// Adds a software controlled chip-select pin to be driven around every
    /// bus exchange.
    pub fn with_nss<NSS: NssPin>(self, nss: NSS) -> (r: Mfrc522<SPI, NSS, D, S>)
        ensures
            r.spec_spi() == self.spec_spi(),
            r.spec_nss() == nss,
    {
        Mfrc522 { spi: self.spi, nss, delay: self.delay, state: core::marker::PhantomData }
    }
}

impl<SPI, NSS, S: State> Mfrc522<SPI, NSS, DummyDelay, S> {
    /// Adds a delay hook run after each bus exchange, so the chip-select
    /// line stays de-asserted for the IC's minimum dwell time between
    /// exchanges.
    pub fn with_delay<D: DelayHook>(self, delay: D) -> (r: Mfrc522<SPI, NSS, D, S>)
        ensures
            r.spec_spi() == self.spec_spi(),
            r.spec_nss() == self.spec_nss(),
    {
        Mfrc522 { spi: self.spi, nss: self.nss, delay, state: core::marker::PhantomData }
    }
}

impl<SPI, NSS, D, S: State> Mfrc522<SPI, NSS, D, S> {
    /// The bus transport held by the driver.
    pub closed spec fn spec_spi(&self) -> SPI {
        self.spi
    }

    /// The chip-select capability held by the driver.
    pub closed spec fn spec_nss(&self) -> NSS {
        self.nss
    }

    /// Releases the underlying bus transport and chip-select pin.
    pub fn release(self) -> (r: (SPI, NSS))
        ensures
            r.0 == self.spec_spi(),
            r.1 == self.spec_nss(),
    {
        (self.spi, self.nss)
    }
}

impl<SPI: Transport, NSS, D, S: State> Mfrc522<SPI, NSS, D, S> {
    /// How many transactions the driver has put on the bus, failed attempts
    /// included.
    pub closed spec fn bus_transactions(&self) -> nat {
        self.spi.txn_count()
    }

    /// The exchanges the driver has performed on the bus, in order.
    pub closed spec fn bus_history(&self) -> Seq<BusExchange> {
        self.spi.history()
    }
}

/// The bit-framing byte that starts a transmission: bit 7 starts it, the
/// middle nibble tells the receiver at which bit offset to store the first
/// received bit, and the low bits give the significant bits of the last
/// transmitted byte (0 meaning all 8).
pub open spec fn framing_byte(tx_last_bits: u8, rx_align_bits: u8) -> u8 {
    (1u8 << 7) | ((rx_align_bits & 0x07) << 4) | (tx_last_bits & 0x07)
}

/// The fixed six sends that begin every request/response exchange, in
/// order, starting at position `n0` of the bus history: idle the reader,
/// clear the interrupt flags, flush the FIFO, load the payload into the
/// FIFO, start the transceive command, and write the bit-framing byte that
/// starts the transmission.
pub open spec fn transceive_sends(
    h: Seq<BusExchange>,
    n0: int,
    payload: Seq<u8>,
    framing: u8,
) -> bool {
    &&& 0 <= n0
    &&& n0 + 6 <= h.len()
    &&& h[n0].sent == seq![Register::CommandReg.spec_write_address(), Command::Idle.spec_code()]
    &&& h[n0 + 1].sent == seq![Register::ComIrqReg.spec_write_address(), 0x7Fu8]
    &&& h[n0 + 2].sent == seq![Register::FIFOLevelReg.spec_write_address(), FLUSH_BUFFER]
    &&& h[n0 + 3].sent == seq![Register::FIFODataReg.spec_write_address()] + payload
    &&& h[n0 + 4].sent == seq![
        Register::CommandReg.spec_write_address(),
        Command::Transceive.spec_code(),
    ]
    &&& h[n0 + 5].sent == seq![Register::BitFramingReg.spec_write_address(), framing]
}

/// The five sends that begin a check-value calculation, in order, starting
/// at position `n0` of the bus history: idle the reader, clear the
/// CRC-done flag, flush the FIFO, load the payload, and start the
/// coprocessor.
pub open spec fn crc_sends(h: Seq<BusExchange>, n0: int, payload: Seq<u8>) -> bool {
    &&& 0 <= n0
    &&& n0 + 5 <= h.len()
    &&& h[n0].sent == seq![Register::CommandReg.spec_write_address(), Command::Idle.spec_code()]
    &&& h[n0 + 1].sent == seq![Register::DivIrqReg.spec_write_address(), CRC_IRQ]
    &&& h[n0 + 2].sent == seq![Register::FIFOLevelReg.spec_write_address(), FLUSH_BUFFER]
    &&& h[n0 + 3].sent == seq![Register::FIFODataReg.spec_write_address()] + payload
    &&& h[n0 + 4].sent == seq![
        Register::CommandReg.spec_write_address(),
        Command::CalcCRC.spec_code(),
    ]
}

/// The six sends that begin a MIFARE authentication, in order, starting at
/// position `n0` of the bus history: idle the reader, clear the interrupt
/// flags, flush the FIFO, clear the bit framing, load the 12-byte
/// authentication frame, and start the command.
pub open spec fn authent_sends(h: Seq<BusExchange>, n0: int, payload: Seq<u8>) -> bool {
    &&& 0 <= n0
    &&& n0 + 6 <= h.len()
    &&& h[n0].sent == seq![Register::CommandReg.spec_write_address(), Command::Idle.spec_code()]
    &&& h[n0 + 1].sent == seq![Register::ComIrqReg.spec_write_address(), 0x7Fu8]
    &&& h[n0 + 2].sent == seq![Register::FIFOLevelReg.spec_write_address(), FLUSH_BUFFER]
    &&& h[n0 + 3].sent == seq![Register::BitFramingReg.spec_write_address(), 0u8]
    &&& h[n0 + 4].sent == seq![Register::FIFODataReg.spec_write_address()] + payload
    &&& h[n0 + 5].sent == seq![
        Register::CommandReg.spec_write_address(),
        Command::MFAuthent.spec_code(),
    ]
}

/// The history closes with an interrupt-status read that showed no
/// completion flag; `timer` tells whether the hardware timer flag was set
/// (a card timeout) or not (a reader that stopped answering).
pub open spec fn poll_evidence(h: Seq<BusExchange>, timer: bool) -> bool {
    &&& h.len() >= 1
    &&& h.last().sent == seq![Register::ComIrqReg.spec_read_address(), 0u8]
    &&& h.last().received.len() == 2
    &&& h.last().received[1] & (RX_IRQ | ERR_IRQ | IDLE_IRQ) == 0
    &&& (if timer {
        h.last().received[1] & TIMER_IRQ != 0
    } else {
        h.last().received[1] & TIMER_IRQ == 0
    })
}

/// The history closes with an error-register read whose flags decode to
/// exactly the given error.
pub open spec fn flag_evidence<E>(h: Seq<BusExchange>, e: Error<E>) -> bool {
    &&& h.len() >= 1
    &&& h.last().sent == seq![Register::ErrorReg.spec_read_address(), 0u8]
    &&& h.last().received.len() == 2
    &&& spec_error_flags::<E>(h.last().received[1]) == Err::<(), Error<E>>(e)
}

/// The history closes with a CRC-done poll that never saw the flag.
pub open spec fn crc_timeout_evidence(h: Seq<BusExchange>) -> bool {
    &&& h.len() >= 1
    &&& h.last().sent == seq![Register::DivIrqReg.spec_read_address(), 0u8]
    &&& h.last().received.len() == 2
    &&& h.last().received[1] & CRC_IRQ == 0
}

/// The history closes with a collision-register read: the collision report
/// itself was unusable (position invalid or no forward progress).
pub open spec fn collision_read_evidence(h: Seq<BusExchange>) -> bool {
    &&& h.len() >= 1
    &&& h.last().sent == seq![Register::CollReg.spec_read_address(), 0u8]
    &&& h.last().received.len() == 2
}

/// The FIFO drain ending at position `end` (exclusive) of the history read
/// a well-shaped 4-bit MIFARE acknowledge: the level read returned exactly
/// one byte and the control read reported exactly 4 valid bits.
pub open spec fn ack_drained(h: Seq<BusExchange>, end: int) -> bool {
    &&& 3 <= end <= h.len()
    &&& h[end - 3].sent == seq![Register::FIFOLevelReg.spec_read_address(), 0u8]
    &&& h[end - 3].received.len() == 2
    &&& h[end - 3].received[1] == 1
    &&& h[end - 1].sent == seq![Register::ControlReg.spec_read_address(), 0u8]
    &&& h[end - 1].received.len() == 2
    &&& h[end - 1].received[1] & 0x07 == 4
}

/// The FIFO drain ending at position `end` (exclusive) of the history read
/// something other than the 4-bit MIFARE acknowledge shape: either nothing
/// at all, or one byte whose valid-bit count is not 4.
pub open spec fn non_ack_drained(h: Seq<BusExchange>, end: int) -> bool {
    ||| (1 <= end <= h.len() && h[end - 1].sent == seq![
        Register::FIFOLevelReg.spec_read_address(),
        0u8,
    ] && h[end - 1].received.len() == 2 && h[end - 1].received[1] == 0)
    ||| (3 <= end <= h.len() && h[end - 3].sent == seq![
        Register::FIFOLevelReg.spec_read_address(),
        0u8,
    ] && h[end - 3].received.len() == 2 && h[end - 3].received[1] == 1 && h[end - 1].sent
        == seq![Register::ControlReg.spec_read_address(), 0u8] && h[end - 1].received.len() == 2
        && h[end - 1].received[1] & 0x07 != 4)
}

/// One cascade level's confirmation is visible in the history between
/// `lo` and `hi`: the full select frame for `cmd`, carrying the level
/// bytes and their check character, was loaded into the FIFO, and after it
/// a whole-byte 3-byte answer whose first byte is `sak` was drained.
pub open spec fn level_confirmed(
    h: Seq<BusExchange>,
    lo: int,
    hi: int,
    cmd: u8,
    b0: u8,
    b1: u8,
    b2: u8,
    b3: u8,
    sak: u8,
) -> bool {
    exists|i: int|
        lo <= i < hi <= h.len() && (#[trigger] h[i]).sent.len() == 10 && h[i].sent.subrange(0, 8)
            == seq![
            Register::FIFODataReg.spec_write_address(),
            cmd,
            0x70u8,
            b0,
            b1,
            b2,
            b3,
            (b0 ^ b1 ^ b2 ^ b3),
        ] && (exists|d: int|
            i < d && d + 3 <= hi && (#[trigger] h[d]).sent == seq![
                Register::FIFOLevelReg.spec_read_address(),
                0u8,
            ] && h[d].received.len() == 2 && h[d].received[1] == 3 && h[d + 1].received.len() == 4
                && h[d + 1].received[1] == sak && h[d + 2].sent == seq![
                Register::ControlReg.spec_read_address(),
                0u8,
            ] && h[d + 2].received.len() == 2 && h[d + 2].received[1] & 0x07 == 0)
}

/// A confirmed level stays confirmed when the history grows.
proof fn lemma_level_confirmed_extends(
    h0: Seq<BusExchange>,
    h1: Seq<BusExchange>,
    lo: int,
    hi: int,
    cmd: u8,
    b0: u8,
    b1: u8,
    b2: u8,
    b3: u8,
    sak: u8,
)
    requires
        0 <= lo,
        hist_extends(h0, h1),
        level_confirmed(h0, lo, hi, cmd, b0, b1, b2, b3, sak),
    ensures
        level_confirmed(h1, lo, hi, cmd, b0, b1, b2, b3, sak),
{
    let i = choose|i: int|
        lo <= i < hi <= h0.len() && (#[trigger] h0[i]).sent.len() == 10 && h0[i].sent.subrange(
            0,
            8,
        ) == seq![
            Register::FIFODataReg.spec_write_address(),
            cmd,
            0x70u8,
            b0,
            b1,
            b2,
            b3,
            (b0 ^ b1 ^ b2 ^ b3),
        ] && (exists|d: int|
            i < d && d + 3 <= hi && (#[trigger] h0[d]).sent == seq![
                Register::FIFOLevelReg.spec_read_address(),
                0u8,
            ] && h0[d].received.len() == 2 && h0[d].received[1] == 3 && h0[d + 1].received.len()
                == 4 && h0[d + 1].received[1] == sak && h0[d + 2].sent == seq![
                Register::ControlReg.spec_read_address(),
                0u8,
            ] && h0[d + 2].received.len() == 2 && h0[d + 2].received[1] & 0x07 == 0);
    let d = choose|d: int|
        i < d && d + 3 <= hi && (#[trigger] h0[d]).sent == seq![
            Register::FIFOLevelReg.spec_read_address(),
            0u8,
        ] && h0[d].received.len() == 2 && h0[d].received[1] == 3 && h0[d + 1].received.len() == 4
            && h0[d + 1].received[1] == sak && h0[d + 2].sent == seq![
            Register::ControlReg.spec_read_address(),
            0u8,
        ] && h0[d + 2].received.len() == 2 && h0[d + 2].received[1] & 0x07 == 0;
    assert(h1[i] == h0[i]);
    assert(h1[d] == h0[d] && h1[d + 1] == h0[d + 1] && h1[d + 2] == h0[d + 2]);
}

/// A confirmed level stays confirmed under a wider window.
proof fn lemma_level_confirmed_widen(
    h: Seq<BusExchange>,
    lo1: int,
    lo2: int,
    hi1: int,
    hi2: int,
    cmd: u8,
    b0: u8,
    b1: u8,
    b2: u8,
    b3: u8,
    sak: u8,
)
    requires
        lo2 <= lo1,
        hi1 <= hi2 <= h.len(),
        level_confirmed(h, lo1, hi1, cmd, b0, b1, b2, b3, sak),
    ensures
        level_confirmed(h, lo2, hi2, cmd, b0, b1, b2, b3, sak),
{
    let i = choose|i: int|
        lo1 <= i < hi1 <= h.len() && (#[trigger] h[i]).sent.len() == 10 && h[i].sent.subrange(
            0,
            8,
        ) == seq![
            Register::FIFODataReg.spec_write_address(),
            cmd,
            0x70u8,
            b0,
            b1,
            b2,
            b3,
            (b0 ^ b1 ^ b2 ^ b3),
        ] && (exists|d: int|
            i < d && d + 3 <= hi1 && (#[trigger] h[d]).sent == seq![
                Register::FIFOLevelReg.spec_read_address(),
                0u8,
            ] && h[d].received.len() == 2 && h[d].received[1] == 3 && h[d + 1].received.len() == 4
                && h[d + 1].received[1] == sak && h[d + 2].sent == seq![
                Register::ControlReg.spec_read_address(),
                0u8,
            ] && h[d + 2].received.len() == 2 && h[d + 2].received[1] & 0x07 == 0);
    let d = choose|d: int|
        i < d && d + 3 <= hi1 && (#[trigger] h[d]).sent == seq![
            Register::FIFOLevelReg.spec_read_address(),
            0u8,
        ] && h[d].received.len() == 2 && h[d].received[1] == 3 && h[d + 1].received.len() == 4
            && h[d + 1].received[1] == sak && h[d + 2].sent == seq![
            Register::ControlReg.spec_read_address(),
            0u8,
        ] && h[d + 2].received.len() == 2 && h[d + 2].received[1] & 0x07 == 0;
    assert(lo2 <= i < hi2 <= h.len());
    assert(d + 3 <= hi2);
}

// The lowest-level register accesses, shared by every state.
impl<SPI: Transport, NSS: NssPin, D: DelayHook, S: State> Mfrc522<SPI, NSS, D, S> {
    /// Reads one register: a single 2-byte exchange of the read address
    /// followed by a dummy byte; the second returned byte is the register's
    /// value.
    fn read(&mut self, reg: Register) -> (r: Result<u8, Error<SPI::BusErr>>)
        ensures
            hist_extends(old(self).bus_history(), final(self).bus_history()),
            r matches Ok(v) ==> {
                let h = final(self).bus_history();
                &&& h.len() == old(self).bus_history().len() + 1
                &&& h.last().sent == seq![reg.spec_read_address(), 0u8]
                &&& h.last().received.len() == 2
                &&& v == h.last().received[1]
            },
            r matches Err(e) ==> e is Spi && final(self).bus_history() == old(
                self,
            ).bus_history(),
    {
        let mut buffer: Vec<u8> = Vec::new();
        buffer.push(reg.read_address());
        buffer.push(0);
        proof {
            assert(buffer@ =~= seq![reg.spec_read_address(), 0u8]);
        }
        self.nss_begin();
        let res = self.spi.transfer(&mut buffer);
        self.nss_end();
        match res {
            Ok(_) => Ok(buffer[1]),
            Err(e) => Err(Error::Spi(e)),
        }
    }

    /// Reads `n` bytes from one register: an `(n+1)`-byte exchange of `n`
    /// copies of the read address and one dummy byte; the first returned
    /// byte is discarded and the rest are the register's repeated-access
    /// stream. More than 64 bytes cannot fit one exchange frame.
    fn read_many(&mut self, reg: Register, n: usize) -> (r: Result<Vec<u8>, Error<SPI::BusErr>>)
        ensures
            hist_extends(old(self).bus_history(), final(self).bus_history()),
            (r matches Err(e) && e is NoRoom) <==> n > 64,
            r matches Err(e) ==> (e is Spi || e is NoRoom) && final(self).bus_history() == old(
                self,
            ).bus_history(),
            r matches Ok(v) ==> {
                let h = final(self).bus_history();
                &&& v@.len() == n
                &&& h.len() == old(self).bus_history().len() + 1
                &&& h.last().sent.len() == n + 1
                &&& (forall|i: int|
                    0 <= i < n ==> #[trigger] h.last().sent[i] == reg.spec_read_address())
                &&& h.last().sent[n as int] == 0
                &&& h.last().received.len() == n + 1
                &&& (forall|i: int| 0 <= i < n ==> #[trigger] v@[i] == h.last().received[i + 1])
            },
    {
        if n > 64 {
            return Err(Error::NoRoom);
        }
        let mut buffer: Vec<u8> = Vec::new();
        let addr = reg.read_address();
        let mut i: usize = 0;
        while i < n
            invariant
                i <= n,
                buffer@.len() == i,
                addr == reg.spec_read_address(),
                forall|j: int| 0 <= j < i ==> #[trigger] buffer@[j] == reg.spec_read_address(),
            decreases n - i,
        {
            buffer.push(addr);
            i = i + 1;
        }
        buffer.push(0);
        self.nss_begin();
        let res = self.spi.transfer(&mut buffer);
        self.nss_end();
        match res {
            Ok(_) => {
                let mut out: Vec<u8> = Vec::new();
                let mut k: usize = 0;
                while k < n
                    invariant
                        k <= n,
                        out@.len() == k,
                        buffer@.len() == n + 1,
                        forall|j: int| 0 <= j < k ==> #[trigger] out@[j] == buffer@[j + 1],
                    decreases n - k,
                {
                    out.push(buffer[k + 1]);
                    k = k + 1;
                }
                Ok(out)
            },
            Err(e) => Err(Error::Spi(e)),
        }
    }

    /// Writes one register: a single 2-byte send of the write address and
    /// the value.
    fn write(&mut self, reg: Register, val: u8) -> (r: Result<(), Error<SPI::BusErr>>)
        ensures
            hist_extends(old(self).bus_history(), final(self).bus_history()),
            r is Ok ==> final(self).bus_history().len() == old(self).bus_history().len() + 1
                && final(self).bus_history().last().sent == seq![reg.spec_write_address(), val],
            r matches Err(e) ==> e is Spi && final(self).bus_history() == old(
                self,
            ).bus_history(),
    {
        let mut buffer: Vec<u8> = Vec::new();
        buffer.push(reg.write_address());
        buffer.push(val);
        proof {
            assert(buffer@ =~= seq![reg.spec_write_address(), val]);
        }
        self.nss_begin();
        let res = self.spi.write_bytes(&buffer);
        self.nss_end();
        match res {
            Ok(_) => Ok(()),
            Err(e) => Err(Error::Spi(e)),
        }
    }

    /// Writes the first `len` bytes of `bytes` to one register in a single
    /// send of the write address followed by the data. More than 64 bytes
    /// cannot fit one exchange frame.
    fn write_many(&mut self, reg: Register, bytes: &Vec<u8>, len: usize) -> (r: Result<
        (),
        Error<SPI::BusErr>,
    >)
        requires
            len <= bytes@.len(),
        ensures
            hist_extends(old(self).bus_history(), final(self).bus_history()),
            (r matches Err(e) && e is NoRoom) <==> len > 64,
            r is Ok ==> final(self).bus_history().len() == old(self).bus_history().len() + 1
                && final(self).bus_history().last().sent == seq![reg.spec_write_address()]
                + bytes@.subrange(0, len as int),
            r matches Err(e) ==> (e is Spi || e is NoRoom) && final(self).bus_history() == old(
                self,
            ).bus_history(),
    {
        if len > 64 {
            return Err(Error::NoRoom);
        }
        let mut buffer: Vec<u8> = Vec::new();
        buffer.push(reg.write_address());
        let mut i: usize = 0;
        while i < len
            invariant
                i <= len,
                len <= bytes@.len(),
                buffer@.len() == i + 1,
                buffer@[0] == reg.spec_write_address(),
                forall|j: int| 1 <= j <= i ==> #[trigger] buffer@[j] == bytes@[j - 1],
            decreases len - i,
        {
            buffer.push(bytes[i]);
            i = i + 1;
        }
        proof {
            assert(buffer@ =~= seq![reg.spec_write_address()] + bytes@.subrange(0, len as int));
        }
        self.nss_begin();
        let res = self.spi.write_bytes(&buffer);
        self.nss_end();
        match res {
            Ok(_) => Ok(()),
            Err(e) => Err(Error::Spi(e)),
        }
    }

    /// Reads a register once, clears the given bits in the byte read, and
    /// writes the result back to the same register — exactly one read and
    /// one write; all other bits are written back unchanged.
    fn rmw_clear(&mut self, reg: Register, bits: u8) -> (r: Result<(), Error<SPI::BusErr>>)
        ensures
            hist_extends(old(self).bus_history(), final(self).bus_history()),
            r matches Err(e) ==> e is Spi,
            r is Ok ==> {
                let h = final(self).bus_history();
                let n0 = old(self).bus_history().len() as int;
                &&& h.len() == n0 + 2
                &&& h[n0].sent == seq![reg.spec_read_address(), 0u8]
                &&& h[n0].received.len() == 2
                &&& h[n0 + 1].sent == seq![reg.spec_write_address(), (h[n0].received[1] & !bits)]
            },
    {
        let byte = match self.read(reg) {
            Ok(b) => b,
            Err(e) => return Err(e),
        };
        self.write(reg, byte & !bits)
    }

    /// Reads a register once, sets the given bits in the byte read, and
    /// writes the result back to the same register — exactly one read and
    /// one write; all other bits are written back unchanged.
    fn rmw_set(&mut self, reg: Register, bits: u8) -> (r: Result<(), Error<SPI::BusErr>>)
        ensures
            hist_extends(old(self).bus_history(), final(self).bus_history()),
            r matches Err(e) ==> e is Spi,
            r is Ok ==> {
                let h = final(self).bus_history();
                let n0 = old(self).bus_history().len() as int;
                &&& h.len() == n0 + 2
                &&& h[n0].sent == seq![reg.spec_read_address(), 0u8]
                &&& h[n0].received.len() == 2
                &&& h[n0 + 1].sent == seq![reg.spec_write_address(), (h[n0].received[1] | bits)]
            },
    {
        let byte = match self.read(reg) {
            Ok(b) => b,
            Err(e) => return Err(e),
        };
        self.write(reg, byte | bits)
    }

    /// Requests execution of the given command: one write of its opcode to
    /// the command register.
    fn command(&mut self, command: Command) -> (r: Result<(), Error<SPI::BusErr>>)
        ensures
            hist_extends(old(self).bus_history(), final(self).bus_history()),
            r matches Err(e) ==> e is Spi,
            r is Ok ==> final(self).bus_history().len() == old(self).bus_history().len() + 1
                && final(self).bus_history().last().sent == seq![
                Register::CommandReg.spec_write_address(),
                command.spec_code(),
            ],
    {
        self.write(Register::CommandReg, command.code())
    }

    /// Flushes the reader's FIFO buffer: one write of the flush bit to the
    /// FIFO level register.
    fn fifo_flush(&mut self) -> (r: Result<(), Error<SPI::BusErr>>)
        ensures
            hist_extends(old(self).bus_history(), final(self).bus_history()),
            r matches Err(e) ==> e is Spi,
            r is Ok ==> final(self).bus_history().len() == old(self).bus_history().len() + 1
                && final(self).bus_history().last().sent == seq![
                Register::FIFOLevelReg.spec_write_address(),
                FLUSH_BUFFER,
            ],
    {
        self.write(Register::FIFOLevelReg, FLUSH_BUFFER)
    }

    /// Performs a software reset and busy-polls the command register until
    /// the power-down bit clears. The poll is bounded; a reader that never
    /// comes back up is reported as lost.
    fn reset(&mut self) -> (r: Result<(), Error<SPI::BusErr>>)
        ensures
            hist_extends(old(self).bus_history(), final(self).bus_history()),
            r matches Err(e) ==> e is Spi || e is LostCommunication,
            r is Ok ==> {
                let h = final(self).bus_history();
                let n0 = old(self).bus_history().len() as int;
                &&& h.len() >= n0 + 2
                &&& h[n0].sent == seq![
                    Register::CommandReg.spec_write_address(),
                    Command::SoftReset.spec_code(),
                ]
                &&& h.last().sent == seq![Register::CommandReg.spec_read_address(), 0u8]
                &&& h.last().received.len() == 2
                &&& h.last().received[1] & POWER_DOWN == 0
            },
            // a reader given up on names its evidence: the soft reset went
            // out and every poll read showed the power-down bit still set
            r matches Err(e) ==> (e is LostCommunication ==> {
                let h = final(self).bus_history();
                let n0 = old(self).bus_history().len() as int;
                &&& h.len() >= n0 + 2
                &&& h[n0].sent == seq![
                    Register::CommandReg.spec_write_address(),
                    Command::SoftReset.spec_code(),
                ]
                &&& forall|j: int|
                    n0 + 1 <= j < h.len() ==> (#[trigger] h[j]).sent == seq![
                        Register::CommandReg.spec_read_address(),
                        0u8,
                    ] && h[j].received.len() == 2 && h[j].received[1] & POWER_DOWN != 0
            }),
    {
        let ghost h0 = self.bus_history();
        match self.command(Command::SoftReset) {
            Ok(_) => {},
            Err(e) => return Err(e),
        }
        let ghost h1 = self.bus_history();
        let mut polls: u32 = 0;
        while polls < 5000
            invariant
                polls <= 5000,
                h0 == old(self).bus_history(),
                h1.len() == h0.len() + 1,
                h1.last().sent == seq![
                    Register::CommandReg.spec_write_address(),
                    Command::SoftReset.spec_code(),
                ],
                hist_extends(h0, h1),
                hist_extends(h1, self.bus_history()),
                self.bus_history().len() == h1.len() + polls,
                forall|j: int|
                    h1.len() <= j < self.bus_history().len() ==> (#[trigger] self.bus_history()[
                    j]).sent == seq![Register::CommandReg.spec_read_address(), 0u8] && self
                        .bus_history()[j].received.len() == 2 && self.bus_history()[
                    j].received[1] & POWER_DOWN != 0,
            decreases 5000 - polls,
        {
            let byte = match self.read(Register::CommandReg) {
                Ok(b) => b,
                Err(e) => return Err(e),
            };
            if byte & POWER_DOWN == 0 {
                return Ok(());
            }
            polls = polls + 1;
        }
        Err(Error::LostCommunication)
    }

    /// Reads the shared error register and maps its flags to an error, first
    /// matching flag first (see [`crate::logic::error_flags`]): the result
    /// is exactly the decision over the byte the read returned.
    fn check_error_register(&mut self) -> (r: Result<(), Error<SPI::BusErr>>)
        ensures
            hist_extends(old(self).bus_history(), final(self).bus_history()),
            r matches Err(e) ==> e is Spi || e is Protocol || e is Parity || e is Crc
                || e is Collision || e is BufferOverflow || e is Overheating || e is Wr,
            (r matches Err(e) && e is Spi) ==> final(self).bus_history() == old(
                self,
            ).bus_history(),
            !(r matches Err(e) && e is Spi) ==> {
                let h = final(self).bus_history();
                &&& h.len() == old(self).bus_history().len() + 1
                &&& h.last().sent == seq![Register::ErrorReg.spec_read_address(), 0u8]
                &&& h.last().received.len() == 2
                &&& r == spec_error_flags::<SPI::BusErr>(h.last().received[1])
            },
    {
        let err = match self.read(Register::ErrorReg) {
            Ok(b) => b,
            Err(e) => return Err(e),
        };
        error_flags(err)
    }

    /// Drains the reader's FIFO into a fresh snapshot: reads the fill
    /// level, rejects contents larger than the `cap` bytes the caller
    /// expects, then drains that many bytes and reads the valid-bit count
    /// of the last one. A zero `cap` asks for nothing and touches the bus
    /// not at all.
    fn fifo_data(&mut self, cap: usize) -> (r: Result<FifoData, Error<SPI::BusErr>>)
        requires
            cap <= 64,
        ensures
            hist_extends(old(self).bus_history(), final(self).bus_history()),
            cap == 0 ==> r is Ok && final(self).bus_history() == old(self).bus_history(),
            r matches Err(e) ==> (e is Spi || e is NoRoom) && (e is NoRoom ==> {
                let h = final(self).bus_history();
                &&& h.len() == old(self).bus_history().len() + 1
                &&& h.last().sent == seq![Register::FIFOLevelReg.spec_read_address(), 0u8]
                &&& h.last().received.len() == 2
                &&& h.last().received[1] > cap
            }),
            r matches Ok(f) ==> {
                let h = final(self).bus_history();
                let n0 = old(self).bus_history().len() as int;
                &&& f.wf()
                &&& f.valid_bytes <= cap
                &&& (f.valid_bytes == 0 ==> f.valid_bits == 0)
                &&& (cap == 0 ==> f.valid_bytes == 0)
                &&& (cap > 0 && f.valid_bytes == 0 ==> h.len() == n0 + 1 && h.last().sent
                    == seq![Register::FIFOLevelReg.spec_read_address(), 0u8]
                    && h.last().received.len() == 2 && h.last().received[1] == 0)
                &&& (f.valid_bytes > 0 ==> {
                    &&& h.len() == n0 + 3
                    &&& h[n0].sent == seq![Register::FIFOLevelReg.spec_read_address(), 0u8]
                    &&& h[n0].received.len() == 2
                    &&& h[n0].received[1] as int == f.valid_bytes
                    &&& h[n0 + 1].sent.len() == f.valid_bytes + 1
                    &&& (forall|i: int|
                        0 <= i < f.valid_bytes ==> #[trigger] h[n0 + 1].sent[i]
                            == Register::FIFODataReg.spec_read_address())
                    &&& h[n0 + 1].sent[f.valid_bytes as int] == 0
                    &&& h[n0 + 1].received.len() == f.valid_bytes + 1
                    &&& (forall|i: int|
                        0 <= i < f.valid_bytes ==> #[trigger] f.buffer@[i] == h[n0
                            + 1].received[i + 1])
                    &&& h[n0 + 2].sent == seq![Register::ControlReg.spec_read_address(), 0u8]
                    &&& h[n0 + 2].received.len() == 2
                    &&& f.valid_bits == h[n0 + 2].received[1] & 0x07
                })
            },
    {
        if cap == 0 {
            return Ok(FifoData::new(Vec::new(), 0));
        }
        let level = match self.read(Register::FIFOLevelReg) {
            Ok(b) => b,
            Err(e) => return Err(e),
        };
        let valid_bytes = level as usize;
        if valid_bytes > cap {
            return Err(Error::NoRoom);
        }
        if valid_bytes == 0 {
            return Ok(FifoData::new(Vec::new(), 0));
        }
        let buffer = match self.read_many(Register::FIFODataReg, valid_bytes) {
            Ok(v) => v,
            Err(e) => return Err(e),
        };
        let ctrl = match self.read(Register::ControlReg) {
            Ok(b) => b,
            Err(e) => return Err(e),
        };
        proof {
            assert(ctrl & 0x07 <= 7) by (bit_vector);
        }
        let bits = (ctrl & 0x07) as usize;
        Ok(FifoData::new(buffer, bits))
    }

    /// One request/response exchange: idles the reader, clears the
    /// interrupt flags, flushes the FIFO, loads the first `tx_len` bytes of
    /// `tx`, starts transmission declaring that only the low `tx_last_bits`
    /// bits of the final byte are significant (0 meaning all 8) and that the
    /// first received bit is to be stored at bit offset `rx_align_bits`,
    /// then polls until receive, idle or error, and drains the FIFO.
    ///
    /// A hardware timer expiry is a timeout; ten polls that read an entirely
    /// empty interrupt register mean the reader itself stopped answering,
    /// reported as lost communication (distinct from a timeout), as is
    /// exhaustion of the overall poll budget that bounds the wait against a
    /// reader forever reporting only unrelated flags.
    fn transceive(
        &mut self,
        tx: &Vec<u8>,
        tx_len: usize,
        tx_last_bits: u8,
        rx_align_bits: u8,
        rx_cap: usize,
    ) -> (r: Result<FifoData, Error<SPI::BusErr>>)
        requires
            tx_len <= tx@.len(),
            tx_len <= 64,
            rx_cap <= 64,
        ensures
            hist_extends(old(self).bus_history(), final(self).bus_history()),
            r matches Err(e) ==> !(e is Proprietary) && !(e is Nak),
            // unless the bus itself failed, the exchange's six sends went
            // out, in order, carrying exactly the given payload and framing
            !(r matches Err(e) && e is Spi) ==> transceive_sends(
                final(self).bus_history(),
                old(self).bus_history().len() as int,
                tx@.subrange(0, tx_len as int),
                framing_byte(tx_last_bits, rx_align_bits),
            ),
            // on success, completion was checked against a clean error
            // register and the snapshot is exactly what the drain returned
            r matches Ok(f) ==> {
                let h = final(self).bus_history();
                let m = h.len() as int;
                &&& f.wf()
                &&& f.valid_bytes <= rx_cap
                &&& m >= old(self).bus_history().len() + 8
                &&& (rx_cap == 0 ==> f.valid_bytes == 0 && h.last().sent == seq![
                    Register::ErrorReg.spec_read_address(),
                    0u8,
                ] && h.last().received.len() == 2 && spec_error_flags::<SPI::BusErr>(
                    h.last().received[1],
                ) is Ok)
                &&& (f.valid_bytes == 0 ==> f.valid_bits == 0)
                &&& (rx_cap > 0 && f.valid_bytes == 0 ==> m >= 2 && h[m - 2].sent == seq![
                    Register::ErrorReg.spec_read_address(),
                    0u8,
                ] && h[m - 2].received.len() == 2 && spec_error_flags::<SPI::BusErr>(
                    h[m - 2].received[1],
                ) is Ok && h[m - 1].sent == seq![
                    Register::FIFOLevelReg.spec_read_address(),
                    0u8,
                ] && h[m - 1].received.len() == 2 && h[m - 1].received[1] == 0)
                &&& (f.valid_bytes > 0 ==> m >= old(self).bus_history().len() + 11 && h[m
                    - 4].sent == seq![
                    Register::ErrorReg.spec_read_address(),
                    0u8,
                ] && h[m - 4].received.len() == 2 && spec_error_flags::<SPI::BusErr>(
                    h[m - 4].received[1],
                ) is Ok && h[m - 3].sent == seq![
                    Register::FIFOLevelReg.spec_read_address(),
                    0u8,
                ] && h[m - 3].received.len() == 2 && h[m - 3].received[1] as int == f.valid_bytes
                    && h[m - 2].sent.len() == f.valid_bytes + 1 && (forall|i: int|
                    0 <= i < f.valid_bytes ==> #[trigger] h[m - 2].sent[i]
                        == Register::FIFODataReg.spec_read_address()) && h[m - 2].sent[
                    f.valid_bytes as int] == 0 && h[m - 2].received.len() == f.valid_bytes + 1
                    && (forall|i: int|
                    0 <= i < f.valid_bytes ==> #[trigger] f.buffer@[i] == h[m - 2].received[i
                        + 1]) && h[m - 1].sent == seq![
                    Register::ControlReg.spec_read_address(),
                    0u8,
                ] && h[m - 1].received.len() == 2 && f.valid_bits == h[m - 1].received[1] & 0x07)
            },
            // every failure that is not the bus's own names its evidence:
            // the closing exchange that decided it
            r matches Err(e) ==> (e is Timeout ==> poll_evidence(final(self).bus_history(), true)),
            r matches Err(e) ==> (e is LostCommunication ==> poll_evidence(
                final(self).bus_history(),
                false,
            )),
            r matches Err(e) ==> ((e is Protocol || e is Parity || e is Crc || e is Collision
                || e is BufferOverflow || e is Overheating || e is Wr) ==> flag_evidence::<
                SPI::BusErr,
            >(final(self).bus_history(), e)),
    {
        match self.command(Command::Idle) {
            Ok(_) => {},
            Err(e) => return Err(e),
        }
        // clear all interrupt flags
        match self.write(Register::ComIrqReg, 0x7f) {
            Ok(_) => {},
            Err(e) => return Err(e),
        }
        match self.fifo_flush() {
            Ok(_) => {},
            Err(e) => return Err(e),
        }
        match self.write_many(Register::FIFODataReg, tx, tx_len) {
            Ok(_) => {},
            Err(e) => return Err(e),
        }
        match self.command(Command::Transceive) {
            Ok(_) => {},
            Err(e) => return Err(e),
        }
        // configure the bit framing and start the transmission
        let framing: u8 = (1u8 << 7) | ((rx_align_bits & 0b0111) << 4) | (tx_last_bits & 0b0111);
        match self.write(Register::BitFramingReg, framing) {
            Ok(_) => {},
            Err(e) => return Err(e),
        }
        let ghost n0 = old(self).bus_history().len() as int;
        let ghost payload = tx@.subrange(0, tx_len as int);
        let ghost h6 = self.bus_history();
        proof {
            assert(transceive_sends(h6, n0, payload, framing_byte(tx_last_bits, rx_align_bits)));
        }
        let mut empty_polls: u8 = 0;
        let mut total_polls: u16 = 0;
        loop
            invariant_except_break
                total_polls > 0 ==> ({
                    let h = self.bus_history();
                    &&& h.len() >= 1
                    &&& h.last().sent == seq![Register::ComIrqReg.spec_read_address(), 0u8]
                    &&& h.last().received.len() == 2
                    &&& h.last().received[1] & (RX_IRQ | ERR_IRQ | IDLE_IRQ) == 0
                    &&& h.last().received[1] & TIMER_IRQ == 0
                }),
            invariant
                empty_polls <= 11,
                total_polls <= 5000,
                n0 == old(self).bus_history().len() as int,
                payload == tx@.subrange(0, tx_len as int),
                hist_extends(old(self).bus_history(), h6),
                hist_extends(h6, self.bus_history()),
                transceive_sends(h6, n0, payload, framing_byte(tx_last_bits, rx_align_bits)),
            ensures
                hist_extends(old(self).bus_history(), h6),
                hist_extends(h6, self.bus_history()),
                self.bus_history().len() >= h6.len() + 1,
                transceive_sends(
                    self.bus_history(),
                    n0,
                    payload,
                    framing_byte(tx_last_bits, rx_align_bits),
                ),
            decreases 5000 - total_polls,
        {
            if total_polls >= 5000 {
                return Err(Error::LostCommunication);
            }
            let irq = match self.read(Register::ComIrqReg) {
                Ok(b) => b,
                Err(e) => return Err(e),
            };
            match classify_transceive_poll(irq, empty_polls) {
                PollVerdict::Complete => {
                    break;
                },
                PollVerdict::CardTimeout => {
                    return Err(Error::Timeout);
                },
                PollVerdict::ReaderLost => {
                    return Err(Error::LostCommunication);
                },
                PollVerdict::Again => {},
            }
            if irq == 0 {
                empty_polls = empty_polls + 1;
            }
            total_polls = total_polls + 1;
        }
        match self.check_error_register() {
            Ok(_) => {},
            Err(e) => return Err(e),
        }
        self.fifo_data(rx_cap)
    }

    /// Drives the reader's CRC_A coprocessor over the first `len` bytes of
    /// `data`: idles the reader, clears the CRC-done flag, flushes and loads
    /// the FIFO, starts the calculation, busy-polls (bounded by iteration
    /// count, not wall-clock time) for completion, and reads the 2-byte
    /// result, low byte first — the reader's native byte order.
    fn calculate_crc(&mut self, data: &Vec<u8>, len: usize) -> (r: Result<
        [u8; 2],
        Error<SPI::BusErr>,
    >)
        requires
            len <= data@.len(),
            len <= 64,
        ensures
            hist_extends(old(self).bus_history(), final(self).bus_history()),
            r matches Err(e) ==> e is Spi || e is Timeout,
            // unless the bus itself failed, the coprocessor was started
            // over exactly the given bytes
            !(r matches Err(e) && e is Spi) ==> crc_sends(
                final(self).bus_history(),
                old(self).bus_history().len() as int,
                data@.subrange(0, len as int),
            ),
            // a timeout names its evidence: the poll budget ran out with
            // the CRC-done flag never seen
            r matches Err(e) ==> (e is Timeout ==> crc_timeout_evidence(
                final(self).bus_history(),
            )),
            // on success the result is the 2-byte register pair read back,
            // low byte first
            r matches Ok(c) ==> {
                let h = final(self).bus_history();
                let m = h.len() as int;
                &&& m >= old(self).bus_history().len() + 9
                &&& h[m - 3].sent == seq![
                    Register::CommandReg.spec_write_address(),
                    Command::Idle.spec_code(),
                ]
                &&& h[m - 2].sent == seq![Register::CRCResultRegLow.spec_read_address(), 0u8]
                &&& h[m - 2].received.len() == 2
                &&& c@[0] == h[m - 2].received[1]
                &&& h[m - 1].sent == seq![Register::CRCResultRegHigh.spec_read_address(), 0u8]
                &&& h[m - 1].received.len() == 2
                &&& c@[1] == h[m - 1].received[1]
            },
    {
        match self.command(Command::Idle) {
            Ok(_) => {},
            Err(e) => return Err(e),
        }
        // clear the CRC-done interrupt flag
        match self.write(Register::DivIrqReg, CRC_IRQ) {
            Ok(_) => {},
            Err(e) => return Err(e),
        }
        match self.fifo_flush() {
            Ok(_) => {},
            Err(e) => return Err(e),
        }
        match self.write_many(Register::FIFODataReg, data, len) {
            Ok(_) => {},
            Err(e) => return Err(e),
        }
        match self.command(Command::CalcCRC) {
            Ok(_) => {},
            Err(e) => return Err(e),
        }
        let ghost n0 = old(self).bus_history().len() as int;
        let ghost payload = data@.subrange(0, len as int);
        let ghost h5 = self.bus_history();
        proof {
            assert(crc_sends(h5, n0, payload));
        }
        let mut polls: u16 = 0;
        while polls < 5000
            invariant
                polls <= 5000,
                n0 == old(self).bus_history().len() as int,
                payload == data@.subrange(0, len as int),
                hist_extends(old(self).bus_history(), h5),
                hist_extends(h5, self.bus_history()),
                crc_sends(h5, n0, payload),
                polls > 0 ==> ({
                    let h = self.bus_history();
                    &&& h.len() >= 1
                    &&& h.last().sent == seq![Register::DivIrqReg.spec_read_address(), 0u8]
                    &&& h.last().received.len() == 2
                    &&& h.last().received[1] & CRC_IRQ == 0
                }),
            decreases 5000 - polls,
        {
            let irq = match self.read(Register::DivIrqReg) {
                Ok(b) => b,
                Err(e) => return Err(e),
            };
            if irq & CRC_IRQ != 0 {
                match self.command(Command::Idle) {
                    Ok(_) => {},
                    Err(e) => return Err(e),
                }
                let lo = match self.read(Register::CRCResultRegLow) {
                    Ok(b) => b,
                    Err(e) => return Err(e),
                };
                let hi = match self.read(Register::CRCResultRegHigh) {
                    Ok(b) => b,
                    Err(e) => return Err(e),
                };
                return Ok([lo, hi]);
            }
            polls = polls + 1;
        }
        Err(Error::Timeout)
    }
}

// The driver transitions to the `Initialized` state through this function.
impl<SPI: Transport, NSS: NssPin, D: DelayHook> Mfrc522<SPI, NSS, D, Uninitialized> {
    /// Initializes the reader: soft reset, default Tx/Rx modes and
    /// modulation width, timer configuration for a fixed timeout window,
    /// forced 100% ASK modulation, the standard CRC preset, and antenna
    /// enable. Any transport error aborts the sequence; the typestate
    /// transition happens only on full success, so no partially initialized
    /// handle ever exists.
    pub fn init(self) -> (r: Result<Mfrc522<SPI, NSS, D, Initialized>, Error<SPI::BusErr>>)
        ensures
            r matches Err(e) ==> e is Spi || e is LostCommunication,
            // on success the whole power-up sequence ran: the soft reset
            // first, then — once the power-down bit cleared — the nine
            // configuration writes and the antenna-enable read-modify-write,
            // in order, as the final eleven exchanges
            r matches Ok(d) ==> {
                let h = d.bus_history();
                let n0 = self.bus_history().len() as int;
                let m = h.len() as int;
                &&& hist_extends(self.bus_history(), h)
                &&& m >= n0 + 13
                &&& h[n0].sent == seq![
                    Register::CommandReg.spec_write_address(),
                    Command::SoftReset.spec_code(),
                ]
                &&& h[m - 11].sent == seq![Register::TxModeReg.spec_write_address(), 0x00u8]
                &&& h[m - 10].sent == seq![Register::RxModeReg.spec_write_address(), 0x00u8]
                &&& h[m - 9].sent == seq![Register::ModWidthReg.spec_write_address(), 0x26u8]
                &&& h[m - 8].sent == seq![Register::TModeReg.spec_write_address(), 0x80u8]
                &&& h[m - 7].sent == seq![Register::TPrescalerReg.spec_write_address(), 0xA9u8]
                &&& h[m - 6].sent == seq![Register::TReloadRegHigh.spec_write_address(), 0x03u8]
                &&& h[m - 5].sent == seq![Register::TReloadRegLow.spec_write_address(), 0xE8u8]
                &&& h[m - 4].sent == seq![
                    Register::TxASKReg.spec_write_address(),
                    crate::register::FORCE_100_ASK,
                ]
                &&& h[m - 3].sent == seq![Register::ModeReg.spec_write_address(), 0x3Du8]
                &&& h[m - 2].sent == seq![Register::TxControlReg.spec_read_address(), 0u8]
                &&& h[m - 2].received.len() == 2
                &&& h[m - 1].sent == seq![
                    Register::TxControlReg.spec_write_address(),
                    (h[m - 2].received[1] | 0b11),
                ]
            },
    {
        let mut this = self;
        match this.reset() {
            Ok(_) => {},
            Err(e) => return Err(e),
        }
        match this.write(Register::TxModeReg, 0x00) {
            Ok(_) => {},
            Err(e) => return Err(e),
        }
        match this.write(Register::RxModeReg, 0x00) {
            Ok(_) => {},
            Err(e) => return Err(e),
        }
        // reset the modulation width to its default value
        match this.write(Register::ModWidthReg, 0x26) {
            Ok(_) => {},
            Err(e) => return Err(e),
        }
        // Configure the timer, so a card that never answers produces a
        // timeout:
        // - start the timer automatically at the end of the transmission
        match this.write(Register::TModeReg, 0x80) {
            Ok(_) => {},
            Err(e) => return Err(e),
        }
        // - prescaler for a 40 kHz timer tick (25 us period) from the
        //   nominal 13.56 MHz source
        match this.write(Register::TPrescalerReg, 0xA9) {
            Ok(_) => {},
            Err(e) => return Err(e),
        }
        // - reload value 1000 for a 25 ms timeout window
        match this.write(Register::TReloadRegHigh, 0x03) {
            Ok(_) => {},
            Err(e) => return Err(e),
        }
        match this.write(Register::TReloadRegLow, 0xE8) {
            Ok(_) => {},
            Err(e) => return Err(e),
        }
        // force 100% ASK modulation
        match this.write(Register::TxASKReg, crate::register::FORCE_100_ASK) {
            Ok(_) => {},
            Err(e) => return Err(e),
        }
        // preset value of the CRC coprocessor: 0x6363 per the standard
        match this.write(Register::ModeReg, 0x3D) {
            Ok(_) => {},
            Err(e) => return Err(e),
        }
        // enable the antenna
        match this.rmw_set(Register::TxControlReg, 0b11) {
            Ok(_) => {},
            Err(e) => return Err(e),
        }
        Ok(
            Mfrc522 {
                spi: this.spi,
                nss: this.nss,
                delay: this.delay,
                state: core::marker::PhantomData,
            },
        )
    }
}

// The protocol operations exist only after initialization.
impl<SPI: Transport, NSS: NssPin, D: DelayHook> Mfrc522<SPI, NSS, D, Initialized> {
    /// Sends a REQuest type A to nearby cards (a short frame of 7 bits) and
    /// decodes the answer: success if and only if the response held exactly
    /// 2 valid bytes and no leftover bits (see [`crate::logic::decode_atqa`]).
    pub fn reqa(&mut self) -> (r: Result<AtqA, Error<SPI::BusErr>>)
        ensures
            hist_extends(old(self).bus_history(), final(self).bus_history()),
            r matches Err(e) ==> !(e is Proprietary) && !(e is Nak),
            // unless the bus itself failed, the one-byte request frame went
            // out as a short frame of 7 significant bits
            !(r matches Err(e) && e is Spi) ==> transceive_sends(
                final(self).bus_history(),
                old(self).bus_history().len() as int,
                seq![picc::REQA],
                framing_byte(7, 0),
            ),
            // the answer handed back is exactly the 2-byte frame drained
            // from the FIFO in the final exchanges
            r matches Ok(a) ==> ({
                let h = final(self).bus_history();
                let m = h.len() as int;
                &&& m >= 4
                &&& h[m - 3].sent == seq![Register::FIFOLevelReg.spec_read_address(), 0u8]
                &&& h[m - 2].sent.len() == 3
                &&& h[m - 2].sent[0] == Register::FIFODataReg.spec_read_address()
                &&& h[m - 2].sent[1] == Register::FIFODataReg.spec_read_address()
                &&& h[m - 2].sent[2] == 0
                &&& h[m - 2].received.len() == 3
                &&& a.bytes@[0] == h[m - 2].received[1]
                &&& a.bytes@[1] == h[m - 2].received[2]
                &&& h[m - 1].sent == seq![Register::ControlReg.spec_read_address(), 0u8]
            }),
    {
        let mut tx: Vec<u8> = Vec::new();
        tx.push(picc::REQA);
        proof {
            assert(tx@.subrange(0, 1) =~= seq![picc::REQA]);
        }
        let fifo = match self.transceive(&tx, 1, 7, 0, 2) {
            Ok(f) => f,
            Err(e) => return Err(e),
        };
        decode_atqa(&fifo)
    }

    /// Sends a Wake UP type A to nearby cards (a short frame of 7 bits) and
    /// decodes the answer exactly as [`Mfrc522::reqa`] does.
    pub fn wupa(&mut self) -> (r: Result<AtqA, Error<SPI::BusErr>>)
        ensures
            hist_extends(old(self).bus_history(), final(self).bus_history()),
            r matches Err(e) ==> !(e is Proprietary) && !(e is Nak),
            !(r matches Err(e) && e is Spi) ==> transceive_sends(
                final(self).bus_history(),
                old(self).bus_history().len() as int,
                seq![picc::WUPA],
                framing_byte(7, 0),
            ),
            // the answer handed back is exactly the 2-byte frame drained
            // from the FIFO in the final exchanges
            r matches Ok(a) ==> ({
                let h = final(self).bus_history();
                let m = h.len() as int;
                &&& m >= 4
                &&& h[m - 3].sent == seq![Register::FIFOLevelReg.spec_read_address(), 0u8]
                &&& h[m - 2].sent.len() == 3
                &&& h[m - 2].sent[0] == Register::FIFODataReg.spec_read_address()
                &&& h[m - 2].sent[1] == Register::FIFODataReg.spec_read_address()
                &&& h[m - 2].sent[2] == 0
                &&& h[m - 2].received.len() == 3
                &&& a.bytes@[0] == h[m - 2].received[1]
                &&& a.bytes@[1] == h[m - 2].received[2]
                &&& h[m - 1].sent == seq![Register::ControlReg.spec_read_address(), 0u8]
            }),
    {
        let mut tx: Vec<u8> = Vec::new();
        tx.push(picc::WUPA);
        proof {
            assert(tx@.subrange(0, 1) =~= seq![picc::WUPA]);
        }
        let fifo = match self.transceive(&tx, 1, 7, 0, 2) {
            Ok(f) => f,
            Err(e) => return Err(e),
        };
        decode_atqa(&fifo)
    }

    /// Sends the command to enter the HALT state. The card acknowledges by
    /// staying silent, so only a receive timeout is success; an answer
    /// within the guard window is a negative acknowledge and every other
    /// error passes through (see [`crate::logic::halt_outcome`]).
    pub fn hlta(&mut self) -> (r: Result<(), Error<SPI::BusErr>>)
        ensures
            hist_extends(old(self).bus_history(), final(self).bus_history()),
            r matches Err(e) ==> !(e is Proprietary),
            // unless the bus itself failed, the check value for the halt
            // command was computed over exactly its two bytes
            !(r matches Err(e) && e is Spi) ==> crc_sends(
                final(self).bus_history(),
                old(self).bus_history().len() as int,
                seq![picc::HLTA, 0u8],
            ),
            // success (the card stayed silent) or a negative acknowledge
            // both mean the 4-byte halt frame was loaded and transmitted
            (r is Ok || (r matches Err(e) && e is Nak)) ==> ({
                let h = final(self).bus_history();
                exists|i: int|
                    old(self).bus_history().len() <= i < h.len() && (#[trigger] h[i]).sent.len()
                        == 5 && h[i].sent[0] == Register::FIFODataReg.spec_write_address()
                        && h[i].sent[1] == picc::HLTA && h[i].sent[2] == 0
            }),
    {
        let mut buffer: Vec<u8> = Vec::new();
        buffer.push(picc::HLTA);
        buffer.push(0);
        proof {
            assert(buffer@.subrange(0, 2) =~= seq![picc::HLTA, 0u8]);
        }
        let crc = match self.calculate_crc(&buffer, 2) {
            Ok(c) => c,
            Err(e) => return Err(e),
        };
        buffer.push(crc[0]);
        buffer.push(crc[1]);
        let ghost mid = self.bus_history().len() as int;
        let t = self.transceive(&buffer, 4, 0, 0, 0);
        proof {
            let tt = t;
            if !(tt matches Err(e) && e is Spi) {
                assert(buffer@.subrange(0, 4) =~= seq![picc::HLTA, 0u8, crc[0], crc[1]]);
                assert(final(self).bus_history()[mid + 3].sent
                    == seq![Register::FIFODataReg.spec_write_address()] + buffer@.subrange(
                    0,
                    4,
                ));
            }
        }
        halt_outcome(t)
    }

    /// Switches off the MIFARE Crypto1 unit. Must be done after
    /// communication with an authenticated card, before anticollision can
    /// run again.
    pub fn stop_crypto1(&mut self) -> (r: Result<(), Error<SPI::BusErr>>)
        ensures
            hist_extends(old(self).bus_history(), final(self).bus_history()),
            r matches Err(e) ==> e is Spi,
            // one read of the status register, one write back with only
            // the crypto-active bit cleared
            r is Ok ==> {
                let h = final(self).bus_history();
                let n0 = old(self).bus_history().len() as int;
                &&& h.len() == n0 + 2
                &&& h[n0].sent == seq![Register::Status2Reg.spec_read_address(), 0u8]
                &&& h[n0].received.len() == 2
                &&& h[n0 + 1].sent == seq![
                    Register::Status2Reg.spec_write_address(),
                    (h[n0].received[1] & !0x08),
                ]
            },
    {
        self.rmw_clear(Register::Status2Reg, 0x08)
    }

    /// Returns the version reported by the reader.
    pub fn version(&mut self) -> (r: Result<u8, Error<SPI::BusErr>>)
        ensures
            hist_extends(old(self).bus_history(), final(self).bus_history()),
            r matches Err(e) ==> e is Spi,
            // a single register read, nothing else: the result is the byte
            // the reader streamed back
            r matches Ok(v) ==> {
                let h = final(self).bus_history();
                &&& h.len() == old(self).bus_history().len() + 1
                &&& h.last().sent == seq![Register::VersionReg.spec_read_address(), 0u8]
                &&& h.last().received.len() == 2
                &&& v == h.last().received[1]
            },
    {
        self.read(Register::VersionReg)
    }

    /// Reconfigures the Tx/Rx modes and the modulation width, then probes
    /// for a card with [`Mfrc522::reqa`].
    pub fn new_card_present(&mut self) -> (r: Result<AtqA, Error<SPI::BusErr>>)
        ensures
            hist_extends(old(self).bus_history(), final(self).bus_history()),
            r matches Err(e) ==> !(e is Proprietary) && !(e is Nak),
            // unless the bus itself failed past them, the three
            // configuration writes lead, then the probe goes out exactly
            // as a request does
            !(r matches Err(e) && e is Spi) ==> {
                let h = final(self).bus_history();
                let n0 = old(self).bus_history().len() as int;
                &&& h[n0].sent == seq![Register::TxModeReg.spec_write_address(), 0x00u8]
                &&& h[n0 + 1].sent == seq![Register::RxModeReg.spec_write_address(), 0x00u8]
                &&& h[n0 + 2].sent == seq![Register::ModWidthReg.spec_write_address(), 0x26u8]
                &&& transceive_sends(h, n0 + 3, seq![picc::REQA], framing_byte(7, 0))
            },
            // the answer handed back is exactly the 2-byte frame drained
            // from the FIFO in the final exchanges
            r matches Ok(a) ==> ({
                let h = final(self).bus_history();
                let m = h.len() as int;
                &&& m >= 4
                &&& h[m - 3].sent == seq![Register::FIFOLevelReg.spec_read_address(), 0u8]
                &&& h[m - 2].sent.len() == 3
                &&& h[m - 2].sent[0] == Register::FIFODataReg.spec_read_address()
                &&& h[m - 2].sent[1] == Register::FIFODataReg.spec_read_address()
                &&& h[m - 2].sent[2] == 0
                &&& h[m - 2].received.len() == 3
                &&& a.bytes@[0] == h[m - 2].received[1]
                &&& a.bytes@[1] == h[m - 2].received[2]
                &&& h[m - 1].sent == seq![Register::ControlReg.spec_read_address(), 0u8]
            }),
    {
        match self.write(Register::TxModeReg, 0x00) {
            Ok(_) => {},
            Err(e) => return Err(e),
        }
        match self.write(Register::RxModeReg, 0x00) {
            Ok(_) => {},
            Err(e) => return Err(e),
        }
        match self.write(Register::ModWidthReg, 0x26) {
            Ok(_) => {},
            Err(e) => return Err(e),
        }
        self.reqa()
    }

    /// Selects a card in the READY state and resolves its UID across up to
    /// three cascade levels.
    ///
    /// An ATQA whose first byte does not have exactly one of its low 5 bits
    /// set announces a proprietary anticollision scheme: it is rejected
    /// before anything is put on the bus, and a standard ATQA can never
    /// produce that rejection. Each cascade level runs bit-level
    /// anticollision rounds that must strictly extend the known UID prefix
    /// (see [`crate::logic::collision_next`]), then confirms the level with
    /// a full select frame whose 3-byte answer carries the SAK and its
    /// check value. The number of completed cascade levels determines the
    /// UID variant: 4, 7 or 10 bytes.
    pub fn select(&mut self, atqa: &AtqA) -> (r: Result<Uid, Error<SPI::BusErr>>)
        ensures
            !atqa_standard(atqa.bytes@[0]) ==> (r matches Err(e) && e is Proprietary),
            !atqa_standard(atqa.bytes@[0]) ==> final(self).bus_transactions() == old(
                self,
            ).bus_transactions(),
            atqa_standard(atqa.bytes@[0]) ==> !(r matches Err(e) && e is Proprietary),
            // selection never manufactures a negative acknowledge
            r matches Err(e) ==> !(e is Nak),
            hist_extends(old(self).bus_history(), final(self).bus_history()),
            r matches Ok(u) ==> u.spec_bytes().len() == 4 || u.spec_bytes().len() == 7
                || u.spec_bytes().len() == 10,
            // the terminal SAK always reports a complete cascade
            r matches Ok(u) ==> u.spec_sak().byte & 0x04 == 0,
            // every returned byte and the terminal SAK were confirmed on
            // the bus, level by level: each completed level's full select
            // frame went out carrying exactly these bytes, the level's
            // 3-byte answer carried its SAK, non-final levels answered with
            // the cascade bit set and their leading cascade tag is dropped
            r matches Ok(u) ==> ({
                let h = final(self).bus_history();
                let n0 = old(self).bus_history().len() as int;
                let m = h.len() as int;
                let b = u.spec_bytes();
                &&& (u is Single ==> level_confirmed(
                    h,
                    n0,
                    m,
                    picc::SEL_CL1,
                    b[0],
                    b[1],
                    b[2],
                    b[3],
                    u.spec_sak().byte,
                ))
                &&& (u is Double ==> exists|t: u8, s1: u8, k: int|
                    #![trigger level_confirmed(h, n0, k, picc::SEL_CL1, t, b[0], b[1], b[2], s1)]
                    n0 <= k <= m && level_confirmed(h, n0, k, picc::SEL_CL1, t, b[0], b[1], b[2], s1)
                        && s1 & 0x04 != 0 && level_confirmed(
                        h,
                        k,
                        m,
                        picc::SEL_CL2,
                        b[3],
                        b[4],
                        b[5],
                        b[6],
                        u.spec_sak().byte,
                    ))
                &&& (u is Triple ==> exists|t1: u8, s1: u8, t2: u8, s2: u8, k1: int, k2: int|
                    #![trigger level_confirmed(h, n0, k1, picc::SEL_CL1, t1, b[0], b[1], b[2], s1), level_confirmed(h, k1, k2, picc::SEL_CL2, t2, b[3], b[4], b[5], s2)]
                    n0 <= k1 <= k2 <= m && level_confirmed(
                        h,
                        n0,
                        k1,
                        picc::SEL_CL1,
                        t1,
                        b[0],
                        b[1],
                        b[2],
                        s1,
                    ) && s1 & 0x04 != 0 && level_confirmed(
                        h,
                        k1,
                        k2,
                        picc::SEL_CL2,
                        t2,
                        b[3],
                        b[4],
                        b[5],
                        s2,
                    ) && s2 & 0x04 != 0 && level_confirmed(
                        h,
                        k2,
                        m,
                        picc::SEL_CL3,
                        b[6],
                        b[7],
                        b[8],
                        b[9],
                        u.spec_sak().byte,
                    ))
            }),
            // failures name their evidence: the closing exchange decided
            // them, so no error is remapped into another
            r matches Err(e) ==> (e is Timeout ==> poll_evidence(final(self).bus_history(), true)
                || crc_timeout_evidence(final(self).bus_history())),
            r matches Err(e) ==> (e is LostCommunication ==> poll_evidence(
                final(self).bus_history(),
                false,
            )),
            r matches Err(e) ==> ((e is Parity || e is BufferOverflow || e is Overheating
                || e is Wr) ==> flag_evidence::<SPI::BusErr>(final(self).bus_history(), e)),
            r matches Err(e) ==> (e is Collision ==> flag_evidence::<SPI::BusErr>(
                final(self).bus_history(),
                e,
            ) || collision_read_evidence(final(self).bus_history())),
            r matches Err(e) ==> (e is Crc ==> flag_evidence::<SPI::BusErr>(
                final(self).bus_history(),
                e,
            ) || (final(self).bus_history().len() >= 1 && final(self).bus_history().last().sent
                == seq![Register::CRCResultRegHigh.spec_read_address(), 0u8])),
            // a protocol failure is the reader's flag, or a third cascade
            // level whose confirmed answer still claimed an incomplete
            // cascade — the standard forbids that, and the driver refuses
            // to wrap around
            r matches Err(e) ==> (e is Protocol ==> flag_evidence::<SPI::BusErr>(
                final(self).bus_history(),
                e,
            ) || ({
                let h = final(self).bus_history();
                exists|c0: u8, c1: u8, c2: u8, c3: u8, sk: u8|
                    #![trigger level_confirmed(h, old(self).bus_history().len() as int, h.len() as int, picc::SEL_CL3, c0, c1, c2, c3, sk)]
                    level_confirmed(
                        h,
                        old(self).bus_history().len() as int,
                        h.len() as int,
                        picc::SEL_CL3,
                        c0,
                        c1,
                        c2,
                        c3,
                        sk,
                    ) && sk & 0x04 != 0
            })),
    {
        // check for proprietary anticollision
        if !check_atqa_standard(atqa.bytes[0]) {
            return Err(Error::Proprietary);
        }
        // clear the values-after-collision flag once, before the first level
        match self.rmw_clear(Register::CollReg, 0x80) {
            Ok(_) => {},
            Err(e) => return Err(e),
        }
        let ghost c1lo = self.bus_history().len() as int;
        let (f1, sak1) = match self.cascade_round(picc::SEL_CL1) {
            Ok(x) => x,
            Err(e) => return Err(e),
        };
        let ghost hh1 = self.bus_history();
        if sak1.is_complete() {
            let u = Uid::Single(GenericUid { bytes: [f1[0], f1[1], f1[2], f1[3]], sak: sak1 });
            proof {
                let h = final(self).bus_history();
                let n0 = old(self).bus_history().len() as int;
                lemma_level_confirmed_widen(
                    h,
                    c1lo,
                    n0,
                    h.len() as int,
                    h.len() as int,
                    picc::SEL_CL1,
                    f1@[0],
                    f1@[1],
                    f1@[2],
                    f1@[3],
                    sak1.byte,
                );
                assert(u.spec_bytes()[0] == f1@[0] && u.spec_bytes()[1] == f1@[1]
                    && u.spec_bytes()[2] == f1@[2] && u.spec_bytes()[3] == f1@[3]);
                assert(level_confirmed(
                    h,
                    n0,
                    h.len() as int,
                    picc::SEL_CL1,
                    u.spec_bytes()[0],
                    u.spec_bytes()[1],
                    u.spec_bytes()[2],
                    u.spec_bytes()[3],
                    u.spec_sak().byte,
                ));
            }
            return Ok(u);
        }
        // the cascade tag leads the level; only the 3 bytes after it belong
        // to the UID
        let ghost k1 = self.bus_history().len() as int;
        let (f2, sak2) = match self.cascade_round(picc::SEL_CL2) {
            Ok(x) => x,
            Err(e) => return Err(e),
        };
        let ghost hh2 = self.bus_history();
        if sak2.is_complete() {
            let u = Uid::Double(
                GenericUid { bytes: [f1[1], f1[2], f1[3], f2[0], f2[1], f2[2], f2[3]], sak: sak2 },
            );
            proof {
                let h = final(self).bus_history();
                let n0 = old(self).bus_history().len() as int;
                lemma_level_confirmed_extends(
                    hh1,
                    h,
                    c1lo,
                    k1,
                    picc::SEL_CL1,
                    f1@[0],
                    f1@[1],
                    f1@[2],
                    f1@[3],
                    sak1.byte,
                );
                lemma_level_confirmed_widen(
                    h,
                    c1lo,
                    n0,
                    k1,
                    k1,
                    picc::SEL_CL1,
                    f1@[0],
                    f1@[1],
                    f1@[2],
                    f1@[3],
                    sak1.byte,
                );
                assert(u.spec_bytes()[0] == f1@[1] && u.spec_bytes()[1] == f1@[2]
                    && u.spec_bytes()[2] == f1@[3] && u.spec_bytes()[3] == f2@[0]
                    && u.spec_bytes()[4] == f2@[1] && u.spec_bytes()[5] == f2@[2]
                    && u.spec_bytes()[6] == f2@[3]);
                assert(level_confirmed(
                    h,
                    n0,
                    k1,
                    picc::SEL_CL1,
                    f1@[0],
                    u.spec_bytes()[0],
                    u.spec_bytes()[1],
                    u.spec_bytes()[2],
                    sak1.byte,
                ));
                assert(level_confirmed(
                    h,
                    k1,
                    h.len() as int,
                    picc::SEL_CL2,
                    u.spec_bytes()[3],
                    u.spec_bytes()[4],
                    u.spec_bytes()[5],
                    u.spec_bytes()[6],
                    u.spec_sak().byte,
                ));
                assert(sak1.byte & 0x04 != 0);
            }
            return Ok(u);
        }
        let ghost k2 = self.bus_history().len() as int;
        let (f3, sak3) = match self.cascade_round(picc::SEL_CL3) {
            Ok(x) => x,
            Err(e) => return Err(e),
        };
        if !sak3.is_complete() {
            // a third cascade level must complete the UID; a card reporting
            // otherwise violates the protocol
            proof {
                let h = final(self).bus_history();
                let n0 = old(self).bus_history().len() as int;
                lemma_level_confirmed_widen(
                    h,
                    k2,
                    n0,
                    h.len() as int,
                    h.len() as int,
                    picc::SEL_CL3,
                    f3@[0],
                    f3@[1],
                    f3@[2],
                    f3@[3],
                    sak3.byte,
                );
            }
            return Err(Error::Protocol);
        }
        let u = Uid::Triple(
            GenericUid {
                bytes: [
                    f1[1],
                    f1[2],
                    f1[3],
                    f2[1],
                    f2[2],
                    f2[3],
                    f3[0],
                    f3[1],
                    f3[2],
                    f3[3],
                ],
                sak: sak3,
            },
        );
        proof {
            let h = final(self).bus_history();
            let n0 = old(self).bus_history().len() as int;
            lemma_level_confirmed_extends(
                hh1,
                hh2,
                c1lo,
                k1,
                picc::SEL_CL1,
                f1@[0],
                f1@[1],
                f1@[2],
                f1@[3],
                sak1.byte,
            );
            lemma_level_confirmed_extends(
                hh2,
                h,
                c1lo,
                k1,
                picc::SEL_CL1,
                f1@[0],
                f1@[1],
                f1@[2],
                f1@[3],
                sak1.byte,
            );
            lemma_level_confirmed_widen(
                h,
                c1lo,
                n0,
                k1,
                k1,
                picc::SEL_CL1,
                f1@[0],
                f1@[1],
                f1@[2],
                f1@[3],
                sak1.byte,
            );
            lemma_level_confirmed_extends(
                hh2,
                h,
                k1,
                k2,
                picc::SEL_CL2,
                f2@[0],
                f2@[1],
                f2@[2],
                f2@[3],
                sak2.byte,
            );
            assert(u.spec_bytes()[0] == f1@[1] && u.spec_bytes()[1] == f1@[2]
                && u.spec_bytes()[2] == f1@[3] && u.spec_bytes()[3] == f2@[1]
                && u.spec_bytes()[4] == f2@[2] && u.spec_bytes()[5] == f2@[3]
                && u.spec_bytes()[6] == f3@[0] && u.spec_bytes()[7] == f3@[1]
                && u.spec_bytes()[8] == f3@[2] && u.spec_bytes()[9] == f3@[3]);
            assert(level_confirmed(
                h,
                n0,
                k1,
                picc::SEL_CL1,
                f1@[0],
                u.spec_bytes()[0],
                u.spec_bytes()[1],
                u.spec_bytes()[2],
                sak1.byte,
            ));
            assert(level_confirmed(
                h,
                k1,
                k2,
                picc::SEL_CL2,
                f2@[0],
                u.spec_bytes()[3],
                u.spec_bytes()[4],
                u.spec_bytes()[5],
                sak2.byte,
            ));
            assert(level_confirmed(
                h,
                k2,
                h.len() as int,
                picc::SEL_CL3,
                u.spec_bytes()[6],
                u.spec_bytes()[7],
                u.spec_bytes()[8],
                u.spec_bytes()[9],
                u.spec_sak().byte,
            ));
            assert(sak1.byte & 0x04 != 0 && sak2.byte & 0x04 != 0);
        }
        Ok(u)
    }

    /// One cascade level: anticollision rounds until the level's 4 UID
    /// bytes and their check character are known, then the confirming
    /// select frame, whose 3-byte answer carries the SAK and its check
    /// value.
    ///
    /// Each round transmits the prefix implied by `known_bits` and tells
    /// the reader to bit-align the card's answer so it appends directly
    /// after the known bits. On a collision, the reported position must
    /// strictly extend the prefix — so `known_bits` grows every round and
    /// the rounds of one level are bounded — and the bit at the collision
    /// position is forced to 1, the standard's deterministic tie-break.
    fn cascade_round(&mut self, cmd: u8) -> (r: Result<(Vec<u8>, Sak), Error<SPI::BusErr>>)
        ensures
            hist_extends(old(self).bus_history(), final(self).bus_history()),
            r matches Err(e) ==> !(e is Proprietary) && !(e is Nak),
            // a level is returned only as confirmed on the bus: the full
            // select frame carrying exactly the returned bytes went out,
            // and the 3-byte answer carrying the returned SAK came back
            r matches Ok(p) ==> p.0@.len() == 5 && level_confirmed(
                final(self).bus_history(),
                old(self).bus_history().len() as int,
                final(self).bus_history().len() as int,
                cmd,
                p.0@[0],
                p.0@[1],
                p.0@[2],
                p.0@[3],
                p.1.byte,
            ),
            // failures name their evidence: the closing exchange decided them
            r matches Err(e) ==> (e is Timeout ==> poll_evidence(final(self).bus_history(), true)
                || crc_timeout_evidence(final(self).bus_history())),
            r matches Err(e) ==> (e is LostCommunication ==> poll_evidence(
                final(self).bus_history(),
                false,
            )),
            r matches Err(e) ==> ((e is Protocol || e is Parity || e is BufferOverflow
                || e is Overheating || e is Wr) ==> flag_evidence::<SPI::BusErr>(
                final(self).bus_history(),
                e,
            )),
            r matches Err(e) ==> (e is Collision ==> flag_evidence::<SPI::BusErr>(
                final(self).bus_history(),
                e,
            ) || collision_read_evidence(final(self).bus_history())),
            r matches Err(e) ==> (e is Crc ==> flag_evidence::<SPI::BusErr>(
                final(self).bus_history(),
                e,
            ) || (final(self).bus_history().len() >= 1 && final(self).bus_history().last().sent
                == seq![Register::CRCResultRegHigh.spec_read_address(), 0u8])),
    {
        let mut uid5: Vec<u8> = Vec::new();
        uid5.push(0);
        uid5.push(0);
        uid5.push(0);
        uid5.push(0);
        uid5.push(0);
        let mut known_bits: u8 = 0;
        loop
            invariant
                uid5@.len() == 5,
                known_bits <= 32,
                hist_extends(old(self).bus_history(), self.bus_history()),
            ensures
                uid5@.len() == 5,
                hist_extends(old(self).bus_history(), self.bus_history()),
            decreases 33 - known_bits,
        {
            let tx_last_bits: u8 = known_bits % 8;
            let tx = build_anticollision_frame(cmd, known_bits, &uid5);
            // the answer's first bit lands at the offset the known bits end
            // on, so it can be merged without a shift pass
            match self.transceive(&tx, tx.len(), tx_last_bits, tx_last_bits, 5) {
                Ok(fifo) => {
                    if (known_bits / 8) as usize + fifo.valid_bytes > 5 {
                        return Err(Error::NoRoom);
                    }
                    fifo.copy_bits_to(&mut uid5, known_bits);
                    break;
                },
                Err(e) => {
                    match e {
                        Error::Collision => {
                            let coll_reg = match self.read(Register::CollReg) {
                                Ok(b) => b,
                                Err(e2) => return Err(e2),
                            };
                            let pos = match collision_next::<SPI::BusErr>(coll_reg, known_bits) {
                                Ok(p) => p,
                                Err(e2) => return Err(e2),
                            };
                            let fifo = match self.fifo_data(5) {
                                Ok(f) => f,
                                Err(e2) => return Err(e2),
                            };
                            if (known_bits / 8) as usize + fifo.valid_bytes > 5 {
                                return Err(Error::NoRoom);
                            }
                            fifo.copy_bits_to(&mut uid5, known_bits);
                            known_bits = pos;
                            // the standard's deterministic tie-break: the
                            // bit at the collision position becomes 1, and
                            // a card that disagrees drops out next round
                            force_tie_break(&mut uid5, known_bits);
                        },
                        other => {
                            return Err(other);
                        },
                    }
                },
            }
        }
        // the level is known: confirm it with the full select frame, check
        // value appended
        let mut tx = build_select_frame(cmd, &uid5);
        let crc = match self.calculate_crc(&tx, 7) {
            Ok(c) => c,
            Err(e) => return Err(e),
        };
        tx.push(crc[0]);
        tx.push(crc[1]);
        let ghost midsel = self.bus_history().len() as int;
        let rx = match self.transceive(&tx, 9, 0, 0, 3) {
            Ok(f) => f,
            Err(e) => return Err(e),
        };
        let ghost p2 = self.bus_history().len() as int;
        if rx.valid_bytes != 3 || rx.valid_bits != 0 {
            return Err(Error::IncompleteFrame);
        }
        let crc_verify = match self.calculate_crc(&rx.buffer, 1) {
            Ok(c) => c,
            Err(e) => return Err(e),
        };
        let out = decode_sak(&rx, &crc_verify);
        match out {
            Ok(sak) => {
                proof {
                    let h = final(self).bus_history();
                    let frame = seq![
                        Register::FIFODataReg.spec_write_address(),
                        cmd,
                        0x70u8,
                        uid5@[0],
                        uid5@[1],
                        uid5@[2],
                        uid5@[3],
                        (uid5@[0] ^ uid5@[1] ^ uid5@[2] ^ uid5@[3]),
                    ];
                    assert((seq![Register::FIFODataReg.spec_write_address()] + tx@.subrange(
                        0,
                        9,
                    )).subrange(0, 8) =~= frame);
                    assert(h[midsel + 3].sent.len() == 10);
                    assert(h[midsel + 3].sent.subrange(0, 8) == frame);
                    assert(h[p2 - 3].sent == seq![
                        Register::FIFOLevelReg.spec_read_address(),
                        0u8,
                    ] && h[p2 - 3].received.len() == 2 && h[p2 - 3].received[1] == 3);
                    assert(h[p2 - 2].received.len() == 4 && h[p2 - 2].received[1] == sak.byte);
                    assert(h[p2 - 1].sent == seq![Register::ControlReg.spec_read_address(), 0u8]
                        && h[p2 - 1].received.len() == 2 && h[p2 - 1].received[1] & 0x07 == 0);
                    assert(level_confirmed(
                        h,
                        old(self).bus_history().len() as int,
                        h.len() as int,
                        cmd,
                        uid5@[0],
                        uid5@[1],
                        uid5@[2],
                        uid5@[3],
                        sak.byte,
                    ));
                }
                Ok((uid5, sak))
            },
            Err(e) => Err(e),
        }
    }

    /// Authenticates one block with key A through the reader's MIFARE
    /// authentication command. Only the 4 UID bytes of the final cascade
    /// level participate, whatever the UID's length. Success is silent: no
    /// FIFO drain follows.
    pub fn mf_authenticate(&mut self, uid: &Uid, block: u8, key: &MifareKey) -> (r: Result<
        (),
        Error<SPI::BusErr>,
    >)
        ensures
            hist_extends(old(self).bus_history(), final(self).bus_history()),
            r matches Err(e) ==> !(e is Proprietary) && !(e is Nak),
            // unless the bus itself failed, the authentication started
            // over the exact 12-byte frame: key-A opcode, block, the
            // 6-byte key, and the final cascade level's 4 UID bytes
            !(r matches Err(e) && e is Spi) ==> authent_sends(
                final(self).bus_history(),
                old(self).bus_history().len() as int,
                seq![picc::MF_AUTH_KEY_A, block] + key@ + uid.spec_bytes().subrange(
                    uid.spec_bytes().len() - 4,
                    uid.spec_bytes().len() as int,
                ),
            ),
            // success is silent: the last exchange is the error-register
            // read, and it showed no error flag
            r is Ok ==> {
                let h = final(self).bus_history();
                &&& h.len() >= old(self).bus_history().len() + 8
                &&& h.last().sent == seq![Register::ErrorReg.spec_read_address(), 0u8]
                &&& h.last().received.len() == 2
                &&& spec_error_flags::<SPI::BusErr>(h.last().received[1]) is Ok
            },
    {
        // stop any ongoing command
        match self.command(Command::Idle) {
            Ok(_) => {},
            Err(e) => return Err(e),
        }
        // clear all interrupt flags
        match self.write(Register::ComIrqReg, 0x7f) {
            Ok(_) => {},
            Err(e) => return Err(e),
        }
        match self.fifo_flush() {
            Ok(_) => {},
            Err(e) => return Err(e),
        }
        // clear bit framing
        match self.write(Register::BitFramingReg, 0) {
            Ok(_) => {},
            Err(e) => return Err(e),
        }
        let auth = uid.auth_bytes();
        let mut tx: Vec<u8> = Vec::new();
        tx.push(picc::MF_AUTH_KEY_A);
        tx.push(block);
        let mut i: usize = 0;
        while i < 6
            invariant
                i <= 6,
                tx@.len() == i + 2,
                tx@[0] == picc::MF_AUTH_KEY_A,
                tx@[1] == block,
                forall|j: int| 2 <= j < i + 2 ==> #[trigger] tx@[j] == key@[j - 2],
            decreases 6 - i,
        {
            tx.push(key[i]);
            i = i + 1;
        }
        let mut j: usize = 0;
        while j < 4
            invariant
                j <= 4,
                tx@.len() == j + 8,
                tx@.subrange(0, 8) == seq![picc::MF_AUTH_KEY_A, block] + key@,
                forall|t: int| 8 <= t < j + 8 ==> #[trigger] tx@[t] == auth@[t - 8],
            decreases 4 - j,
        {
            tx.push(auth[j]);
            j = j + 1;
        }
        proof {
            assert(tx@ =~= seq![picc::MF_AUTH_KEY_A, block] + key@ + uid.spec_bytes().subrange(
                uid.spec_bytes().len() - 4,
                uid.spec_bytes().len() as int,
            ));
        }
        match self.write_many(Register::FIFODataReg, &tx, tx.len()) {
            Ok(_) => {},
            Err(e) => return Err(e),
        }
        match self.command(Command::MFAuthent) {
            Ok(_) => {},
            Err(e) => return Err(e),
        }
        let ghost n0 = old(self).bus_history().len() as int;
        let ghost payload = tx@;
        let ghost h6 = self.bus_history();
        proof {
            assert(tx@.subrange(0, 12) =~= tx@);
            assert(authent_sends(h6, n0, payload));
        }
        let mut timeout: u8 = 0;
        loop
            invariant
                timeout <= 71,
                n0 == old(self).bus_history().len() as int,
                payload == seq![picc::MF_AUTH_KEY_A, block] + key@ + uid.spec_bytes().subrange(
                    uid.spec_bytes().len() - 4,
                    uid.spec_bytes().len() as int,
                ),
                hist_extends(old(self).bus_history(), h6),
                hist_extends(h6, self.bus_history()),
                authent_sends(h6, n0, payload),
                h6.len() >= n0 + 6,
            ensures
                hist_extends(old(self).bus_history(), h6),
                hist_extends(h6, self.bus_history()),
                authent_sends(self.bus_history(), n0, payload),
                self.bus_history().len() >= n0 + 7,
            decreases 71 - timeout,
        {
            let irq = match self.read(Register::ComIrqReg) {
                Ok(b) => b,
                Err(e) => return Err(e),
            };
            match classify_authent_poll(irq, timeout) {
                PollVerdict::Complete => {
                    break;
                },
                PollVerdict::CardTimeout => {
                    return Err(Error::Timeout);
                },
                PollVerdict::ReaderLost => {
                    return Err(Error::Timeout);
                },
                PollVerdict::Again => {},
            }
            timeout = timeout + 1;
        }
        self.check_error_register()
    }

    /// Reads one 16-byte block: transmits the read command with its check
    /// value, expects a whole-byte 18-byte answer, and verifies the
    /// trailing 2 bytes against a recomputation over the first 16 (see
    /// [`crate::logic::extract_block`]).
    pub fn mf_read(&mut self, block: u8) -> (r: Result<[u8; 16], Error<SPI::BusErr>>)
        ensures
            hist_extends(old(self).bus_history(), final(self).bus_history()),
            r matches Err(e) ==> !(e is Proprietary) && !(e is Nak),
            // unless the bus itself failed, the check value for the read
            // command was computed over exactly its two bytes
            !(r matches Err(e) && e is Spi) ==> crc_sends(
                final(self).bus_history(),
                old(self).bus_history().len() as int,
                seq![picc::MF_READ, block],
            ),
            // when the card conversation happened at all, the 5-byte read
            // frame for this block was loaded and transmitted
            (r is Ok || (r matches Err(e) && !(e is Spi) && !(e is Timeout))) ==> ({
                let h = final(self).bus_history();
                exists|i: int|
                    old(self).bus_history().len() <= i < h.len() && (#[trigger] h[i]).sent.len()
                        == 5 && h[i].sent[0] == Register::FIFODataReg.spec_write_address()
                        && h[i].sent[1] == picc::MF_READ && h[i].sent[2] == block
            }),
            // on success the returned 16 bytes are exactly the bytes the
            // check value was recomputed over
            r matches Ok(d) ==> ({
                let h = final(self).bus_history();
                exists|i: int|
                    old(self).bus_history().len() <= i < h.len() && (#[trigger] h[i]).sent
                        == seq![Register::FIFODataReg.spec_write_address()] + d@
            }),
    {
        let mut tx: Vec<u8> = Vec::new();
        tx.push(picc::MF_READ);
        tx.push(block);
        proof {
            assert(tx@.subrange(0, 2) =~= seq![picc::MF_READ, block]);
        }
        let crc = match self.calculate_crc(&tx, 2) {
            Ok(c) => c,
            Err(e) => return Err(e),
        };
        tx.push(crc[0]);
        tx.push(crc[1]);
        let ghost mid = self.bus_history().len() as int;
        let rx = match self.transceive(&tx, 4, 0, 0, 18) {
            Ok(f) => f,
            Err(e) => {
                proof {
                    let ee = e;
                    if !(ee is Spi) {
                        assert(tx@.subrange(0, 4) =~= seq![picc::MF_READ, block, crc[0], crc[1]]);
                    }
                }
                return Err(e);
            },
        };
        proof {
            assert(tx@.subrange(0, 4) =~= seq![picc::MF_READ, block, crc[0], crc[1]]);
        }
        if rx.valid_bytes != 18 || rx.valid_bits != 0 {
            return Err(Error::IncompleteFrame);
        }
        let crc_verify = match self.calculate_crc(&rx.buffer, 16) {
            Ok(c) => c,
            Err(e) => return Err(e),
        };
        let out = extract_block(&rx, &crc_verify);
        proof {
            let oo = out;
            match oo {
                Ok(d) => {
                    assert(d@ =~= rx.buffer@.subrange(0, 16));
                },
                Err(_) => {},
            }
        }
        out
    }

    /// Writes one 16-byte block in two phases: the write command, then the
    /// data, each with its check value, and each acknowledged by a 4-bit
    /// nibble. Any acknowledge that is not exactly 1 valid byte of 4 valid
    /// bits is a negative acknowledge (see [`crate::logic::ack_outcome`]).
    pub fn mf_write(&mut self, block: u8, data: [u8; 16]) -> (r: Result<(), Error<SPI::BusErr>>)
        ensures
            hist_extends(old(self).bus_history(), final(self).bus_history()),
            r matches Err(e) ==> !(e is Proprietary),
            // unless the bus itself failed, the check value for the write
            // command was computed over exactly its two bytes
            !(r matches Err(e) && e is Spi) ==> crc_sends(
                final(self).bus_history(),
                old(self).bus_history().len() as int,
                seq![picc::MF_WRITE, block],
            ),
            // when the card conversation happened at all, the 5-byte write
            // command frame for this block was loaded and transmitted
            (r is Ok || (r matches Err(e) && !(e is Spi) && !(e is Timeout))) ==> ({
                let h = final(self).bus_history();
                exists|i: int|
                    old(self).bus_history().len() <= i < h.len() && (#[trigger] h[i]).sent.len()
                        == 5 && h[i].sent[0] == Register::FIFODataReg.spec_write_address()
                        && h[i].sent[1] == picc::MF_WRITE && h[i].sent[2] == block
            }),
            // success means both acknowledge phases read the 4-bit shape:
            // the command phase's acknowledged drain precedes the data
            // frame — the 16 bytes and their check value — and the data
            // phase's acknowledged drain closes the history
            r is Ok ==> ({
                let h = final(self).bus_history();
                let n1 = old(self).bus_history().len() as int;
                &&& ack_drained(h, h.len() as int)
                &&& exists|p: int, j: int|
                    #![trigger ack_drained(h, p), h[j].sent]
                    n1 <= p <= j && j < h.len() && ack_drained(h, p) && h[j].sent.len() == 19
                        && h[j].sent[0] == Register::FIFODataReg.spec_write_address()
                        && h[j].sent.subrange(1, 17) == data@
            }),
            // a negative acknowledge names its evidence: the history closes
            // with the drain that lacked the shape
            r matches Err(e) ==> (e is Nak ==> non_ack_drained(
                final(self).bus_history(),
                final(self).bus_history().len() as int,
            )),
    {
        let mut cmd: Vec<u8> = Vec::new();
        cmd.push(picc::MF_WRITE);
        cmd.push(block);
        proof {
            assert(cmd@.subrange(0, 2) =~= seq![picc::MF_WRITE, block]);
        }
        let crc = match self.calculate_crc(&cmd, 2) {
            Ok(c) => c,
            Err(e) => return Err(e),
        };
        cmd.push(crc[0]);
        cmd.push(crc[1]);
        let ghost mid = self.bus_history().len() as int;
        let fifo = match self.transceive(&cmd, 4, 0, 0, 1) {
            Ok(f) => f,
            Err(e) => {
                proof {
                    let ee = e;
                    if !(ee is Spi) {
                        assert(cmd@.subrange(0, 4) =~= seq![
                            picc::MF_WRITE,
                            block,
                            crc[0],
                            crc[1],
                        ]);
                    }
                }
                return Err(e);
            },
        };
        proof {
            assert(cmd@.subrange(0, 4) =~= seq![picc::MF_WRITE, block, crc[0], crc[1]]);
        }
        let ghost p1 = self.bus_history().len() as int;
        match ack_outcome(&fifo) {
            Ok(_) => {},
            Err(e) => return Err(e),
        }
        let mut tx: Vec<u8> = Vec::new();
        let mut i: usize = 0;
        while i < 16
            invariant
                i <= 16,
                tx@.len() == i,
                forall|j: int| 0 <= j < i ==> #[trigger] tx@[j] == data@[j],
            decreases 16 - i,
        {
            tx.push(data[i]);
            i = i + 1;
        }
        let crc_data = match self.calculate_crc(&tx, 16) {
            Ok(c) => c,
            Err(e) => return Err(e),
        };
        tx.push(crc_data[0]);
        tx.push(crc_data[1]);
        let ghost mid2 = self.bus_history().len() as int;
        let fifo = match self.transceive(&tx, 18, 0, 0, 1) {
            Ok(f) => f,
            Err(e) => return Err(e),
        };
        proof {
            assert((seq![Register::FIFODataReg.spec_write_address()] + tx@.subrange(0, 18))
                .subrange(1, 17) =~= data@);
        }
        match ack_outcome(&fifo) {
            Ok(_) => {},
            Err(e) => return Err(e),
        }
        proof {
            let h = final(self).bus_history();
            assert(ack_drained(h, p1));
            assert(h[mid2 + 3].sent.len() == 19 && h[mid2 + 3].sent[0]
                == Register::FIFODataReg.spec_write_address() && h[mid2 + 3].sent.subrange(1, 17)
                == data@);
        }
        Ok(())
    }

}

} // verus!
