use vstd::prelude::*;
use crate::error::Error;
use crate::fifo::FifoData;
use crate::picc::Sak;
use crate::register::{
    BUFFER_OVFL, COLL_ERR, CRC_ERR, ERR_IRQ, IDLE_IRQ, PARITY_ERR, PROTOCOL_ERR, RX_IRQ,
    TEMP_ERR, TIMER_IRQ, WR_ERR,
};

verus! {

/// Answer To reQuest type A: the 2-byte response identifying a card category,
/// produced by a request or wake-up probe and consumed by selection.
pub struct AtqA {
    /// The two raw ATQA bytes.
    pub bytes: [u8; 2],
}

/// An ATQA announces the standard bit-frame anticollision when exactly one of
/// the low 5 bits of its first byte is set; any other pattern is a
/// proprietary encoding.
pub open spec fn atqa_standard(b0: u8) -> bool {
    ||| b0 & 0x1F == 0x01
    ||| b0 & 0x1F == 0x02
    ||| b0 & 0x1F == 0x04
    ||| b0 & 0x1F == 0x08
    ||| b0 & 0x1F == 0x10
}

/// Decides whether an ATQA first byte announces standard anticollision.
pub fn check_atqa_standard(b0: u8) -> (r: bool)
    ensures
        r == atqa_standard(b0),
{
    let low: u8 = b0 & 0x1F;
    low == 0x01 || low == 0x02 || low == 0x04 || low == 0x08 || low == 0x10
}

/// Decides a request/wake-up response: a probe succeeds if and only if the
/// response holds exactly 2 valid bytes and 0 leftover bits; any other shape
/// is an incomplete frame.
pub fn decode_atqa<E>(fifo: &FifoData) -> (r: Result<AtqA, Error<E>>)
    requires
        fifo.wf(),
    ensures
        r is Ok <==> (fifo.valid_bytes == 2 && fifo.valid_bits == 0),
        r matches Ok(a) ==> a.bytes@ == fifo.buffer@,
        r is Err ==> r == Err::<AtqA, Error<E>>(Error::IncompleteFrame),
{
    if fifo.valid_bytes != 2 || fifo.valid_bits != 0 {
        Err(Error::IncompleteFrame)
    } else {
        let a = AtqA { bytes: [fifo.buffer[0], fifo.buffer[1]] };
        proof {
            assert(a.bytes@ =~= fifo.buffer@);
        }
        Ok(a)
    }
}

/// Decides the outcome of a halt command from the raw exchange result: the
/// card acknowledges a halt by staying silent, so only a receive timeout is
/// success; any response within the guard window is a negative acknowledge,
/// and every other error passes through unchanged.
pub fn halt_outcome<E>(t: Result<FifoData, Error<E>>) -> (r: Result<(), Error<E>>)
    ensures
        r is Ok <==> (t matches Err(e) && e is Timeout),
        t is Ok ==> r == Err::<(), Error<E>>(Error::Nak),
        (t matches Err(e) && !(e is Timeout)) ==> r == Err::<(), Error<E>>(t->Err_0),
{
    match t {
        Err(e) => {
            match e {
                Error::Timeout => Ok(()),
                other => Err(other),
            }
        },
        Ok(_) => Err(Error::Nak),
    }
}

/// The reading of the reader's shared error register: the first matching
/// flag, checked in a fixed priority order, wins if several are set; no flag
/// at all means the exchange was clean.
pub open spec fn spec_error_flags<E>(err: u8) -> Result<(), Error<E>> {
    if err & PROTOCOL_ERR != 0 {
        Err(Error::Protocol)
    } else if err & PARITY_ERR != 0 {
        Err(Error::Parity)
    } else if err & CRC_ERR != 0 {
        Err(Error::Crc)
    } else if err & COLL_ERR != 0 {
        Err(Error::Collision)
    } else if err & BUFFER_OVFL != 0 {
        Err(Error::BufferOverflow)
    } else if err & TEMP_ERR != 0 {
        Err(Error::Overheating)
    } else if err & WR_ERR != 0 {
        Err(Error::Wr)
    } else {
        Ok(())
    }
}

/// Decides an error-register value, first matching flag first.
pub fn error_flags<E>(err: u8) -> (r: Result<(), Error<E>>)
    ensures
        r == spec_error_flags::<E>(err),
{
    if err & PROTOCOL_ERR != 0 {
        Err(Error::Protocol)
    } else if err & PARITY_ERR != 0 {
        Err(Error::Parity)
    } else if err & CRC_ERR != 0 {
        Err(Error::Crc)
    } else if err & COLL_ERR != 0 {
        Err(Error::Collision)
    } else if err & BUFFER_OVFL != 0 {
        Err(Error::BufferOverflow)
    } else if err & TEMP_ERR != 0 {
        Err(Error::Overheating)
    } else if err & WR_ERR != 0 {
        Err(Error::Wr)
    } else {
        Ok(())
    }
}

/// The collision position encoded in the collision register: the low 5 bits,
/// with 0 standing for 32.
pub open spec fn coll_pos(coll_reg: u8) -> u8 {
    if coll_reg & 0x1F == 0 {
        32
    } else {
        coll_reg & 0x1F
    }
}

/// Decides one collision report during anticollision.
///
/// The report is unusable when the position-not-valid flag (bit 5) is set, or
/// when the reported position does not lie strictly beyond the bits already
/// known (no forward progress): both are unrecoverable collisions. Otherwise
/// the round advances to the reported position — strictly more bits than
/// before, and at most 32, so the rounds of one cascade level cannot loop
/// forever.
pub fn collision_next<E>(coll_reg: u8, known_bits: u8) -> (r: Result<u8, Error<E>>)
    ensures
        coll_reg & 0x20 != 0 ==> r == Err::<u8, Error<E>>(Error::Collision),
        coll_reg & 0x20 == 0 && coll_pos(coll_reg) > known_bits ==> r == Ok::<u8, Error<E>>(
            coll_pos(coll_reg),
        ),
        coll_reg & 0x20 == 0 && coll_pos(coll_reg) <= known_bits ==> r == Err::<u8, Error<E>>(
            Error::Collision,
        ),
        r matches Ok(p) ==> known_bits < p <= 32,
{
    if coll_reg & 0x20 != 0 {
        // the reader could not tell where the bits diverged
        return Err(Error::Collision);
    }
    let mut pos: u8 = coll_reg & 0x1F;
    proof {
        assert(coll_reg & 0x1F <= 0x1F) by (bit_vector);
    }
    if pos == 0 {
        pos = 32;
    }
    if pos <= known_bits {
        // no forward progress
        return Err(Error::Collision);
    }
    Ok(pos)
}

/// Decides whether a response has the 4-bit MIFARE acknowledge shape:
/// exactly 1 valid byte carrying exactly 4 valid bits.
pub fn ack_shape(fifo: &FifoData) -> (r: bool)
    ensures
        r == (fifo.valid_bytes == 1 && fifo.valid_bits == 4),
{
    fifo.valid_bytes == 1 && fifo.valid_bits == 4
}

/// Decides one MIFARE acknowledge phase: only the 4-bit acknowledge shape
/// — exactly 1 valid byte carrying exactly 4 valid bits — is accepted; any
/// other shape is a negative acknowledge. The nibble's value is
/// deliberately not inspected.
pub fn ack_outcome<E>(fifo: &FifoData) -> (r: Result<(), Error<E>>)
    ensures
        r is Ok <==> (fifo.valid_bytes == 1 && fifo.valid_bits == 4),
        r is Err ==> r == Err::<(), Error<E>>(Error::Nak),
{
    if fifo.valid_bytes == 1 && fifo.valid_bits == 4 {
        Ok(())
    } else {
        Err(Error::Nak)
    }
}

/// Decides a block-read response against a freshly recomputed check value.
///
/// The response must be a whole-byte, 18-byte frame; its trailing 2 bytes
/// must equal the check value recomputed over its first 16 bytes — byte
/// equality with the recomputation is the sole verification mechanism. On a
/// match the 16 data bytes are returned unchanged.
pub fn extract_block<E>(rx: &FifoData, crc: &[u8; 2]) -> (r: Result<[u8; 16], Error<E>>)
    requires
        rx.wf(),
    ensures
        !(rx.valid_bytes == 18 && rx.valid_bits == 0) ==> r == Err::<[u8; 16], Error<E>>(
            Error::IncompleteFrame,
        ),
        rx.valid_bytes == 18 && rx.valid_bits == 0 && !(rx.buffer@[16] == crc@[0]
            && rx.buffer@[17] == crc@[1]) ==> r == Err::<[u8; 16], Error<E>>(Error::Crc),
        r is Ok <==> (rx.valid_bytes == 18 && rx.valid_bits == 0 && rx.buffer@[16] == crc@[0]
            && rx.buffer@[17] == crc@[1]),
        r matches Ok(d) ==> d@ == rx.buffer@.subrange(0, 16),
{
    if rx.valid_bytes != 18 || rx.valid_bits != 0 {
        return Err(Error::IncompleteFrame);
    }
    if rx.buffer[16] != crc[0] || rx.buffer[17] != crc[1] {
        return Err(Error::Crc);
    }
    let mut data: [u8; 16] = [0u8; 16];
    let mut i: usize = 0;
    while i < 16
        invariant
            i <= 16,
            rx.wf(),
            rx.valid_bytes == 18,
            forall|j: int| 0 <= j < i ==> data@[j] == rx.buffer@[j],
        decreases 16 - i,
    {
        data[i] = rx.buffer[i];
        i = i + 1;
    }
    proof {
        assert(data@ =~= rx.buffer@.subrange(0, 16));
    }
    Ok(data)
}

/// Decides the answer to a full select frame against a freshly recomputed
/// check value: the answer must be a whole-byte, 3-byte frame — the SAK and
/// its 2-byte check value — and the trailing bytes must equal the
/// recomputation over the SAK byte; on a match the SAK is returned.
pub fn decode_sak<E>(rx: &FifoData, crc: &[u8; 2]) -> (r: Result<Sak, Error<E>>)
    requires
        rx.wf(),
    ensures
        r is Ok <==> (rx.valid_bytes == 3 && rx.valid_bits == 0 && rx.buffer@[1] == crc@[0]
            && rx.buffer@[2] == crc@[1]),
        !(rx.valid_bytes == 3 && rx.valid_bits == 0) ==> r == Err::<Sak, Error<E>>(
            Error::IncompleteFrame,
        ),
        rx.valid_bytes == 3 && rx.valid_bits == 0 && !(rx.buffer@[1] == crc@[0] && rx.buffer@[2]
            == crc@[1]) ==> r == Err::<Sak, Error<E>>(Error::Crc),
        r matches Ok(s) ==> s.byte == rx.buffer@[0],
{
    if rx.valid_bytes != 3 || rx.valid_bits != 0 {
        return Err(Error::IncompleteFrame);
    }
    if rx.buffer[1] != crc[0] || rx.buffer[2] != crc[1] {
        return Err(Error::Crc);
    }
    Ok(Sak::from_byte(rx.buffer[0]))
}

/// What one look at the interrupt status register decides during a poll.
#[derive(Clone, Copy, Debug, PartialEq, Eq, Structural)]
pub enum PollVerdict {
    /// Receive, error or idle: the exchange completed.
    Complete,
    /// The hardware timer fired: no card answered in the timeout window.
    CardTimeout,
    /// The poll budget for an entirely silent status register is spent:
    /// the reader itself stopped answering.
    ReaderLost,
    /// Nothing decided yet: poll again.
    Again,
}

/// The decision one transceive poll makes over the interrupt status byte:
/// receive, error or idle complete the exchange; otherwise a fired hardware
/// timer is the card's timeout; otherwise more than 10 polls that read an
/// entirely empty status register mean the reader itself is lost — a
/// distinct condition from a card that merely stays silent.
pub open spec fn spec_transceive_poll(irq: u8, empty_polls: u8) -> PollVerdict {
    if irq & (RX_IRQ | ERR_IRQ | IDLE_IRQ) != 0 {
        PollVerdict::Complete
    } else if irq & TIMER_IRQ != 0 {
        PollVerdict::CardTimeout
    } else if empty_polls > 10 {
        PollVerdict::ReaderLost
    } else {
        PollVerdict::Again
    }
}

/// Decides one transceive poll (see [`spec_transceive_poll`]).
pub fn classify_transceive_poll(irq: u8, empty_polls: u8) -> (r: PollVerdict)
    ensures
        r == spec_transceive_poll(irq, empty_polls),
{
    if irq & (RX_IRQ | ERR_IRQ | IDLE_IRQ) != 0 {
        PollVerdict::Complete
    } else if irq & TIMER_IRQ != 0 {
        PollVerdict::CardTimeout
    } else if empty_polls > 10 {
        PollVerdict::ReaderLost
    } else {
        PollVerdict::Again
    }
}

/// The decision one authentication poll makes over the interrupt status
/// byte: error or idle complete the command; a fired hardware timer or an
/// exhausted iteration budget is a timeout; the reader-lost verdict never
/// arises here.
pub open spec fn spec_authent_poll(irq: u8, polls: u8) -> PollVerdict {
    if irq & (ERR_IRQ | IDLE_IRQ) != 0 {
        PollVerdict::Complete
    } else if irq & TIMER_IRQ != 0 || polls > 70 {
        PollVerdict::CardTimeout
    } else {
        PollVerdict::Again
    }
}

/// Decides one authentication poll (see [`spec_authent_poll`]).
pub fn classify_authent_poll(irq: u8, polls: u8) -> (r: PollVerdict)
    ensures
        r == spec_authent_poll(irq, polls),
        !(r is ReaderLost),
{
    if irq & (ERR_IRQ | IDLE_IRQ) != 0 {
        PollVerdict::Complete
    } else if irq & TIMER_IRQ != 0 || polls > 70 {
        PollVerdict::CardTimeout
    } else {
        PollVerdict::Again
    }
}

/// Builds one anticollision frame: the select command, the
/// number-of-valid-bits byte — whole bytes in the high nibble, leftover
/// bits in the low nibble — and exactly the already-known prefix of the
/// working UID frame, whole bytes plus one byte carrying the leftover bits.
pub fn build_anticollision_frame(cmd: u8, known_bits: u8, uid5: &Vec<u8>) -> (r: Vec<u8>)
    requires
        known_bits <= 32,
        uid5@.len() == 5,
    ensures
        r@.len() == 2 + known_bits / 8 + if known_bits % 8 > 0 {
            1int
        } else {
            0int
        },
        r@[0] == cmd,
        r@[1] == (((2 + known_bits / 8) as u8) << 4) + known_bits % 8,
        forall|i: int| 2 <= i < r@.len() ==> #[trigger] r@[i] == uid5@[i - 2],
{
    let tx_last_bits: u8 = known_bits % 8;
    let tx_bytes: u8 = 2 + known_bits / 8;
    let end: usize = tx_bytes as usize + if tx_last_bits > 0 {
        1usize
    } else {
        0usize
    };
    proof {
        assert(tx_bytes <= 6 ==> (tx_bytes << 4) <= 96) by (bit_vector);
    }
    let nvb: u8 = (tx_bytes << 4) + tx_last_bits;
    let mut r: Vec<u8> = Vec::new();
    r.push(cmd);
    r.push(nvb);
    let mut i: usize = 0;
    while i + 2 < end
        invariant
            end <= 7,
            i <= 5,
            i + 2 <= end,
            uid5@.len() == 5,
            r@.len() == i + 2,
            r@[0] == cmd,
            r@[1] == nvb,
            forall|j: int| 2 <= j < i + 2 ==> #[trigger] r@[j] == uid5@[j - 2],
        decreases end - i,
    {
        r.push(uid5[i]);
        i = i + 1;
    }
    r
}

/// Builds the full select frame for one cascade level: the select command,
/// the number-of-valid-bits byte 0x70 (7 whole bytes), the level's 4 UID
/// bytes, and their block check character — the exclusive-or of the 4 UID
/// bytes.
pub fn build_select_frame(cmd: u8, uid5: &Vec<u8>) -> (r: Vec<u8>)
    requires
        uid5@.len() == 5,
    ensures
        r@.len() == 7,
        r@[0] == cmd,
        r@[1] == 0x70,
        r@[2] == uid5@[0],
        r@[3] == uid5@[1],
        r@[4] == uid5@[2],
        r@[5] == uid5@[3],
        r@[6] == (uid5@[0] ^ uid5@[1] ^ uid5@[2] ^ uid5@[3]),
{
    let mut r: Vec<u8> = Vec::new();
    r.push(cmd);
    r.push(0x70);
    r.push(uid5[0]);
    r.push(uid5[1]);
    r.push(uid5[2]);
    r.push(uid5[3]);
    r.push(uid5[0] ^ uid5[1] ^ uid5[2] ^ uid5[3]);
    r
}

/// Forces the bit at the (1-based) collision position to 1 in the working
/// UID frame: the standard's deterministic tie-break — always guess 1 and
/// let a disagreeing card drop out of the next round. Every other bit is
/// left unchanged.
pub fn force_tie_break(uid5: &mut Vec<u8>, known_bits: u8)
    requires
        1 <= known_bits <= 32,
        old(uid5)@.len() == 5,
    ensures
        final(uid5)@ == old(uid5)@.update(
            (known_bits - 1) as int / 8,
            (old(uid5)@[(known_bits - 1) as int / 8] | (1u8 << ((known_bits - 1) % 8))),
        ),
{
    let bit_idx: usize = ((known_bits - 1) / 8) as usize;
    let bit_off: u8 = (known_bits - 1) % 8;
    let cur = uid5[bit_idx];
    uid5.set(bit_idx, cur | (1u8 << bit_off));
}

} // verus!
