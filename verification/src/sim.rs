use vstd::prelude::*;
use crate::bus::{BusExchange, Transport};
use crate::picc;
use crate::register::{
    BUFFER_OVFL, COLL_ERR, CRC_IRQ, ERR_IRQ, IDLE_IRQ, RX_IRQ, TIMER_IRQ,
};

verus! {

/// One step of the ISO 14443-3 CRC_A (preset 0x6363, reflected polynomial):
/// folds one byte into the running check value.
pub open spec fn crc_step(crc: u16, b: u8) -> u16 {
    let ch1 = (b as u16) ^ (crc & 0xFF);
    let ch = (ch1 ^ (ch1 << 4)) & 0xFF;
    (crc >> 8) ^ (ch << 8) ^ (ch << 3) ^ (ch >> 4)
}

/// The CRC_A check value of a byte sequence.
pub open spec fn crc_a(data: Seq<u8>) -> u16
    decreases data.len(),
{
    if data.len() == 0 {
        0x6363
    } else {
        crc_step(crc_a(data.drop_last()), data.last())
    }
}

/// Folds one byte into a running CRC_A value.
pub fn crc_step_exec(crc: u16, b: u8) -> (r: u16)
    ensures
        r == crc_step(crc, b),
{
    let ch1: u16 = (b as u16) ^ (crc & 0xFF);
    let ch: u16 = (ch1 ^ (ch1 << 4)) & 0xFF;
    (crc >> 8) ^ (ch << 8) ^ (ch << 3) ^ (ch >> 4)
}

/// Computes the CRC_A check value of the first `len` bytes of `data`.
pub fn crc_a_exec(data: &Vec<u8>, len: usize) -> (r: u16)
    requires
        len <= data@.len(),
    ensures
        r == crc_a(data@.subrange(0, len as int)),
{
    let mut crc: u16 = 0x6363;
    let mut i: usize = 0;
    while i < len
        invariant
            i <= len,
            len <= data@.len(),
            crc == crc_a(data@.subrange(0, i as int)),
        decreases len - i,
    {
        crc = crc_step_exec(crc, data[i]);
        proof {
            assert(data@.subrange(0, i + 1 as int).drop_last() =~= data@.subrange(0, i as int));
        }
        i = i + 1;
    }
    crc
}

/// The simulated CRC coprocessor is deterministic: identical input bytes
/// always yield the identical check value, in every run.
pub proof fn lemma_crc_deterministic(a: Seq<u8>, b: Seq<u8>)
    requires
        a == b,
    ensures
        crc_a(a) == crc_a(b),
{
}

/// Splits a check value into its low and high bytes.
fn crc_bytes(crc: u16) -> (r: (u8, u8))
    ensures
        r.0 == (crc & 0xFF) as u8,
        r.1 == (crc >> 8) as u8,
{
    proof {
        assert(crc & 0xFF <= 0xFF) by (bit_vector);
        assert(crc >> 8 <= 0xFF) by (bit_vector);
    }
    ((crc & 0xFF) as u8, (crc >> 8) as u8)
}

/// The error type of the simulated bus.
#[derive(Clone, Copy, Debug, PartialEq, Eq, Structural)]
pub struct SimError;

/// A register-level simulation of the reader IC with one simulated card in
/// its field, usable wherever the driver expects a [`Transport`].
///
/// The simulation decodes the same wire format the driver emits: read
/// addresses stream register values (draining the FIFO one byte per clock
/// slot), write addresses update registers, and starting a transmission
/// runs the card model over the FIFO contents. Fault knobs inject
/// collision reports, wrong acknowledge shapes, halt answers and bus
/// failures, so callers can exercise every branch of the protocol.
pub struct SimBus {
    // the modeled reader registers
    command_reg: u8,
    com_irq: u8,
    div_irq: u8,
    error_reg: u8,
    coll_reg: u8,
    control_reg: u8,
    crc_lo: u8,
    crc_hi: u8,
    status2: u8,
    fifo: Vec<u8>,
    // the simulated card
    card_present: bool,
    uid: Vec<u8>,
    sak: u8,
    atqa0: u8,
    atqa1: u8,
    blocks: Vec<[u8; 16]>,
    pending_write: Option<u8>,
    // fault injection
    collision_plan: Vec<u8>,
    respond_to_halt: bool,
    nak_writes: bool,
    unresponsive: bool,
    fail_at: Option<u64>,
    // counters
    txns: u64,
    txns_gh: Ghost<nat>,
    hist: Ghost<Seq<BusExchange>>,
    anticollision_frames: u64,
}

impl SimBus {
    /// A simulated bus with no card in the field: every exchange with the
    /// card times out.
    pub fn new() -> (r: SimBus)
        ensures
            r.txn_count() == 0,
            r.history() == Seq::<BusExchange>::empty(),
    {
        SimBus {
            command_reg: 0,
            com_irq: 0,
            div_irq: 0,
            error_reg: 0,
            coll_reg: 0,
            control_reg: 0,
            crc_lo: 0,
            crc_hi: 0,
            status2: 0,
            fifo: Vec::new(),
            card_present: false,
            uid: Vec::new(),
            sak: 0,
            atqa0: 0,
            atqa1: 0,
            blocks: Vec::new(),
            pending_write: None,
            collision_plan: Vec::new(),
            respond_to_halt: false,
            nak_writes: false,
            unresponsive: false,
            fail_at: None,
            txns: 0,
            txns_gh: Ghost(0),
            hist: Ghost(Seq::empty()),
            anticollision_frames: 0,
        }
    }

    /// A simulated bus with one non-colliding card in the field. The UID
    /// should be 4, 7 or 10 bytes long; `sak` is the select acknowledge of
    /// the final cascade level, and the two ATQA bytes are answered to
    /// probes.
    pub fn with_card(uid: Vec<u8>, sak: u8, atqa0: u8, atqa1: u8) -> (r: SimBus)
        ensures
            r.txn_count() == 0,
            r.history() == Seq::<BusExchange>::empty(),
    {
        let mut bus = SimBus::new();
        bus.card_present = true;
        bus.uid = uid;
        bus.sak = sak;
        bus.atqa0 = atqa0;
        bus.atqa1 = atqa1;
        bus
    }

    /// Schedules collision reports: each entry is answered, in order, to
    /// one anticollision frame as a collision with that collision-register
    /// value, before the card answers honestly again.
    pub fn set_collision_plan(&mut self, plan: Vec<u8>) {
        self.collision_plan = plan;
    }

    /// Makes the card answer a halt command instead of staying silent, so
    /// the halt is not acknowledged.
    pub fn set_respond_to_halt(&mut self, v: bool) {
        self.respond_to_halt = v;
    }

    /// Makes the card acknowledge writes with a malformed shape (a whole
    /// byte instead of a 4-bit nibble).
    pub fn set_nak_writes(&mut self, v: bool) {
        self.nak_writes = v;
    }

    /// Makes the bus itself fail on the transaction with the given number
    /// (counting from 1).
    pub fn set_fail_at(&mut self, n: u64) {
        self.fail_at = Some(n);
    }

    /// Makes the reader stop raising interrupts on exchanges: register
    /// accesses still answer, but a transmission never completes and never
    /// times out, as when the reader IC itself has wedged.
    pub fn set_unresponsive(&mut self, v: bool) {
        self.unresponsive = v;
    }

    /// How many bus transactions this simulation has carried.
    pub fn transactions(&self) -> u64 {
        self.txns
    }

    /// How many anticollision frames the simulated card has seen.
    pub fn anticollision_frames(&self) -> u64 {
        self.anticollision_frames
    }

    /// The simulated card's stored contents of one block.
    pub fn block_contents(&self, block: u8) -> [u8; 16] {
        let b = block as usize;
        if b < self.blocks.len() {
            self.blocks[b]
        } else {
            [0u8; 16]
        }
    }

    /// The value a register read streams out; reading the FIFO drains it.
    fn read_register(&mut self, reg: u8) -> (r: u8)
        ensures
            final(self).txn_count() == old(self).txn_count(),
            final(self).hist@ == old(self).hist@,
    {
        if reg == 0x01 {
            // CommandReg
            self.command_reg
        } else if reg == 0x04 {
            // ComIrqReg
            self.com_irq
        } else if reg == 0x05 {
            // DivIrqReg
            self.div_irq
        } else if reg == 0x06 {
            // ErrorReg
            self.error_reg
        } else if reg == 0x09 {
            // FIFODataReg
            if self.fifo.len() > 0 {
                self.fifo.remove(0)
            } else {
                0
            }
        } else if reg == 0x0A {
            // FIFOLevelReg
            if self.fifo.len() > 64 {
                64
            } else {
                self.fifo.len() as u8
            }
        } else if reg == 0x0C {
            // ControlReg
            self.control_reg
        } else if reg == 0x0E {
            // CollReg
            self.coll_reg
        } else if reg == 0x08 {
            // Status2Reg
            self.status2
        } else if reg == 0x21 {
            // CRCResultRegHigh
            self.crc_hi
        } else if reg == 0x22 {
            // CRCResultRegLow
            self.crc_lo
        } else if reg == 0x37 {
            // VersionReg
            0x92
        } else {
            0
        }
    }

    /// Applies one register write, with its side effects.
    fn write_register(&mut self, reg: u8, val: u8)
        ensures
            final(self).txn_count() == old(self).txn_count(),
            final(self).hist@ == old(self).hist@,
    {
        if reg == 0x01 {
            // CommandReg
            let cmd = val & 0x0F;
            self.command_reg = cmd;
            if cmd == 0b1111 {
                // SoftReset: all state cleared, power-down over at once
                self.command_reg = 0;
                self.com_irq = 0;
                self.div_irq = 0;
                self.error_reg = 0;
                self.coll_reg = 0;
                self.control_reg = 0;
                self.status2 = 0;
                self.fifo.clear();
                self.pending_write = None;
            } else if cmd == 0b0011 {
                // CalcCRC: check value over the FIFO contents
                let crc = crc_a_exec(&self.fifo, self.fifo.len());
                let (lo, hi) = crc_bytes(crc);
                self.crc_lo = lo;
                self.crc_hi = hi;
                self.div_irq = self.div_irq | CRC_IRQ;
            } else if cmd == 0b1110 {
                // MFAuthent: succeeds silently when the frame carries the
                // final cascade level's 4 UID bytes; otherwise the card
                // never answers and the timer fires
                self.run_authent();
            }
        } else if reg == 0x04 {
            // ComIrqReg: bit 7 clear means "clear the masked bits"
            if val & 0x80 == 0 {
                self.com_irq = self.com_irq & !(val & 0x7F);
            } else {
                self.com_irq = self.com_irq | (val & 0x7F);
            }
        } else if reg == 0x05 {
            // DivIrqReg
            if val & 0x80 == 0 {
                self.div_irq = self.div_irq & !(val & 0x7F);
            } else {
                self.div_irq = self.div_irq | (val & 0x7F);
            }
        } else if reg == 0x09 {
            // FIFODataReg
            if self.fifo.len() < 64 {
                self.fifo.push(val);
            } else {
                self.error_reg = self.error_reg | BUFFER_OVFL;
            }
        } else if reg == 0x0A {
            // FIFOLevelReg: bit 7 flushes
            if val & 0x80 != 0 {
                self.fifo.clear();
            }
        } else if reg == 0x0D {
            // BitFramingReg: bit 7 starts the transmission
            if val & 0x80 != 0 && self.command_reg == 0b1100 {
                self.run_transceive(val & 0b0111);
            }
        } else if reg == 0x0E {
            // CollReg
            self.coll_reg = val;
        } else if reg == 0x08 {
            // Status2Reg
            self.status2 = val;
        }
        // other registers hold configuration the simulation does not model
    }

    /// The 4 cascade bytes and check character the card answers at one
    /// cascade level: its UID bytes, led by the cascade tag on levels that
    /// do not complete the UID.
    fn level_frame(&self, level: u8) -> (r: Vec<u8>)
        ensures
            r@.len() == 5,
    {
        let n = self.uid.len();
        let mut cb0: u8 = 0;
        let mut cb1: u8 = 0;
        let mut cb2: u8 = 0;
        let mut cb3: u8 = 0;
        if level == 0 {
            if n == 4 {
                cb0 = self.uid[0];
                cb1 = self.uid[1];
                cb2 = self.uid[2];
                cb3 = self.uid[3];
            } else if n == 7 || n == 10 {
                cb0 = picc::CASCADE_TAG;
                cb1 = self.uid[0];
                cb2 = self.uid[1];
                cb3 = self.uid[2];
            }
        } else if level == 1 {
            if n == 7 {
                cb0 = self.uid[3];
                cb1 = self.uid[4];
                cb2 = self.uid[5];
                cb3 = self.uid[6];
            } else if n == 10 {
                cb0 = picc::CASCADE_TAG;
                cb1 = self.uid[3];
                cb2 = self.uid[4];
                cb3 = self.uid[5];
            }
        } else {
            if n == 10 {
                cb0 = self.uid[6];
                cb1 = self.uid[7];
                cb2 = self.uid[8];
                cb3 = self.uid[9];
            }
        }
        let mut r: Vec<u8> = Vec::new();
        r.push(cb0);
        r.push(cb1);
        r.push(cb2);
        r.push(cb3);
        r.push(cb0 ^ cb1 ^ cb2 ^ cb3);
        r
    }

    /// The select acknowledge the card answers at one cascade level: the
    /// cascade bit on levels that do not complete the UID, the configured
    /// final value otherwise.
    fn sak_for_level(&self, level: u8) -> u8 {
        let n = self.uid.len();
        let complete = (level == 0 && n == 4) || (level == 1 && n == 7) || (level == 2 && n
            == 10);
        if complete {
            self.sak
        } else {
            0x04
        }
    }

    /// Answers a MIFARE acknowledge: the 4-bit nibble, or a malformed
    /// whole-byte shape when writes are set to be refused.
    fn respond_ack(&mut self)
        ensures
            final(self).txn_count() == old(self).txn_count(),
            final(self).hist@ == old(self).hist@,
    {
        self.fifo.clear();
        self.fifo.push(picc::MIFARE_ACK);
        if self.nak_writes {
            self.control_reg = 0;
        } else {
            self.control_reg = 4;
        }
        self.com_irq = self.com_irq | (RX_IRQ | IDLE_IRQ);
    }

    /// Runs the MIFARE authentication command over the loaded frame.
    fn run_authent(&mut self)
        ensures
            final(self).txn_count() == old(self).txn_count(),
            final(self).hist@ == old(self).hist@,
    {
        let ok = self.card_present && self.fifo.len() == 12 && self.auth_uid_matches();
        self.fifo.clear();
        if ok {
            self.com_irq = self.com_irq | IDLE_IRQ;
        } else {
            self.com_irq = self.com_irq | TIMER_IRQ;
        }
    }

    /// Whether the last 4 bytes of a 12-byte authentication frame carry the
    /// final cascade level's UID bytes.
    fn auth_uid_matches(&self) -> bool {
        let n = self.uid.len();
        if self.fifo.len() != 12 || n < 4 {
            return false;
        }
        let mut i: usize = 0;
        let mut ok = true;
        while i < 4
            invariant
                i <= 4,
                self.fifo@.len() == 12,
                n == self.uid@.len(),
                n >= 4,
            decreases 4 - i,
        {
            if self.fifo[8 + i] != self.uid[n - 4 + i] {
                ok = false;
            }
            i = i + 1;
        }
        ok
    }

    /// Runs the card model over one transmitted frame: the FIFO holds the
    /// frame on entry and the card's answer (if any) on exit.
    fn run_transceive(&mut self, tx_last_bits: u8)
        ensures
            final(self).txn_count() == old(self).txn_count(),
            final(self).hist@ == old(self).hist@,
    {
        // drain the transmitted frame
        let mut frame: Vec<u8> = Vec::new();
        let mut i: usize = 0;
        let flen = self.fifo.len();
        while i < flen
            invariant
                i <= flen,
                self.fifo@.len() == flen,
            decreases flen - i,
        {
            frame.push(self.fifo[i]);
            i = i + 1;
        }
        self.fifo.clear();
        self.error_reg = 0;
        self.control_reg = 0;
        if self.unresponsive {
            // no completion, no error, no timer: the interrupt register
            // stays silent
            return ;
        }
        if !self.card_present {
            self.com_irq = self.com_irq | TIMER_IRQ;
            return ;
        }
        // a pending write command means this frame is the data phase
        if self.pending_write.is_some() {
            let block = match self.pending_write {
                Some(b) => b,
                None => 0,
            };
            self.pending_write = None;
            if frame.len() == 18 {
                self.store_block(block, &frame);
            }
            self.respond_ack();
            return ;
        }
        if frame.len() == 0 {
            self.com_irq = self.com_irq | TIMER_IRQ;
            return ;
        }
        let c0 = frame[0];
        if (c0 == picc::REQA || c0 == picc::WUPA) && tx_last_bits == 7 {
            self.fifo.push(self.atqa0);
            self.fifo.push(self.atqa1);
            self.com_irq = self.com_irq | (RX_IRQ | IDLE_IRQ);
            return ;
        }
        if c0 == picc::HLTA {
            if self.respond_to_halt {
                // any modulation in the guard window: the halt was not taken
                self.fifo.push(0);
                self.com_irq = self.com_irq | (RX_IRQ | IDLE_IRQ);
            } else {
                self.com_irq = self.com_irq | TIMER_IRQ;
            }
            return ;
        }
        if c0 == picc::SEL_CL1 || c0 == picc::SEL_CL2 || c0 == picc::SEL_CL3 {
            let level: u8 = if c0 == picc::SEL_CL1 {
                0
            } else if c0 == picc::SEL_CL2 {
                1
            } else {
                2
            };
            if frame.len() < 2 {
                self.com_irq = self.com_irq | TIMER_IRQ;
                return ;
            }
            let nvb = frame[1];
            if nvb == 0x70 {
                // a full select frame: answer the SAK with its check value
                let sak = self.sak_for_level(level);
                self.fifo.push(sak);
                let mut one: Vec<u8> = Vec::new();
                one.push(sak);
                let crc = crc_a_exec(&one, 1);
                let (lo, hi) = crc_bytes(crc);
                self.fifo.push(lo);
                self.fifo.push(hi);
                self.com_irq = self.com_irq | (RX_IRQ | IDLE_IRQ);
                return ;
            }
            self.run_anticollision(level, nvb);
            return ;
        }
        if c0 == picc::MF_READ && frame.len() >= 2 {
            let data = self.block_contents(frame[1]);
            let mut resp: Vec<u8> = Vec::new();
            let mut k: usize = 0;
            while k < 16
                invariant
                    k <= 16,
                    resp@.len() == k,
                decreases 16 - k,
            {
                resp.push(data[k]);
                k = k + 1;
            }
            let crc = crc_a_exec(&resp, 16);
            let (lo, hi) = crc_bytes(crc);
            resp.push(lo);
            resp.push(hi);
            self.fifo = resp;
            self.com_irq = self.com_irq | (RX_IRQ | IDLE_IRQ);
            return ;
        }
        if c0 == picc::MF_WRITE && frame.len() >= 2 {
            self.pending_write = Some(frame[1]);
            self.respond_ack();
            return ;
        }
        // anything else the card does not understand: silence
        self.com_irq = self.com_irq | TIMER_IRQ;
    }

    /// One anticollision frame within a cascade level.
    fn run_anticollision(&mut self, level: u8, nvb: u8)
        ensures
            final(self).txn_count() == old(self).txn_count(),
            final(self).hist@ == old(self).hist@,
    {
        if self.anticollision_frames < u64::MAX {
            self.anticollision_frames = self.anticollision_frames + 1;
        }
        let whole = nvb >> 4;
        let bits = nvb & 0x0F;
        if whole < 2 || whole > 6 || bits > 7 {
            self.com_irq = self.com_irq | TIMER_IRQ;
            return ;
        }
        // the transmitted prefix: this many UID bits were already known
        let kb: u8 = (whole - 2) * 8 + bits;
        let lf = self.level_frame(level);
        if self.collision_plan.len() > 0 {
            // an injected collision: report the scheduled position and
            // answer the bits received before the colliding one
            let c = self.collision_plan.remove(0);
            self.error_reg = self.error_reg | COLL_ERR;
            self.coll_reg = c;
            self.com_irq = self.com_irq | ERR_IRQ;
            let pos: u8 = if c & 0x1F == 0 {
                32
            } else {
                c & 0x1F
            };
            proof {
                assert(c & 0x1F <= 31) by (bit_vector);
            }
            if pos >= 2 && kb + 2 <= pos && kb <= 32 {
                let last_bit: u8 = pos - 2;
                let first_byte: usize = (kb / 8) as usize;
                let last_byte: usize = (last_bit / 8) as usize;
                let ghost counted = self.txn_count();
                let ghost kept = self.hist@;
                let mut idx = first_byte;
                while idx <= last_byte && idx < 5
                    invariant
                        lf@.len() == 5,
                        last_bit <= 30,
                        self.txn_count() == counted,
                        self.hist@ == kept,
                    decreases 5 - idx,
                {
                    let mut byte = lf[idx];
                    if idx == first_byte {
                        byte = byte & (0xFFu8 << (kb % 8));
                    }
                    if idx == last_byte {
                        byte = byte & (0xFFu8 >> (7 - (last_bit % 8)));
                    }
                    self.fifo.push(byte);
                    idx = idx + 1;
                }
                self.control_reg = (pos - 1) % 8;
            }
            return ;
        }
        // the honest card: the rest of the level frame, bit-aligned so the
        // first answered bit lands right after the known ones
        let first_byte: usize = (kb / 8) as usize;
        if first_byte >= 5 {
            self.com_irq = self.com_irq | TIMER_IRQ;
            return ;
        }
        let head = lf[first_byte] & (0xFFu8 << (kb % 8));
        self.fifo.push(head);
        let ghost counted = self.txn_count();
        let ghost kept = self.hist@;
        let mut idx = first_byte + 1;
        while idx < 5
            invariant
                lf@.len() == 5,
                idx >= 1,
                self.txn_count() == counted,
                self.hist@ == kept,
            decreases 5 - idx,
        {
            self.fifo.push(lf[idx]);
            idx = idx + 1;
        }
        self.control_reg = 0;
        self.com_irq = self.com_irq | (RX_IRQ | IDLE_IRQ);
    }

    /// Stores the data phase of a write into the simulated card's memory.
    fn store_block(&mut self, block: u8, frame: &Vec<u8>)
        requires
            frame@.len() >= 16,
        ensures
            final(self).txn_count() == old(self).txn_count(),
            final(self).hist@ == old(self).hist@,
    {
        let b = block as usize;
        let ghost counted = self.txn_count();
        let ghost kept = self.hist@;
        while self.blocks.len() <= b
            invariant
                b < 256,
                self.txn_count() == counted,
                self.hist@ == kept,
            decreases 256 - self.blocks.len(),
        {
            self.blocks.push([0u8; 16]);
        }
        let mut data: [u8; 16] = [0u8; 16];
        let mut i: usize = 0;
        while i < 16
            invariant
                i <= 16,
                frame@.len() >= 16,
            decreases 16 - i,
        {
            data[i] = frame[i];
            i = i + 1;
        }
        self.blocks.set(b, data);
    }

    /// Counts one transaction and reports whether the bus is scheduled to
    /// fail on it.
    fn count_transaction(&mut self) -> (fail: bool)
        ensures
            final(self).txn_count() == old(self).txn_count() + 1,
            final(self).hist@ == old(self).hist@,
    {
        proof {
            self.txns_gh@ = self.txns_gh@ + 1;
        }
        if self.txns < u64::MAX {
            self.txns = self.txns + 1;
        }
        match self.fail_at {
            Some(n) => self.txns == n,
            None => false,
        }
    }
}

impl Transport for SimBus {
    type BusErr = SimError;

    closed spec fn history(&self) -> Seq<BusExchange> {
        self.hist@
    }

    closed spec fn txn_count(&self) -> nat {
        self.txns_gh@
    }

    fn transfer(&mut self, buffer: &mut Vec<u8>) -> (r: Result<(), SimError>) {
        if self.count_transaction() {
            return Err(SimError);
        }
        if buffer.len() == 0 {
            proof {
                self.hist@ = self.hist@.push(
                    BusExchange { sent: old(buffer)@, received: buffer@ },
                );
            }
            return Ok(());
        }
        let first = buffer[0];
        let reg = (first >> 1) & 0x3F;
        let n = buffer.len();
        let ghost counted = self.txn_count();
        let ghost kept = self.hist@;
        if first & 0x80 != 0 {
            // a read access streams the register's value into every clock
            // slot after the address byte
            let mut i: usize = 1;
            while i < n
                invariant
                    buffer@.len() == n,
                    i >= 1,
                    self.txn_count() == counted,
                    self.hist@ == kept,
                decreases n - i,
            {
                let v = self.read_register(reg);
                buffer.set(i, v);
                i = i + 1;
            }
            proof {
                self.hist@ = self.hist@.push(
                    BusExchange { sent: old(buffer)@, received: buffer@ },
                );
            }
            Ok(())
        } else {
            let mut i: usize = 1;
            while i < n
                invariant
                    buffer@.len() == n,
                    i >= 1,
                    self.txn_count() == counted,
                    self.hist@ == kept,
                decreases n - i,
            {
                let v = buffer[i];
                self.write_register(reg, v);
                i = i + 1;
            }
            proof {
                self.hist@ = self.hist@.push(
                    BusExchange { sent: old(buffer)@, received: buffer@ },
                );
            }
            Ok(())
        }
    }

    fn write_bytes(&mut self, buffer: &Vec<u8>) -> (r: Result<(), SimError>) {
        if self.count_transaction() {
            return Err(SimError);
        }
        if buffer.len() == 0 {
            proof {
                self.hist@ = self.hist@.push(
                    BusExchange { sent: buffer@, received: Seq::empty() },
                );
            }
            return Ok(());
        }
        let first = buffer[0];
        let reg = (first >> 1) & 0x3F;
        let mut i: usize = 1;
        let n = buffer.len();
        let ghost counted = self.txn_count();
        let ghost kept = self.hist@;
        while i < n
            invariant
                buffer@.len() == n,
                i >= 1,
                self.txn_count() == counted,
                self.hist@ == kept,
            decreases n - i,
        {
            let v = buffer[i];
            self.write_register(reg, v);
            i = i + 1;
        }
        proof {
            self.hist@ = self.hist@.push(BusExchange { sent: buffer@, received: Seq::empty() });
        }
        Ok(())
    }
}

} // verus!
