use vstd::prelude::*;

verus! {

/// REQuest type A: probes for cards in the IDLE state (short frame, 7 bits).
pub const REQA: u8 = 0x26;

/// Wake-UP type A: probes for cards in the IDLE or HALT state (short frame, 7 bits).
pub const WUPA: u8 = 0x52;

/// HaLT type A: puts a selected card into the HALT state.
pub const HLTA: u8 = 0x50;

/// Select / anticollision command for cascade level 1.
pub const SEL_CL1: u8 = 0x93;

/// Select / anticollision command for cascade level 2.
pub const SEL_CL2: u8 = 0x95;

/// Select / anticollision command for cascade level 3.
pub const SEL_CL3: u8 = 0x97;

/// Cascade tag: first byte of a cascade level that does not complete the UID.
pub const CASCADE_TAG: u8 = 0x88;

/// MIFARE authentication with key A.
pub const MF_AUTH_KEY_A: u8 = 0x60;

/// MIFARE 16-byte block read.
pub const MF_READ: u8 = 0x30;

/// MIFARE 16-byte block write.
pub const MF_WRITE: u8 = 0xA0;

/// The 4-bit MIFARE acknowledge nibble.
pub const MIFARE_ACK: u8 = 0xA;

/// Select AcKnowledge: the one-byte answer of a card to a selection command.
///
/// Two of its bits are meaningful: bit 2 reports that the cascade is not
/// complete yet, bit 5 reports ISO 14443-4 compliance.
#[derive(Clone, Copy, Debug, PartialEq, Eq, Structural)]
pub struct Sak {
    pub byte: u8,
}

impl Sak {
    /// Wraps a raw SAK byte.
    pub fn from_byte(byte: u8) -> (r: Sak)
        ensures
            r.byte == byte,
    {
        Sak { byte }
    }

    /// True when the cascade is complete: bit 2 ("cascade bit") is clear.
    pub fn is_complete(&self) -> (r: bool)
        ensures
            r == (self.byte & 0x04 == 0),
    {
        self.byte & 0x04 == 0
    }

    /// True when the card is ISO 14443-4 compliant: bit 5 is set.
    pub fn is_compliant(&self) -> (r: bool)
        ensures
            r == (self.byte & 0x20 != 0),
    {
        self.byte & 0x20 != 0
    }
}

} // verus!
