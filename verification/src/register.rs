use vstd::prelude::*;

verus! {

/// The addressable registers of the reader IC.
///
/// Each variant maps to a fixed 6-bit address; reading and writing use
/// different wire encodings of that address (see [`Register::read_address`]
/// and [`Register::write_address`]).
#[derive(Clone, Copy, Debug)]
pub enum Register {
    CommandReg,
    ComlEnReg,
    DivlEnReg,
    ComIrqReg,
    DivIrqReg,
    ErrorReg,
    Status1Reg,
    Status2Reg,
    FIFODataReg,
    FIFOLevelReg,
    WaterLevelReg,
    ControlReg,
    BitFramingReg,
    CollReg,
    ModeReg,
    TxModeReg,
    RxModeReg,
    TxControlReg,
    TxASKReg,
    TxSelReg,
    RxSelReg,
    RxThresholdReg,
    DemodReg,
    MfTxReg,
    MfRxReg,
    SerialSpeedReg,
    CRCResultRegHigh,
    CRCResultRegLow,
    ModWidthReg,
    RFCfgReg,
    GsNReg,
    CWGsPReg,
    ModGsPReg,
    TModeReg,
    TPrescalerReg,
    TReloadRegHigh,
    TReloadRegLow,
    TCounterValRegHigh,
    TCounterValRegLow,
    VersionReg,
}

impl Register {
    /// The register's 6-bit address.
    pub open spec fn spec_addr(self) -> u8 {
        match self {
            Register::CommandReg => 0x01,
            Register::ComlEnReg => 0x02,
            Register::DivlEnReg => 0x03,
            Register::ComIrqReg => 0x04,
            Register::DivIrqReg => 0x05,
            Register::ErrorReg => 0x06,
            Register::Status1Reg => 0x07,
            Register::Status2Reg => 0x08,
            Register::FIFODataReg => 0x09,
            Register::FIFOLevelReg => 0x0A,
            Register::WaterLevelReg => 0x0B,
            Register::ControlReg => 0x0C,
            Register::BitFramingReg => 0x0D,
            Register::CollReg => 0x0E,
            Register::ModeReg => 0x11,
            Register::TxModeReg => 0x12,
            Register::RxModeReg => 0x13,
            Register::TxControlReg => 0x14,
            Register::TxASKReg => 0x15,
            Register::TxSelReg => 0x16,
            Register::RxSelReg => 0x17,
            Register::RxThresholdReg => 0x18,
            Register::DemodReg => 0x19,
            Register::MfTxReg => 0x1C,
            Register::MfRxReg => 0x1D,
            Register::SerialSpeedReg => 0x1F,
            Register::CRCResultRegHigh => 0x21,
            Register::CRCResultRegLow => 0x22,
            Register::ModWidthReg => 0x24,
            Register::RFCfgReg => 0x26,
            Register::GsNReg => 0x27,
            Register::CWGsPReg => 0x28,
            Register::ModGsPReg => 0x29,
            Register::TModeReg => 0x2A,
            Register::TPrescalerReg => 0x2B,
            Register::TReloadRegHigh => 0x2C,
            Register::TReloadRegLow => 0x2D,
            Register::TCounterValRegHigh => 0x2E,
            Register::TCounterValRegLow => 0x2F,
            Register::VersionReg => 0x37,
        }
    }

    /// The register's 6-bit address.
    pub fn addr(self) -> (r: u8)
        ensures
            r == self.spec_addr(),
            r <= 0x3F,
    {
        match self {
            Register::CommandReg => 0x01,
            Register::ComlEnReg => 0x02,
            Register::DivlEnReg => 0x03,
            Register::ComIrqReg => 0x04,
            Register::DivIrqReg => 0x05,
            Register::ErrorReg => 0x06,
            Register::Status1Reg => 0x07,
            Register::Status2Reg => 0x08,
            Register::FIFODataReg => 0x09,
            Register::FIFOLevelReg => 0x0A,
            Register::WaterLevelReg => 0x0B,
            Register::ControlReg => 0x0C,
            Register::BitFramingReg => 0x0D,
            Register::CollReg => 0x0E,
            Register::ModeReg => 0x11,
            Register::TxModeReg => 0x12,
            Register::RxModeReg => 0x13,
            Register::TxControlReg => 0x14,
            Register::TxASKReg => 0x15,
            Register::TxSelReg => 0x16,
            Register::RxSelReg => 0x17,
            Register::RxThresholdReg => 0x18,
            Register::DemodReg => 0x19,
            Register::MfTxReg => 0x1C,
            Register::MfRxReg => 0x1D,
            Register::SerialSpeedReg => 0x1F,
            Register::CRCResultRegHigh => 0x21,
            Register::CRCResultRegLow => 0x22,
            Register::ModWidthReg => 0x24,
            Register::RFCfgReg => 0x26,
            Register::GsNReg => 0x27,
            Register::CWGsPReg => 0x28,
            Register::ModGsPReg => 0x29,
            Register::TModeReg => 0x2A,
            Register::TPrescalerReg => 0x2B,
            Register::TReloadRegHigh => 0x2C,
            Register::TReloadRegLow => 0x2D,
            Register::TCounterValRegHigh => 0x2E,
            Register::TCounterValRegLow => 0x2F,
            Register::VersionReg => 0x37,
        }
    }

    /// Wire encoding of a register address for a read access:
    /// the address shifted left by one with bit 7 set.
    pub open spec fn spec_read_address(self) -> u8 {
        (self.spec_addr() << 1) | 0x80
    }

    /// Wire encoding of a register address for a write access:
    /// the address shifted left by one with bit 7 clear.
    pub open spec fn spec_write_address(self) -> u8 {
        self.spec_addr() << 1
    }

    /// Wire encoding of a register address for a read access:
    /// the address shifted left by one with bit 7 set.
    pub fn read_address(self) -> (r: u8)
        ensures
            r == self.spec_read_address(),
    {
        (self.addr() << 1) | 0x80
    }

    /// Wire encoding of a register address for a write access:
    /// the address shifted left by one with bit 7 clear.
    pub fn write_address(self) -> (r: u8)
        ensures
            r == self.spec_write_address(),
    {
        self.addr() << 1
    }
}

/// Operation opcodes of the reader IC.
#[derive(Clone, Copy, Debug)]
pub enum Command {
    /// No action, cancels the current command
    Idle,
    /// Activates the CRC coprocessor
    CalcCRC,
    /// Transmits the FIFO contents and activates the receiver afterwards
    Transceive,
    /// Performs the MIFARE standard authentication as a reader
    MFAuthent,
    /// Resets the reader IC
    SoftReset,
}

impl Command {
    /// The opcode written to the command register.
    pub open spec fn spec_code(self) -> u8 {
        match self {
            Command::Idle => 0b0000,
            Command::CalcCRC => 0b0011,
            Command::Transceive => 0b1100,
            Command::MFAuthent => 0b1110,
            Command::SoftReset => 0b1111,
        }
    }

    /// The opcode written to the command register.
    pub fn code(self) -> (r: u8)
        ensures
            r == self.spec_code(),
    {
        match self {
            Command::Idle => 0b0000,
            Command::CalcCRC => 0b0011,
            Command::Transceive => 0b1100,
            Command::MFAuthent => 0b1110,
            Command::SoftReset => 0b1111,
        }
    }
}

/// Bit in the command register that reports the power-down state.
pub const POWER_DOWN: u8 = 0x10;

/// Bit in the FIFO level register that flushes the FIFO when written.
pub const FLUSH_BUFFER: u8 = 0x80;

/// Bit in the TxASK register that forces 100% ASK modulation.
pub const FORCE_100_ASK: u8 = 0x40;

/// Receive-complete bit of the interrupt status register.
pub const RX_IRQ: u8 = 0x20;

/// Idle bit of the interrupt status register.
pub const IDLE_IRQ: u8 = 0x10;

/// Error bit of the interrupt status register.
pub const ERR_IRQ: u8 = 0x02;

/// Timer-expiry bit of the interrupt status register.
pub const TIMER_IRQ: u8 = 0x01;

/// CRC-done bit of the auxiliary interrupt register.
pub const CRC_IRQ: u8 = 0x04;

/// Protocol-error flag of the error register.
pub const PROTOCOL_ERR: u8 = 0x01;

/// Parity-error flag of the error register.
pub const PARITY_ERR: u8 = 0x02;

/// CRC-error flag of the error register.
pub const CRC_ERR: u8 = 0x04;

/// Collision flag of the error register.
pub const COLL_ERR: u8 = 0x08;

/// FIFO-overflow flag of the error register.
pub const BUFFER_OVFL: u8 = 0x10;

/// Overheating flag of the error register.
pub const TEMP_ERR: u8 = 0x40;

/// Write-at-invalid-time flag of the error register.
pub const WR_ERR: u8 = 0x80;

} // verus!
