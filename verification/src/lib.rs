//! Driver library for an MFRC522-class contactless-card reader IC (the PCD),
//! speaking the ISO 14443-3 Type A initialization and anticollision protocol
//! plus the MIFARE block-level authenticate/read/write extension, over a
//! register-oriented byte transport.
//!
//! The driver resolves a card's unique identifier (UID) of 4, 7 or 10 bytes
//! through up to three cascade levels, drives the IC's CRC_A coprocessor, and
//! reads and writes 16-byte MIFARE blocks. A typestate marker makes protocol
//! operations available only after [`Mfrc522::init`] has run.

pub mod bus;
pub mod driver;
pub mod error;
pub mod fifo;
pub mod logic;
pub mod picc;
pub mod register;
pub mod sim;
mod util;

pub use driver::GenericUid;
pub use driver::Initialized;
pub use driver::Mfrc522;
pub use driver::MifareKey;
pub use driver::State;
pub use driver::Uid;
pub use driver::Uninitialized;
pub use driver::WithNssDelay;
pub use logic::AtqA;
pub use util::DummyDelay;
pub use util::DummyNSS;
