//! Polling driver core for a CAN 2.0 controller with three transmit
//! mailboxes, two receive FIFOs and a bank of acceptance filters.
//!
//! The driver owns a [`CanController`], the register block of one peripheral
//! instance, and records every access it makes to it in a ghost trace. The
//! contracts of the driver's operations say which registers are read and
//! written, in which order, with which values, and how each result follows
//! from the values that the hardware returned.

pub mod can;
pub mod enums;
pub mod filter_memory;
pub mod frame;
pub mod layout;
pub mod registers;
pub mod util;

pub use can::Can;
pub use enums::{CanError, CanFifo, CanFilter, CanFilterMode, CanMode, CanModeRegs, TransmitOutcome, TxStatus};
pub use frame::{CanFrame, StandardId};
pub use util::NominalBitTiming;
pub use registers::{Access, CanController, Register, Registers};
