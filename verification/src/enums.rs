//! Modes, FIFOs, filters, and the outcomes and errors of the driver.

use vstd::prelude::*;

verus! {

/// Operating mode of the controller: two independent test bits.
#[derive(Clone, Copy, Debug, PartialEq, Eq)]
pub enum CanMode {
    /// Transmits to and receives from the bus.
    Normal,
    /// Listens to the bus without driving it.
    Silent,
    /// Receives its own transmissions, and drives the bus.
    Loopback,
    /// Receives its own transmissions, detached from the bus.
    SilentLoopback,
}

/// The two mode bits of the bit timing register.
#[derive(Clone, Copy, Debug, PartialEq, Eq)]
pub struct CanModeRegs {
    /// Loopback bit.
    pub lbkm: bool,
    /// Silent bit.
    pub silm: bool,
}

impl CanMode {
    /// Whether the controller receives its own transmissions.
    pub open spec fn loopback(self) -> bool {
        self is Loopback || self is SilentLoopback
    }

    /// Whether the controller is kept from driving the bus.
    pub open spec fn silent(self) -> bool {
        self is Silent || self is SilentLoopback
    }

    /// The register bits that select this mode.
    pub fn regs(&self) -> (bits: CanModeRegs)
        ensures
            bits.lbkm == self.loopback(),
            bits.silm == self.silent(),
    {
        match self {
            CanMode::Normal => CanModeRegs { lbkm: false, silm: false },
            CanMode::Silent => CanModeRegs { lbkm: false, silm: true },
            CanMode::Loopback => CanModeRegs { lbkm: true, silm: false },
            CanMode::SilentLoopback => CanModeRegs { lbkm: true, silm: true },
        }
    }
}

/// One of the two receive FIFOs of the controller.
#[derive(Clone, Copy, Debug, PartialEq, Eq, Hash)]
pub enum CanFifo {
    Fifo0,
    Fifo1,
}

impl CanFifo {
    /// The value of a bank's bit in the filter assignment register that
    /// routes accepted frames to this FIFO.
    pub open spec fn bit(self) -> bool {
        self is Fifo1
    }

    /// Computes [`CanFifo::bit`].
    pub fn val_bool(&self) -> (bit: bool)
        ensures
            bit == self.bit(),
    {
        match self {
            CanFifo::Fifo0 => false,
            CanFifo::Fifo1 => true,
        }
    }
}

/// How a filter bank compares an incoming identifier with its two words.
#[derive(Clone, Copy, Debug, PartialEq, Eq)]
pub enum CanFilterMode {
    /// The first word is a pattern, the second says which of its bits must match.
    MaskMatch,
    /// Each word is a pattern that must match in full.
    IdentifierList,
}

impl CanFilterMode {
    /// The value of a bank's bit in the filter mode register.
    pub open spec fn bit(self) -> bool {
        self is IdentifierList
    }

    /// Computes [`CanFilterMode::bit`].
    pub fn val_bool(&self) -> (bit: bool)
        ensures
            bit == self.bit(),
    {
        match self {
            CanFilterMode::MaskMatch => false,
            CanFilterMode::IdentifierList => true,
        }
    }
}

/// Number of filter banks.
pub const FILTER_BANKS: usize = 28;

/// What is programmed into a filter bank.
pub struct Filter {
    pub bank: usize,
    pub mode: CanFilterMode,
    pub id_value: u32,
    pub id_mask: u32,
}

/// Acceptance filter for one bank, in the single 32-bit scale.
#[derive(Clone, Copy, Debug, PartialEq, Eq)]
pub struct CanFilter {
    bank: usize,
    mode: CanFilterMode,
    id_value: u32,
    id_mask: u32,
}

impl View for CanFilter {
    type V = Filter;

    closed spec fn view(&self) -> Filter {
        Filter { bank: self.bank, mode: self.mode, id_value: self.id_value, id_mask: self.id_mask }
    }
}

impl CanFilter {
    #[verifier::type_invariant]
    closed spec fn valid(self) -> bool {
        self.bank < FILTER_BANKS
    }

    /// The filter for `bank`, unless there is no such bank.
    pub fn new(bank: usize, mode: CanFilterMode, id_value: u32, id_mask: u32) -> (filter: Option<Self>)
        ensures
            filter is Some <==> bank < FILTER_BANKS,
            filter is Some ==> filter.unwrap()@ == (Filter { bank, mode, id_value, id_mask }),
    {
        if bank < FILTER_BANKS {
            Some(CanFilter { bank, mode, id_value, id_mask })
        } else {
            None
        }
    }

    /// The filter in bank 0 whose mask compares no bit, so that every
    /// identifier matches.
    pub fn accept_all() -> (filter: Self)
        ensures
            filter@ == (Filter { bank: 0, mode: CanFilterMode::MaskMatch, id_value: 0, id_mask: 0 }),
    {
        CanFilter { bank: 0, mode: CanFilterMode::MaskMatch, id_value: 0, id_mask: 0 }
    }

    /// Index of the bank.
    pub fn bank(&self) -> (bank: usize)
        ensures
            bank == self@.bank,
            bank < FILTER_BANKS,
    {
        proof {
            use_type_invariant(self);
        }
        self.bank
    }

    /// The matching scheme.
    pub fn mode(&self) -> (mode: CanFilterMode)
        ensures
            mode == self@.mode,
    {
        self.mode
    }

    /// The first word: a pattern.
    pub fn id_value(&self) -> (id_value: u32)
        ensures
            id_value == self@.id_value,
    {
        self.id_value
    }

    /// The second word: a mask, or a second pattern.
    pub fn id_mask(&self) -> (id_mask: u32)
        ensures
            id_mask == self@.id_mask,
    {
        self.id_mask
    }

    /// Index of the filter word that holds the first pattern.
    pub fn fr_id_value_reg(&self) -> (index: usize)
        ensures
            index == 2 * self@.bank,
            index < 2 * FILTER_BANKS,
    {
        proof {
            use_type_invariant(self);
        }
        self.bank * 2
    }

    /// Index of the filter word that holds the mask or the second pattern.
    pub fn fr_id_mask_reg(&self) -> (index: usize)
        ensures
            index == 2 * self@.bank + 1,
            index < 2 * FILTER_BANKS,
    {
        proof {
            use_type_invariant(self);
        }
        self.bank * 2 + 1
    }
}

impl Default for CanFilter {
    fn default() -> (filter: Self)
        ensures
            filter@ == (Filter { bank: 0, mode: CanFilterMode::MaskMatch, id_value: 0, id_mask: 0 }),
    {
        CanFilter::accept_all()
    }
}

/// How a transmission ended.
#[derive(Clone, Copy, Debug, PartialEq, Eq)]
pub enum TxStatus {
    /// The frame was sent and acknowledged.
    Sent,
    /// The polling budget ran out before the mailbox reported anything.
    TimeoutError,
    /// Another node won arbitration.
    ArbitrationLost,
    /// The hardware reported a transmit error.
    OtherError,
}

/// Result of handing a frame to the transmitter.
#[derive(Clone, Copy, Debug, PartialEq, Eq)]
pub enum TransmitOutcome {
    /// No mailbox was empty; nothing was written.
    MailboxesFull,
    /// The frame was loaded into `mailbox`, and the transmission ended with `status`.
    Attempted { mailbox: usize, status: TxStatus },
}

/// Failure to bring the controller into a configured state.
#[derive(Clone, Copy, Debug, PartialEq, Eq)]
pub enum CanError {
    /// The controller did not acknowledge the request to enter initialization.
    EnterInitTimeout,
    /// No bit timing gives the bitrate exactly from the clock.
    BitTimingUnsatisfiable,
    /// The controller did not acknowledge the request to leave initialization.
    LeaveInitTimeout,
}

} // verus!
