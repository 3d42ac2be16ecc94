//! Where the bits lie in the registers, and what the status words mean.

use vstd::prelude::*;
use crate::enums::{CanMode, TxStatus};
use crate::frame::{identifier_field, length_field, MAX_DATA_LENGTH, MAX_STANDARD_ID};
use crate::util::{NominalBitTiming, Timing};

verus! {

/// Number of transmit mailboxes.
pub const MAILBOXES: usize = 3;

/// Control register: request to enter initialization.
pub const INRQ: u32 = 0x0000_0001;

/// Control register: request to sleep.
pub const SLEEP: u32 = 0x0000_0002;

/// Status register: initialization acknowledged.
pub const INAK: u32 = 0x0000_0001;

/// Filter control register: the filters are open for editing.
pub const FINIT: u32 = 0x0000_0001;

/// Receive FIFO register: number of frames pending.
pub const FMP: u32 = 0x0000_0003;

/// Receive FIFO register: release the frame at the head.
pub const RFOM: u32 = 0x0000_0020;

/// Transmit identifier register: request transmission.
pub const TXRQ: u32 = 0x0000_0001;

/// Transmit identifier register: the standard identifier.
pub const STID: u32 = 0xFFE0_0000;

/// Transmit length register: number of data bytes.
pub const DLC: u32 = 0x0000_000F;

/// Bit timing register: every field that the driver programs (prescaler,
/// both segments, jump width, loopback and silent).
pub const TIMING_FIELDS: u32 = 0xC37F_03FF;

/// Bit timing register: loopback mode.
pub const LBKM: u32 = 0x4000_0000;

/// Bit timing register: silent mode.
pub const SILM: u32 = 0x8000_0000;

/// The bit of `bank` in each of the per-bank filter registers.
pub open spec fn bank_bit(bank: usize) -> u32 {
    1u32 << (bank as u32)
}

/// Computes [`bank_bit`].
pub fn bank_mask(bank: usize) -> (bit: u32)
    requires
        bank < 32,
    ensures
        bit == bank_bit(bank),
{
    1u32 << (bank as u32)
}

/// The fields of the bit timing register for `timing` and `mode`. Each
/// number is stored less one.
pub open spec fn timing_bits(timing: Timing, mode: CanMode) -> u32 {
    ((timing.prescaler - 1) as u32) | ((timing.seg1 - 1) as u32) << 16 | ((timing.seg2 - 1) as u32)
        << 20 | ((timing.sync_jump_width - 1) as u32) << 24 | (if mode.loopback() {
        LBKM
    } else {
        0
    }) | (if mode.silent() {
        SILM
    } else {
        0
    })
}

/// Computes [`timing_bits`].
pub fn timing_word(timing: &NominalBitTiming, mode: &CanMode) -> (bits: u32)
    ensures
        bits == timing_bits(timing@, *mode),
{
    let prescaler: u32 = timing.prescaler() as u32;
    let seg1: u32 = timing.seg1() as u32;
    let seg2: u32 = timing.seg2() as u32;
    let sync_jump_width: u32 = timing.sync_jump_width() as u32;
    let test_modes = mode.regs();
    let loopback: u32 = if test_modes.lbkm {
        LBKM
    } else {
        0
    };
    let silent: u32 = if test_modes.silm {
        SILM
    } else {
        0
    };
    (prescaler - 1) | (seg1 - 1) << 16 | (seg2 - 1) << 20 | (sync_jump_width - 1) << 24 | loopback
        | silent
}

/// A bit timing register that was modified for `timing` and `mode` holds
/// each number less one in its field and the two mode bits, and keeps every
/// other bit of `before`.
pub proof fn timing_fields_read_back(before: u32, timing: Timing, mode: CanMode)
    requires
        timing.fits(),
    ensures
        ({
            let word: u32 = (before & !TIMING_FIELDS) | timing_bits(timing, mode);
            &&& (word & 0x3FF) == timing.prescaler - 1
            &&& ((word >> 16) & 0xF) == timing.seg1 - 1
            &&& ((word >> 20) & 0x7) == timing.seg2 - 1
            &&& ((word >> 24) & 0x3) == timing.sync_jump_width - 1
            &&& (word & LBKM != 0) == mode.loopback()
            &&& (word & SILM != 0) == mode.silent()
            &&& (word & !TIMING_FIELDS) == (before & !TIMING_FIELDS)
        }),
{
    let p: u32 = (timing.prescaler - 1) as u32;
    let s1: u32 = (timing.seg1 - 1) as u32;
    let s2: u32 = (timing.seg2 - 1) as u32;
    let j: u32 = (timing.sync_jump_width - 1) as u32;
    let l: u32 = if mode.loopback() {
        LBKM
    } else {
        0
    };
    let s: u32 = if mode.silent() {
        SILM
    } else {
        0
    };
    let word: u32 = (before & !TIMING_FIELDS) | (p | s1 << 16 | s2 << 20 | j << 24 | l | s);
    assert((word & 0x3FF) == p && ((word >> 16) & 0xF) == s1 && ((word >> 20) & 0x7) == s2 && ((word
        >> 24) & 0x3) == j && (word & 0x4000_0000) == l && (word & 0x8000_0000) == s && (word
        & !0xC37F_03FFu32) == (before & !0xC37F_03FFu32)) by (bit_vector)
        requires
            word == (before & !0xC37F_03FFu32) | (p | s1 << 16 | s2 << 20 | j << 24 | l | s),
            p < 512,
            s1 < 16,
            s2 < 8,
            j < 4,
            l == 0 || l == 0x4000_0000,
            s == 0 || s == 0x8000_0000,
    ;
}

/// Transmit status register: `mailbox` is empty.
pub open spec fn empty_bit(mailbox: usize) -> u32 {
    if mailbox == 0 {
        0x0400_0000
    } else if mailbox == 1 {
        0x0800_0000
    } else {
        0x1000_0000
    }
}

/// Transmit status register: the last request of `mailbox` has completed.
pub open spec fn request_completed_bit(mailbox: usize) -> u32 {
    if mailbox == 0 {
        0x0000_0001
    } else if mailbox == 1 {
        0x0000_0100
    } else {
        0x0001_0000
    }
}

/// Transmit status register: the last request of `mailbox` was sent.
pub open spec fn transmit_ok_bit(mailbox: usize) -> u32 {
    if mailbox == 0 {
        0x0000_0002
    } else if mailbox == 1 {
        0x0000_0200
    } else {
        0x0002_0000
    }
}

/// Transmit status register: the last request of `mailbox` lost arbitration.
pub open spec fn arbitration_lost_bit(mailbox: usize) -> u32 {
    if mailbox == 0 {
        0x0000_0004
    } else if mailbox == 1 {
        0x0000_0400
    } else {
        0x0004_0000
    }
}

/// Transmit status register: the two bits of `mailbox` that say that its
/// request is over, completed and sent.
pub open spec fn completion_bits(mailbox: usize) -> u32 {
    if mailbox == 0 {
        0x0000_0003
    } else if mailbox == 1 {
        0x0000_0300
    } else {
        0x0003_0000
    }
}

/// Computes [`empty_bit`].
pub fn empty_mask(mailbox: usize) -> (bit: u32)
    ensures
        bit == empty_bit(mailbox),
{
    if mailbox == 0 {
        0x0400_0000
    } else if mailbox == 1 {
        0x0800_0000
    } else {
        0x1000_0000
    }
}

/// Computes [`request_completed_bit`].
pub fn request_completed_mask(mailbox: usize) -> (bit: u32)
    ensures
        bit == request_completed_bit(mailbox),
{
    if mailbox == 0 {
        0x0000_0001
    } else if mailbox == 1 {
        0x0000_0100
    } else {
        0x0001_0000
    }
}

/// Computes [`transmit_ok_bit`].
pub fn transmit_ok_mask(mailbox: usize) -> (bit: u32)
    ensures
        bit == transmit_ok_bit(mailbox),
{
    if mailbox == 0 {
        0x0000_0002
    } else if mailbox == 1 {
        0x0000_0200
    } else {
        0x0002_0000
    }
}

/// Computes [`arbitration_lost_bit`].
pub fn arbitration_lost_mask(mailbox: usize) -> (bit: u32)
    ensures
        bit == arbitration_lost_bit(mailbox),
{
    if mailbox == 0 {
        0x0000_0004
    } else if mailbox == 1 {
        0x0000_0400
    } else {
        0x0004_0000
    }
}

/// Computes [`completion_bits`].
pub fn completion_mask(mailbox: usize) -> (bits: u32)
    ensures
        bits == completion_bits(mailbox),
{
    if mailbox == 0 {
        0x0000_0003
    } else if mailbox == 1 {
        0x0000_0300
    } else {
        0x0003_0000
    }
}

/// Whether the transmit status `status` reports `mailbox` as empty.
pub open spec fn mailbox_is_empty(status: u32, mailbox: usize) -> bool {
    status & empty_bit(mailbox) != 0
}

/// The mailbox that a transmission claims when the transmit status reads
/// `status`: the first empty one in the order 0, 1, 2.
pub open spec fn first_empty_mailbox(status: u32) -> Option<usize> {
    if mailbox_is_empty(status, 0) {
        Some(0usize)
    } else if mailbox_is_empty(status, 1) {
        Some(1usize)
    } else if mailbox_is_empty(status, 2) {
        Some(2usize)
    } else {
        None
    }
}

/// Computes [`first_empty_mailbox`].
pub fn select_mailbox(status: u32) -> (mailbox: Option<usize>)
    ensures
        mailbox == first_empty_mailbox(status),
        mailbox is Some ==> mailbox.unwrap() < MAILBOXES,
{
    let mut mailbox: usize = 0;
    while mailbox < MAILBOXES
        invariant
            mailbox <= MAILBOXES,
            forall|earlier: usize| earlier < mailbox ==> !mailbox_is_empty(status, earlier),
        decreases MAILBOXES - mailbox,
    {
        if status & empty_mask(mailbox) != 0 {
            return Some(mailbox);
        }
        mailbox = mailbox + 1;
    }
    None
}

/// A claimed mailbox is in range and empty, and every mailbox before it is
/// not; no mailbox is claimed only when none of the three is empty.
pub proof fn claim_is_first_empty(status: u32)
    ensures
        match first_empty_mailbox(status) {
            Some(mailbox) => {
                &&& mailbox < MAILBOXES
                &&& mailbox_is_empty(status, mailbox)
                &&& forall|earlier: usize| earlier < mailbox ==> !mailbox_is_empty(status, earlier)
            },
            None => forall|mailbox: usize| mailbox < MAILBOXES ==> !mailbox_is_empty(status, mailbox),
        },
{
}

/// Two claims in a row take different mailboxes: while the hardware reports
/// the mailbox of the first claim as not empty, a second claim is not given
/// that mailbox.
pub proof fn pending_mailbox_is_not_claimed_again(first_status: u32, second_status: u32)
    requires
        first_empty_mailbox(first_status) is Some,
        !mailbox_is_empty(second_status, first_empty_mailbox(first_status).unwrap()),
    ensures
        first_empty_mailbox(second_status) != first_empty_mailbox(first_status),
{
}

/// How the request of `mailbox` ended when polling stopped at the transmit
/// status `status`: sent; or not over yet, which is a timeout; or over
/// without being sent, by lost arbitration or by another error.
pub open spec fn transmit_result(status: u32, mailbox: usize) -> TxStatus {
    if status & transmit_ok_bit(mailbox) != 0 {
        TxStatus::Sent
    } else if status & request_completed_bit(mailbox) == 0 {
        TxStatus::TimeoutError
    } else if status & arbitration_lost_bit(mailbox) != 0 {
        TxStatus::ArbitrationLost
    } else {
        TxStatus::OtherError
    }
}

/// Computes [`transmit_result`].
pub fn classify_transmit_status(status: u32, mailbox: usize) -> (result: TxStatus)
    ensures
        result == transmit_result(status, mailbox),
{
    if status & transmit_ok_mask(mailbox) != 0 {
        TxStatus::Sent
    } else if status & request_completed_mask(mailbox) == 0 {
        TxStatus::TimeoutError
    } else if status & arbitration_lost_mask(mailbox) != 0 {
        TxStatus::ArbitrationLost
    } else {
        TxStatus::OtherError
    }
}

/// The identifier field of a transmit identifier register for `stid`, of
/// which the low 11 bits count.
pub open spec fn identifier_bits(stid: u16) -> u32 {
    ((stid & 0x7FF) as u32) << 21
}

/// Computes [`identifier_bits`].
pub fn identifier_word(stid: u16) -> (bits: u32)
    ensures
        bits == identifier_bits(stid),
{
    ((stid & 0x7FF) as u32) << 21
}

/// The length field of a transmit length register for `length` bytes, of
/// which the low 4 bits count.
pub open spec fn length_bits(length: u8) -> u32 {
    (length & 0xF) as u32
}

/// Computes [`length_bits`].
pub fn length_word(length: u8) -> (bits: u32)
    ensures
        bits == length_bits(length),
{
    (length & 0xF) as u32
}

/// The identifier and the length that a mailbox is loaded with are what the
/// receive side finds in the same words, whatever else the two registers held.
pub proof fn written_fields_read_back(identifier_before: u32, stid: u16, length_before: u32, length: u8)
    requires
        stid <= MAX_STANDARD_ID,
        length <= MAX_DATA_LENGTH,
    ensures
        identifier_field((identifier_before & !STID) | (identifier_bits(stid) | TXRQ)) == stid,
        length_field((length_before & !DLC) | length_bits(length)) == length,
{
    assert(((((identifier_before & !0xFFE0_0000u32) | ((((stid & 0x7FF) as u32) << 21) | 1u32)) >> 21)
        & 0x7FF) as u16 == stid) by (bit_vector)
        requires
            stid <= 0x7FF,
    ;
    assert(((length_before & !0xFu32) | ((length & 0xF) as u32)) & 0xF == length as u32)
        by (bit_vector)
        requires
            length <= 8,
    ;
}

/// Number of frames that the receive FIFO status `status` reports as pending.
pub open spec fn pending_frames(status: u32) -> u32 {
    status & FMP
}

/// Computes [`pending_frames`].
pub fn pending_count(status: u32) -> (count: u32)
    ensures
        count == pending_frames(status),
{
    status & FMP
}

} // verus!
