//! The register block, the trace of accesses to it, and the operations on
//! registers that the driver is made of.

use vstd::prelude::*;
use crate::enums::{CanError, CanFifo, CanFilter, CanMode, Filter, TxStatus, FILTER_BANKS};
use crate::frame::{received_frame, CanFrame, Frame};
use crate::layout::{
    bank_bit, bank_mask, classify_transmit_status, completion_bits, completion_mask,
    first_empty_mailbox, identifier_bits, identifier_word, length_bits, length_word,
    pending_count, pending_frames, select_mailbox, timing_bits, timing_word, transmit_result,
    DLC, FINIT, INAK, INRQ, MAILBOXES, RFOM, SLEEP, STID, TIMING_FIELDS, TXRQ,
};
use crate::util::{NominalBitTiming, Timing};

verus! {

/// Most reads that one polling loop makes before it gives up.
pub const POLL_BUDGET: u32 = 0xFFF;

/// A 32-bit register of the controller.
#[derive(Clone, Copy, Debug, PartialEq, Eq, Hash)]
pub enum Register {
    /// Master control (CTLR).
    Control,
    /// Master status (STATR).
    Status,
    /// Transmit status (TSTATR).
    TransmitStatus,
    /// Status and release register of one receive FIFO (RFIFO0, RFIFO1).
    ReceiveFifo(CanFifo),
    /// Bit timing and test modes (BTIMR).
    BitTiming,
    /// Identifier register of a transmit mailbox (TXMIR).
    TxIdentifier(usize),
    /// Data length register of a transmit mailbox (TXMDTR).
    TxLength(usize),
    /// Low data word of a transmit mailbox (TXMDLR).
    TxDataLow(usize),
    /// High data word of a transmit mailbox (TXMDHR).
    TxDataHigh(usize),
    /// Identifier register of the frame at the head of a FIFO (RXMIR).
    RxIdentifier(CanFifo),
    /// Data length register of the frame at the head of a FIFO (RXMDTR).
    RxLength(CanFifo),
    /// Low data word of the frame at the head of a FIFO (RXMDLR).
    RxDataLow(CanFifo),
    /// High data word of the frame at the head of a FIFO (RXMDHR).
    RxDataHigh(CanFifo),
    /// Filter master control (FCTLR).
    FilterControl,
    /// Filter matching scheme, one bit per bank (FMCFGR).
    FilterMode,
    /// Filter scale, one bit per bank (FSCFGR).
    FilterScale,
    /// Filter FIFO assignment, one bit per bank (FAFIFOR).
    FilterAssignment,
    /// Filter activation, one bit per bank (FWR).
    FilterActivation,
    /// One of the two pattern words of each filter bank (FR).
    FilterWord(usize),
}

impl Register {
    /// Whether the controller has this register: a mailbox or filter word
    /// index is in range.
    pub open spec fn exists_in_hardware(self) -> bool {
        match self {
            Register::TxIdentifier(mailbox)
            | Register::TxLength(mailbox)
            | Register::TxDataLow(mailbox)
            | Register::TxDataHigh(mailbox) => mailbox < MAILBOXES,
            Register::FilterWord(word) => word < 2 * FILTER_BANKS,
            _ => true,
        }
    }
}

/// One access of the driver to the controller.
#[derive(Clone, Copy, Debug, PartialEq, Eq, Hash)]
pub enum Access {
    /// `register` was read and the hardware returned `value`.
    Read { register: Register, value: u32 },
    /// `value` was written to `register`.
    Write { register: Register, value: u32 },
}

impl Access {
    /// The register that was accessed.
    pub open spec fn register(self) -> Register {
        match self {
            Access::Read { register, .. } => register,
            Access::Write { register, .. } => register,
        }
    }

    /// The value that was read or written.
    pub open spec fn value(self) -> u32 {
        match self {
            Access::Read { value, .. } => value,
            Access::Write { value, .. } => value,
        }
    }
}

/// The register block of one controller instance.
///
/// Nothing is promised of what a read returns: the hardware decides. The
/// driver only ever names registers that exist.
pub trait CanController {
    /// The value that `register` holds now.
    fn read(&mut self, register: Register) -> u32
        requires
            register.exists_in_hardware(),
    ;

    /// Stores `value` in `register`.
    fn write(&mut self, register: Register, value: u32)
        requires
            register.exists_in_hardware(),
    ;
}

/// The accesses that `after` holds beyond those of `before`.
pub open spec fn added(before: Seq<Access>, after: Seq<Access>) -> Seq<Access> {
    after.skip(before.len() as int)
}

/// Whether access `at` of `segment` is a read of `register`.
pub open spec fn reads_at(segment: Seq<Access>, at: int, register: Register) -> bool {
    &&& 0 <= at < segment.len()
    &&& segment[at] is Read
    &&& segment[at].register() == register
}

/// Whether access `at` of `segment` writes `value` to `register`.
pub open spec fn writes_at(segment: Seq<Access>, at: int, register: Register, value: u32) -> bool {
    &&& 0 <= at < segment.len()
    &&& segment[at] == (Access::Write { register, value })
}

/// Whether accesses `at` and `at + 1` of `segment` are one read-modify-write
/// of `register`: what was read is written back with the bits of `clear`
/// cleared and then those of `set` set.
pub open spec fn modifies_at(segment: Seq<Access>, at: int, register: Register, clear: u32, set: u32) -> bool {
    &&& reads_at(segment, at, register)
    &&& writes_at(segment, at + 1, register, (segment[at].value() & !clear) | set)
}

/// Whether `value` is what a poll waits for: with `set`, some bit of `mask`
/// is set in it; without, none is.
pub open spec fn satisfied(value: u32, mask: u32, set: bool) -> bool {
    (value & mask != 0) == set
}

/// Computes [`satisfied`].
pub fn is_satisfied(value: u32, mask: u32, set: bool) -> (met: bool)
    ensures
        met == satisfied(value, mask, set),
{
    (value & mask != 0) == set
}

/// Whether the accesses of `segment` from `at` to its end are one poll of
/// `register`: reads of it, at least one and at most [`POLL_BUDGET`], that
/// stop at the first value that is waited for, or when the budget is spent.
pub open spec fn polls_from(segment: Seq<Access>, at: int, register: Register, mask: u32, set: bool) -> bool {
    &&& 0 <= at < segment.len() <= at + POLL_BUDGET
    &&& forall|i: int| at <= i < segment.len() ==> reads_at(segment, i, register)
    &&& forall|i: int|
        at <= i < segment.len() - 1 ==> !satisfied((#[trigger] segment[i]).value(), mask, set)
    &&& (satisfied(segment.last().value(), mask, set) || segment.len() == at + POLL_BUDGET)
}

/// What [`Registers::enter_init_mode`] does: it wakes the controller and
/// requests initialization in one modification of the control register,
/// then polls the status register for the acknowledgement, and succeeds if
/// the last status read shows it.
pub open spec fn entering_init(segment: Seq<Access>, outcome: Result<(), CanError>) -> bool {
    &&& modifies_at(segment, 0, Register::Control, SLEEP, INRQ)
    &&& polls_from(segment, 2, Register::Status, INAK, true)
    &&& outcome == if satisfied(segment.last().value(), INAK, true) {
        Ok::<(), CanError>(())
    } else {
        Err::<(), CanError>(CanError::EnterInitTimeout)
    }
}

/// What [`Registers::leave_init_mode`] does: it withdraws the request in one
/// modification of the control register, then polls the status register
/// until the acknowledgement is gone, and succeeds if the last status read
/// shows that.
pub open spec fn leaving_init(segment: Seq<Access>, outcome: Result<(), CanError>) -> bool {
    &&& modifies_at(segment, 0, Register::Control, INRQ, 0)
    &&& polls_from(segment, 2, Register::Status, INAK, false)
    &&& outcome == if satisfied(segment.last().value(), INAK, false) {
        Ok::<(), CanError>(())
    } else {
        Err::<(), CanError>(CanError::LeaveInitTimeout)
    }
}

/// What [`Registers::set_bit_timing_and_mode`] does: one modification of the
/// bit timing register that replaces the timing fields and the two mode
/// bits and keeps the rest.
pub open spec fn setting_bit_timing(segment: Seq<Access>, timing: Timing, mode: CanMode) -> bool {
    &&& segment.len() == 2
    &&& modifies_at(segment, 0, Register::BitTiming, TIMING_FIELDS, timing_bits(timing, mode))
}

/// What [`Registers::add_filter`] does, step by step: open the filters for
/// editing, deactivate the bank, select the single 32-bit scale, write the
/// two words, select the matching scheme, assign the FIFO, activate the
/// bank, close the filters.
pub open spec fn programming_filter(segment: Seq<Access>, filter: Filter, fifo: CanFifo) -> bool {
    let bit: u32 = bank_bit(filter.bank);
    &&& segment.len() == 16
    &&& modifies_at(segment, 0, Register::FilterControl, 0, FINIT)
    &&& modifies_at(segment, 2, Register::FilterActivation, bit, 0)
    &&& modifies_at(segment, 4, Register::FilterScale, 0, bit)
    &&& writes_at(segment, 6, Register::FilterWord((2 * filter.bank) as usize), filter.id_value)
    &&& writes_at(segment, 7, Register::FilterWord((2 * filter.bank + 1) as usize), filter.id_mask)
    &&& modifies_at(segment, 8, Register::FilterMode, bit, if filter.mode.bit() {
        bit
    } else {
        0
    })
    &&& modifies_at(segment, 10, Register::FilterAssignment, bit, if fifo.bit() {
        bit
    } else {
        0
    })
    &&& modifies_at(segment, 12, Register::FilterActivation, 0, bit)
    &&& modifies_at(segment, 14, Register::FilterControl, FINIT, 0)
}

/// What [`Registers::write_mailbox`] does, step by step: set the length
/// field, write the high and the low data word, clear the identifier
/// register, then put the identifier and the transmit request into it in
/// one write.
pub open spec fn loading_mailbox(
    segment: Seq<Access>,
    mailbox: usize,
    stid: u16,
    length: u8,
    high: u32,
    low: u32,
) -> bool {
    &&& segment.len() == 7
    &&& modifies_at(segment, 0, Register::TxLength(mailbox), DLC, length_bits(length))
    &&& writes_at(segment, 2, Register::TxDataHigh(mailbox), high)
    &&& writes_at(segment, 3, Register::TxDataLow(mailbox), low)
    &&& writes_at(segment, 4, Register::TxIdentifier(mailbox), 0)
    &&& modifies_at(segment, 5, Register::TxIdentifier(mailbox), STID, identifier_bits(stid) | TXRQ)
}

/// What [`Registers::transmit_status`] does: it polls the transmit status
/// until `mailbox` reports its request as over, and classifies the last
/// status read.
pub open spec fn awaiting_completion(segment: Seq<Access>, mailbox: usize, status: TxStatus) -> bool {
    &&& polls_from(segment, 0, Register::TransmitStatus, completion_bits(mailbox), true)
    &&& status == transmit_result(segment.last().value(), mailbox)
}

/// What [`Registers::find_empty_mailbox`] does: one read of the transmit
/// status, from which the first empty mailbox is taken.
pub open spec fn finding_mailbox(segment: Seq<Access>, mailbox: Option<usize>) -> bool {
    &&& segment.len() == 1
    &&& reads_at(segment, 0, Register::TransmitStatus)
    &&& mailbox == first_empty_mailbox(segment[0].value())
}

/// What [`Registers::receive`] does. It reads the status of the FIFO. With
/// no frame pending that is all, and there is no frame. Otherwise it reads
/// the length, the identifier and the two data words of the frame at the
/// head, in this order, and only then releases the FIFO; the frame is what
/// those four registers held.
pub open spec fn receiving(segment: Seq<Access>, fifo: CanFifo, frame: Option<Frame>) -> bool {
    &&& reads_at(segment, 0, Register::ReceiveFifo(fifo))
    &&& if pending_frames(segment[0].value()) == 0 {
        &&& segment.len() == 1
        &&& frame is None
    } else {
        &&& segment.len() == 6
        &&& reads_at(segment, 1, Register::RxLength(fifo))
        &&& reads_at(segment, 2, Register::RxIdentifier(fifo))
        &&& reads_at(segment, 3, Register::RxDataLow(fifo))
        &&& reads_at(segment, 4, Register::RxDataHigh(fifo))
        &&& writes_at(segment, 5, Register::ReceiveFifo(fifo), RFOM)
        &&& frame == Some(
            received_frame(
                segment[2].value(),
                segment[1].value(),
                segment[3].value(),
                segment[4].value(),
            ),
        )
    }
}

/// What a frame is, when there is one.
pub open spec fn frame_view(frame: Option<CanFrame>) -> Option<Frame> {
    match frame {
        Some(frame) => Some(frame@),
        None => None,
    }
}

/// A trace continues itself by whatever is appended to it.
proof fn lemma_appended(before: Seq<Access>, segment: Seq<Access>)
    ensures
        before.is_prefix_of(before + segment),
        added(before, before + segment) == segment,
{
}

/// What was added over two stretches is the first stretch followed by the second.
pub(crate) proof fn lemma_added_in_two(start: Seq<Access>, middle: Seq<Access>, end: Seq<Access>)
    requires
        start.is_prefix_of(middle),
        middle.is_prefix_of(end),
    ensures
        start.is_prefix_of(end),
        added(start, end) == added(start, middle) + added(middle, end),
        added(start, end).take(middle.len() - start.len()) == added(start, middle),
        added(start, end).skip(middle.len() - start.len()) == added(middle, end),
{
}

/// A poll stays a poll when accesses are put before it.
proof fn lemma_poll_after(head: Seq<Access>, tail: Seq<Access>, register: Register, mask: u32, set: bool)
    requires
        polls_from(tail, 0, register, mask, set),
    ensures
        polls_from(head + tail, head.len() as int, register, mask, set),
        (head + tail).last() == tail.last(),
{
    let whole: Seq<Access> = head + tail;
    assert forall|i: int| head.len() <= i < whole.len() implies reads_at(whole, i, register) by {
        assert(reads_at(tail, i - head.len(), register));
    }
    assert forall|i: int| head.len() <= i < whole.len() - 1 implies !satisfied(
        (#[trigger] whole[i]).value(),
        mask,
        set,
    ) by {
    }
}

/// Exclusive handle on a controller, with the trace of every access made
/// through it.
pub struct Registers<C: CanController> {
    controller: C,
    trace: Ghost<Seq<Access>>,
}

impl<C: CanController> Registers<C> {
    /// Every access made through this handle, oldest first.
    pub closed spec fn trace(&self) -> Seq<Access> {
        self.trace@
    }

    /// The controller behind this handle.
    pub closed spec fn hardware(&self) -> C {
        self.controller
    }

    /// Takes the controller. Nothing has been accessed yet.
    pub fn new(controller: C) -> (registers: Self)
        ensures
            registers.trace() == Seq::<Access>::empty(),
            registers.hardware() == controller,
    {
        Registers { controller, trace: Ghost(Seq::empty()) }
    }

    /// Gives the controller back.
    pub fn free(self) -> (controller: C)
        ensures
            controller == self.hardware(),
    {
        self.controller
    }

    /// The controller, to look at.
    pub fn controller(&self) -> (controller: &C)
        ensures
            *controller == self.hardware(),
    {
        &self.controller
    }

    /// Reads `register`.
    pub fn read(&mut self, register: Register) -> (value: u32)
        requires
            register.exists_in_hardware(),
        ensures
            final(self).trace() == old(self).trace().push(Access::Read { register, value }),
    {
        let value: u32 = self.controller.read(register);
        proof {
            self.trace@ = self.trace@.push(Access::Read { register, value });
        }
        value
    }

    /// Writes `value` to `register`.
    pub fn write(&mut self, register: Register, value: u32)
        requires
            register.exists_in_hardware(),
        ensures
            final(self).trace() == old(self).trace().push(Access::Write { register, value }),
    {
        self.controller.write(register, value);
        proof {
            self.trace@ = self.trace@.push(Access::Write { register, value });
        }
    }

    /// Reads `register` and writes it back with the bits of `clear` cleared
    /// and then those of `set` set. Returns what was read.
    pub fn modify(&mut self, register: Register, clear: u32, set: u32) -> (before: u32)
        requires
            register.exists_in_hardware(),
        ensures
            final(self).trace() == old(self).trace().push(
                Access::Read { register, value: before },
            ).push(Access::Write { register, value: (before & !clear) | set }),
    {
        let before: u32 = self.read(register);
        self.write(register, (before & !clear) | set);
        before
    }

    /// Reads `register` until its value is waited for (see [`satisfied`]) or
    /// the budget is spent. Returns the last value read.
    pub fn poll(&mut self, register: Register, mask: u32, set: bool) -> (last: u32)
        requires
            register.exists_in_hardware(),
        ensures
            old(self).trace().is_prefix_of(final(self).trace()),
            polls_from(added(old(self).trace(), final(self).trace()), 0, register, mask, set),
            last == final(self).trace().last().value(),
    {
        let ghost start: Seq<Access> = self.trace();
        let mut last: u32 = self.read(register);
        let mut polls: u32 = 1;
        let ghost mut seen: Seq<Access> = seq![Access::Read { register, value: last }];
        while !is_satisfied(last, mask, set) && polls < POLL_BUDGET
            invariant
                register.exists_in_hardware(),
                1 <= polls <= POLL_BUDGET,
                seen.len() == polls,
                self.trace() == start + seen,
                forall|i: int| 0 <= i < seen.len() ==> reads_at(seen, i, register),
                forall|i: int|
                    0 <= i < seen.len() - 1 ==> !satisfied((#[trigger] seen[i]).value(), mask, set),
                seen.last().value() == last,
            decreases POLL_BUDGET - polls,
        {
            last = self.read(register);
            polls = polls + 1;
            proof {
                let earlier: Seq<Access> = seen;
                seen = seen.push(Access::Read { register, value: last });
                assert forall|i: int| 0 <= i < seen.len() implies reads_at(seen, i, register) by {
                    if i < earlier.len() {
                        assert(reads_at(earlier, i, register));
                    }
                }
            }
        }
        proof {
            lemma_appended(start, seen);
        }
        last
    }

    /// Wakes the controller, requests initialization and waits for the
    /// acknowledgement.
    pub fn enter_init_mode(&mut self) -> (outcome: Result<(), CanError>)
        ensures
            old(self).trace().is_prefix_of(final(self).trace()),
            entering_init(added(old(self).trace(), final(self).trace()), outcome),
    {
        let ghost start: Seq<Access> = self.trace();
        self.modify(Register::Control, SLEEP, INRQ);
        let ghost requested: Seq<Access> = self.trace();
        let status: u32 = self.poll(Register::Status, INAK, true);
        proof {
            let head: Seq<Access> = added(start, requested);
            let tail: Seq<Access> = added(requested, self.trace());
            lemma_added_in_two(start, requested, self.trace());
            lemma_poll_after(head, tail, Register::Status, INAK, true);
        }
        if is_satisfied(status, INAK, true) {
            Ok(())
        } else {
            Err(CanError::EnterInitTimeout)
        }
    }

    /// Withdraws the initialization request and waits until the controller
    /// has left initialization.
    pub fn leave_init_mode(&mut self) -> (outcome: Result<(), CanError>)
        ensures
            old(self).trace().is_prefix_of(final(self).trace()),
            leaving_init(added(old(self).trace(), final(self).trace()), outcome),
    {
        let ghost start: Seq<Access> = self.trace();
        self.modify(Register::Control, INRQ, 0);
        let ghost requested: Seq<Access> = self.trace();
        let status: u32 = self.poll(Register::Status, INAK, false);
        proof {
            let head: Seq<Access> = added(start, requested);
            let tail: Seq<Access> = added(requested, self.trace());
            lemma_added_in_two(start, requested, self.trace());
            lemma_poll_after(head, tail, Register::Status, INAK, false);
        }
        if is_satisfied(status, INAK, false) {
            Ok(())
        } else {
            Err(CanError::LeaveInitTimeout)
        }
    }

    /// Programs the bit timing and the operating mode.
    pub fn set_bit_timing_and_mode(&mut self, bt: NominalBitTiming, mode: CanMode)
        ensures
            old(self).trace().is_prefix_of(final(self).trace()),
            setting_bit_timing(added(old(self).trace(), final(self).trace()), bt@, mode),
    {
        let ghost start: Seq<Access> = self.trace();
        let bits: u32 = timing_word(&bt, &mode);
        let before: u32 = self.modify(Register::BitTiming, TIMING_FIELDS, bits);
        proof {
            let segment: Seq<Access> = seq![
                Access::Read { register: Register::BitTiming, value: before },
                Access::Write { register: Register::BitTiming, value: (before & !TIMING_FIELDS) | bits },
            ];
            lemma_appended(start, segment);
        }
    }

    /// Programs `filter` into its bank and routes what it accepts to
    /// `associate_fifo`.
    pub fn add_filter(&mut self, filter: CanFilter, associate_fifo: &CanFifo)
        ensures
            old(self).trace().is_prefix_of(final(self).trace()),
            programming_filter(added(old(self).trace(), final(self).trace()), filter@, *associate_fifo),
    {
        let ghost start: Seq<Access> = self.trace();
        let bank: usize = filter.bank();
        let bit: u32 = bank_mask(bank);
        let scheme: u32 = if filter.mode().val_bool() {
            bit
        } else {
            0
        };
        let assignment: u32 = if associate_fifo.val_bool() {
            bit
        } else {
            0
        };
        let v0: u32 = self.modify(Register::FilterControl, 0, FINIT);
        let v1: u32 = self.modify(Register::FilterActivation, bit, 0);
        let v2: u32 = self.modify(Register::FilterScale, 0, bit);
        self.write(Register::FilterWord(filter.fr_id_value_reg()), filter.id_value());
        self.write(Register::FilterWord(filter.fr_id_mask_reg()), filter.id_mask());
        let v3: u32 = self.modify(Register::FilterMode, bit, scheme);
        let v4: u32 = self.modify(Register::FilterAssignment, bit, assignment);
        let v5: u32 = self.modify(Register::FilterActivation, 0, bit);
        let v6: u32 = self.modify(Register::FilterControl, FINIT, 0);
        proof {
            let segment: Seq<Access> = seq![
                Access::Read { register: Register::FilterControl, value: v0 },
                Access::Write { register: Register::FilterControl, value: (v0 & !0) | FINIT },
                Access::Read { register: Register::FilterActivation, value: v1 },
                Access::Write { register: Register::FilterActivation, value: (v1 & !bit) | 0 },
                Access::Read { register: Register::FilterScale, value: v2 },
                Access::Write { register: Register::FilterScale, value: (v2 & !0) | bit },
                Access::Write { register: Register::FilterWord((2 * bank) as usize), value: filter@.id_value },
                Access::Write {
                    register: Register::FilterWord((2 * bank + 1) as usize),
                    value: filter@.id_mask,
                },
                Access::Read { register: Register::FilterMode, value: v3 },
                Access::Write { register: Register::FilterMode, value: (v3 & !bit) | scheme },
                Access::Read { register: Register::FilterAssignment, value: v4 },
                Access::Write { register: Register::FilterAssignment, value: (v4 & !bit) | assignment },
                Access::Read { register: Register::FilterActivation, value: v5 },
                Access::Write { register: Register::FilterActivation, value: (v5 & !0) | bit },
                Access::Read { register: Register::FilterControl, value: v6 },
                Access::Write { register: Register::FilterControl, value: (v6 & !FINIT) | 0 },
            ];
            lemma_appended(start, segment);
        }
    }

    /// Loads a frame into mailbox `mailbox_num` and requests its
    /// transmission. Of `stid` the low 11 bits count, of `length` the low 4.
    pub fn write_mailbox(
        &mut self,
        mailbox_num: usize,
        stid: u16,
        length: u8,
        tx_data_high: u32,
        tx_data_low: u32,
    )
        requires
            mailbox_num < MAILBOXES,
        ensures
            old(self).trace().is_prefix_of(final(self).trace()),
            loading_mailbox(
                added(old(self).trace(), final(self).trace()),
                mailbox_num,
                stid,
                length,
                tx_data_high,
                tx_data_low,
            ),
    {
        let ghost start: Seq<Access> = self.trace();
        let length_field: u32 = length_word(length);
        let request: u32 = identifier_word(stid) | TXRQ;
        let v0: u32 = self.modify(Register::TxLength(mailbox_num), DLC, length_field);
        self.write(Register::TxDataHigh(mailbox_num), tx_data_high);
        self.write(Register::TxDataLow(mailbox_num), tx_data_low);
        self.write(Register::TxIdentifier(mailbox_num), 0);
        let v1: u32 = self.modify(Register::TxIdentifier(mailbox_num), STID, request);
        proof {
            let segment: Seq<Access> = seq![
                Access::Read { register: Register::TxLength(mailbox_num), value: v0 },
                Access::Write { register: Register::TxLength(mailbox_num), value: (v0 & !DLC) | length_field },
                Access::Write { register: Register::TxDataHigh(mailbox_num), value: tx_data_high },
                Access::Write { register: Register::TxDataLow(mailbox_num), value: tx_data_low },
                Access::Write { register: Register::TxIdentifier(mailbox_num), value: 0 },
                Access::Read { register: Register::TxIdentifier(mailbox_num), value: v1 },
                Access::Write { register: Register::TxIdentifier(mailbox_num), value: (v1 & !STID) | request },
            ];
            lemma_appended(start, segment);
        }
    }

    /// Waits until the request of mailbox `mailbox_num` is over, and says
    /// how it ended.
    pub fn transmit_status(&mut self, mailbox_num: usize) -> (status: TxStatus)
        requires
            mailbox_num < MAILBOXES,
        ensures
            old(self).trace().is_prefix_of(final(self).trace()),
            awaiting_completion(added(old(self).trace(), final(self).trace()), mailbox_num, status),
    {
        let last: u32 = self.poll(Register::TransmitStatus, completion_mask(mailbox_num), true);
        classify_transmit_status(last, mailbox_num)
    }

    /// Looks for an empty mailbox, in the order 0, 1, 2.
    pub fn find_empty_mailbox(&mut self) -> (mailbox: Option<usize>)
        ensures
            old(self).trace().is_prefix_of(final(self).trace()),
            finding_mailbox(added(old(self).trace(), final(self).trace()), mailbox),
            mailbox is Some ==> mailbox.unwrap() < MAILBOXES,
    {
        let ghost start: Seq<Access> = self.trace();
        let status: u32 = self.read(Register::TransmitStatus);
        proof {
            let segment: Seq<Access> = seq![Access::Read { register: Register::TransmitStatus, value: status }];
            lemma_appended(start, segment);
        }
        select_mailbox(status)
    }

    /// Takes the frame at the head of `fifo`, if one is pending.
    pub fn receive(&mut self, fifo: &CanFifo) -> (frame: Option<CanFrame>)
        ensures
            old(self).trace().is_prefix_of(final(self).trace()),
            receiving(added(old(self).trace(), final(self).trace()), *fifo, frame_view(frame)),
    {
        let ghost start: Seq<Access> = self.trace();
        let status: u32 = self.read(Register::ReceiveFifo(*fifo));
        if pending_count(status) == 0 {
            proof {
                let segment: Seq<Access> = seq![
                    Access::Read { register: Register::ReceiveFifo(*fifo), value: status },
                ];
                lemma_appended(start, segment);
            }
            return None;
        }
        let length_word: u32 = self.read(Register::RxLength(*fifo));
        let identifier_word: u32 = self.read(Register::RxIdentifier(*fifo));
        let low: u32 = self.read(Register::RxDataLow(*fifo));
        let high: u32 = self.read(Register::RxDataHigh(*fifo));
        self.write(Register::ReceiveFifo(*fifo), RFOM);
        proof {
            let segment: Seq<Access> = seq![
                Access::Read { register: Register::ReceiveFifo(*fifo), value: status },
                Access::Read { register: Register::RxLength(*fifo), value: length_word },
                Access::Read { register: Register::RxIdentifier(*fifo), value: identifier_word },
                Access::Read { register: Register::RxDataLow(*fifo), value: low },
                Access::Read { register: Register::RxDataHigh(*fifo), value: high },
                Access::Write { register: Register::ReceiveFifo(*fifo), value: RFOM },
            ];
            lemma_appended(start, segment);
        }
        Some(CanFrame::from_registers(identifier_word, length_word, low, high))
    }
}

} // verus!
