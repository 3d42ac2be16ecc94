//! The driver: configuration, filters, transmission and reception, each
//! composed of the register operations and specified by the accesses it makes.

use vstd::prelude::*;
use crate::enums::{CanError, CanFifo, CanFilter, CanMode, TransmitOutcome, TxStatus};
use crate::frame::{packed_word, received_frame, unpacking_inverts_packing, CanFrame, Frame};
use crate::layout::{
    claim_is_first_empty, first_empty_mailbox, mailbox_is_empty, pending_frames,
    written_fields_read_back, MAILBOXES,
};
use crate::registers::{
    added, awaiting_completion, entering_init, frame_view, leaving_init, lemma_added_in_two,
    loading_mailbox, programming_filter, reads_at, receiving, setting_bit_timing, Access,
    CanController, Register, Registers,
};
use crate::util::{solvable, solves, NominalBitTiming, Timing};

verus! {

/// What [`Can::configure`] does.
///
/// It enters initialization; if that times out, nothing else is touched.
/// Only then is the timing derived; if there is none, the controller is left
/// in initialization with its timing as it was. Otherwise the timing and the
/// mode are programmed and initialization is left, and the outcome is that
/// of leaving.
pub open spec fn configuring(
    segment: Seq<Access>,
    clock: int,
    bitrate: int,
    mode: CanMode,
    outcome: Result<(), CanError>,
) -> bool {
    match outcome {
        Err(CanError::EnterInitTimeout) => entering_init(segment, outcome),
        Err(CanError::BitTimingUnsatisfiable) => {
            &&& entering_init(segment, Ok(()))
            &&& !solvable(clock, bitrate)
        },
        _ => exists|entered: int, timing: Timing|
            #![trigger segment.take(entered), solves(timing, clock, bitrate)]
            {
                &&& 0 <= entered && entered + 2 <= segment.len()
                &&& entering_init(segment.take(entered), Ok(()))
                &&& solves(timing, clock, bitrate)
                &&& setting_bit_timing(segment.subrange(entered, entered + 2), timing, mode)
                &&& leaving_init(segment.skip(entered + 2), outcome)
            },
    }
}

/// What [`Can::transmit`] does.
///
/// It reads the transmit status once. With no mailbox empty that is all.
/// Otherwise the first empty mailbox is loaded with the frame, absent bytes
/// as zero, and its request is awaited.
pub open spec fn transmitting(segment: Seq<Access>, frame: Frame, outcome: TransmitOutcome) -> bool {
    &&& reads_at(segment, 0, Register::TransmitStatus)
    &&& match first_empty_mailbox(segment[0].value()) {
        None => {
            &&& segment.len() == 1
            &&& outcome == TransmitOutcome::MailboxesFull
        },
        Some(mailbox) => {
            &&& segment.len() > 8
            &&& loading_mailbox(
                segment.subrange(1, 8),
                mailbox,
                frame.identifier,
                frame.data.len() as u8,
                packed_word(frame.data, 4),
                packed_word(frame.data, 0),
            )
            &&& match outcome {
                TransmitOutcome::Attempted { mailbox: used, status } => {
                    &&& used == mailbox
                    &&& awaiting_completion(segment.skip(8), mailbox, status)
                },
                TransmitOutcome::MailboxesFull => false,
            }
        },
    }
}

/// The four words of a frame in a transmit mailbox or at the head of a FIFO.
pub struct FrameWords {
    pub identifier: u32,
    pub length: u32,
    pub low: u32,
    pub high: u32,
}

impl FrameWords {
    /// The frame that the words describe: their identifier field, and as
    /// many data bytes as their length field says.
    pub open spec fn frame(self) -> Frame {
        received_frame(self.identifier, self.length, self.low, self.high)
    }
}

/// The words that a transmission left in the mailbox it claimed.
pub open spec fn words_loaded(sent: Seq<Access>) -> FrameWords {
    FrameWords {
        identifier: sent[7].value(),
        length: sent[2].value(),
        low: sent[4].value(),
        high: sent[3].value(),
    }
}

/// The words that a reception found at the head of the FIFO.
pub open spec fn words_taken(taken: Seq<Access>) -> FrameWords {
    FrameWords {
        identifier: taken[2].value(),
        length: taken[1].value(),
        low: taken[3].value(),
        high: taken[4].value(),
    }
}

/// A frame that is transmitted and looped back is received unchanged: when
/// a transmission has loaded a mailbox, and a reception finds a frame
/// pending whose words describe the frame that the words left in the
/// mailbox describe, then the frame received is the frame sent.
pub proof fn looped_back_frame_is_received(
    sent: Seq<Access>,
    frame: Frame,
    outcome: TransmitOutcome,
    taken: Seq<Access>,
    fifo: CanFifo,
    received: Option<Frame>,
)
    requires
        frame.valid(),
        transmitting(sent, frame, outcome),
        outcome is Attempted,
        receiving(taken, fifo, received),
        pending_frames(taken[0].value()) != 0,
        words_taken(taken).frame() == words_loaded(sent).frame(),
    ensures
        received == Some(frame),
{
    let length: u8 = frame.data.len() as u8;
    written_fields_read_back(sent[6].value(), frame.identifier, sent[1].value(), length);
    unpacking_inverts_packing(frame.data);
}

/// Mailbox allocation never assigns a mailbox twice: while the transmit
/// status still reports the mailbox of one transmission as not empty, the
/// next transmission claims another one.
pub proof fn transmissions_claim_distinct_mailboxes(
    first: Seq<Access>,
    first_frame: Frame,
    first_outcome: TransmitOutcome,
    second: Seq<Access>,
    second_frame: Frame,
    second_outcome: TransmitOutcome,
)
    requires
        transmitting(first, first_frame, first_outcome),
        transmitting(second, second_frame, second_outcome),
        first_outcome is Attempted,
        second_outcome is Attempted,
        !mailbox_is_empty(second[0].value(), first_outcome->mailbox),
    ensures
        first_outcome->mailbox != second_outcome->mailbox,
        first_outcome->mailbox < MAILBOXES,
        second_outcome->mailbox < MAILBOXES,
{
}

/// A transmission that finds all three mailboxes pending is refused, and
/// touches no mailbox.
pub proof fn transmission_without_empty_mailbox_is_refused(
    segment: Seq<Access>,
    frame: Frame,
    outcome: TransmitOutcome,
)
    requires
        transmitting(segment, frame, outcome),
        forall|mailbox: usize| mailbox < MAILBOXES ==> !mailbox_is_empty(segment[0].value(), mailbox),
    ensures
        outcome == TransmitOutcome::MailboxesFull,
        segment.len() == 1,
{
}

/// Driver of one controller, which receives from one of its two FIFOs.
pub struct Can<C: CanController> {
    registers: Registers<C>,
    fifo: CanFifo,
}

impl<C: CanController> Can<C> {
    /// Every register access that the driver has made, oldest first.
    pub closed spec fn trace(&self) -> Seq<Access> {
        self.registers.trace()
    }

    /// The FIFO that filters are routed to and frames are received from.
    pub closed spec fn receive_fifo(&self) -> CanFifo {
        self.fifo
    }

    /// The controller that is driven.
    pub closed spec fn hardware(&self) -> C {
        self.registers.hardware()
    }

    /// The driver of `controller` that receives from `fifo`. Nothing has been
    /// accessed yet.
    pub fn new(controller: C, fifo: CanFifo) -> (can: Self)
        ensures
            can.trace() == Seq::<Access>::empty(),
            can.receive_fifo() == fifo,
            can.hardware() == controller,
    {
        Can { registers: Registers::new(controller), fifo }
    }

    /// Gives the controller back.
    pub fn free(self) -> (controller: C)
        ensures
            controller == self.hardware(),
    {
        self.registers.free()
    }

    /// The controller, to look at.
    pub fn controller(&self) -> (controller: &C)
        ensures
            *controller == self.hardware(),
    {
        self.registers.controller()
    }

    /// The FIFO that filters are routed to and frames are received from.
    pub fn fifo(&self) -> (fifo: CanFifo)
        ensures
            fifo == self.receive_fifo(),
    {
        self.fifo
    }

    /// Brings the controller to `bitrate_bps` and `mode`, given its clock.
    pub fn configure(&mut self, clock_hz: u32, bitrate_bps: u32, mode: CanMode) -> (outcome: Result<
        (),
        CanError,
    >)
        ensures
            final(self).receive_fifo() == old(self).receive_fifo(),
            old(self).trace().is_prefix_of(final(self).trace()),
            configuring(
                added(old(self).trace(), final(self).trace()),
                clock_hz as int,
                bitrate_bps as int,
                mode,
                outcome,
            ),
    {
        let ghost start: Seq<Access> = self.trace();
        match self.registers.enter_init_mode() {
            Err(timeout) => {
                return Err(timeout);
            },
            Ok(()) => {},
        }
        let ghost entered: Seq<Access> = self.trace();
        let timing: NominalBitTiming = match NominalBitTiming::solve(clock_hz, bitrate_bps) {
            None => {
                return Err(CanError::BitTimingUnsatisfiable);
            },
            Some(timing) => timing,
        };
        self.registers.set_bit_timing_and_mode(timing, mode);
        let ghost programmed: Seq<Access> = self.trace();
        let outcome: Result<(), CanError> = self.registers.leave_init_mode();
        proof {
            let segment: Seq<Access> = added(start, self.trace());
            let split: int = entered.len() - start.len();
            lemma_added_in_two(entered, programmed, self.trace());
            lemma_added_in_two(start, entered, self.trace());
            assert(segment.skip(split + 2) =~= added(entered, self.trace()).skip(2));
        }
        outcome
    }

    /// Programs `filter` and routes what it accepts to the driver's FIFO.
    pub fn add_filter(&mut self, filter: CanFilter)
        ensures
            final(self).receive_fifo() == old(self).receive_fifo(),
            old(self).trace().is_prefix_of(final(self).trace()),
            programming_filter(
                added(old(self).trace(), final(self).trace()),
                filter@,
                old(self).receive_fifo(),
            ),
    {
        let fifo: CanFifo = self.fifo;
        self.registers.add_filter(filter, &fifo);
    }

    /// Sends `frame` from the first empty mailbox and waits for the end of
    /// the transmission; does nothing when no mailbox is empty.
    pub fn transmit(&mut self, frame: &CanFrame) -> (outcome: TransmitOutcome)
        ensures
            final(self).receive_fifo() == old(self).receive_fifo(),
            old(self).trace().is_prefix_of(final(self).trace()),
            transmitting(added(old(self).trace(), final(self).trace()), frame@, outcome),
    {
        let ghost start: Seq<Access> = self.trace();
        let mailbox: usize = match self.registers.find_empty_mailbox() {
            None => {
                return TransmitOutcome::MailboxesFull;
            },
            Some(mailbox) => mailbox,
        };
        let ghost found: Seq<Access> = self.trace();
        let length: usize = frame.dlc();
        self.registers.write_mailbox(
            mailbox,
            frame.id().as_raw(),
            length as u8,
            frame.data_high(),
            frame.data_low(),
        );
        let ghost loaded: Seq<Access> = self.trace();
        let status: TxStatus = self.registers.transmit_status(mailbox);
        proof {
            let segment: Seq<Access> = added(start, self.trace());
            lemma_added_in_two(found, loaded, self.trace());
            lemma_added_in_two(start, found, self.trace());
            assert(segment.skip(8) =~= added(found, self.trace()).skip(7));
        }
        TransmitOutcome::Attempted { mailbox, status }
    }

    /// Takes the next frame from the driver's FIFO, if one is pending.
    pub fn receive(&mut self) -> (frame: Option<CanFrame>)
        ensures
            final(self).receive_fifo() == old(self).receive_fifo(),
            old(self).trace().is_prefix_of(final(self).trace()),
            receiving(
                added(old(self).trace(), final(self).trace()),
                old(self).receive_fifo(),
                frame_view(frame),
            ),
    {
        let fifo: CanFifo = self.fifo;
        self.registers.receive(&fifo)
    }
}

} // verus!
