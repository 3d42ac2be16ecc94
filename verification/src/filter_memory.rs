//! The filter registers as memory, and what programming a filter does to it.

use vstd::prelude::*;
use crate::enums::{CanFifo, Filter, FILTER_BANKS};
use crate::layout::{bank_bit, FINIT};
use crate::registers::{programming_filter, Access, Register};

verus! {

/// What the filter registers of a controller hold.
///
/// The filter registers are memory: a read returns what was last stored.
/// Scheme, scale and assignment take a write only while the filters are open
/// for editing; a filter word takes one only then, or while its bank is
/// inactive.
pub struct FilterMemory {
    pub control: u32,
    pub mode: u32,
    pub scale: u32,
    pub assignment: u32,
    pub activation: u32,
    pub words: Seq<u32>,
}

impl FilterMemory {
    /// Whether there are two words for each bank.
    pub open spec fn well_formed(self) -> bool {
        self.words.len() == 2 * FILTER_BANKS
    }

    /// Whether the filters are open for editing.
    pub open spec fn editing(self) -> bool {
        self.control & FINIT != 0
    }

    /// Whether `bank` takes part in acceptance.
    pub open spec fn active(self, bank: usize) -> bool {
        self.activation & bank_bit(bank) != 0
    }

    /// What a read of `register` returns, if it is a filter register.
    pub open spec fn load(self, register: Register) -> Option<u32> {
        match register {
            Register::FilterControl => Some(self.control),
            Register::FilterMode => Some(self.mode),
            Register::FilterScale => Some(self.scale),
            Register::FilterAssignment => Some(self.assignment),
            Register::FilterActivation => Some(self.activation),
            Register::FilterWord(word) => if word < self.words.len() {
                Some(self.words[word as int])
            } else {
                None
            },
            _ => None,
        }
    }

    /// The memory after a write of `value` to `register`.
    pub open spec fn store(self, register: Register, value: u32) -> FilterMemory {
        match register {
            Register::FilterControl => FilterMemory { control: value, ..self },
            Register::FilterActivation => FilterMemory { activation: value, ..self },
            Register::FilterMode => if self.editing() {
                FilterMemory { mode: value, ..self }
            } else {
                self
            },
            Register::FilterScale => if self.editing() {
                FilterMemory { scale: value, ..self }
            } else {
                self
            },
            Register::FilterAssignment => if self.editing() {
                FilterMemory { assignment: value, ..self }
            } else {
                self
            },
            Register::FilterWord(word) => if word < self.words.len() && (self.editing()
                || !self.active(word / 2)) {
                FilterMemory { words: self.words.update(word as int, value), ..self }
            } else {
                self
            },
            _ => self,
        }
    }

    /// The memory after one access.
    pub open spec fn after(self, access: Access) -> FilterMemory {
        match access {
            Access::Write { register, value } => self.store(register, value),
            Access::Read { .. } => self,
        }
    }

    /// Whether an access is what this memory would show: a read of a filter
    /// register returns what the memory holds.
    pub open spec fn shows(self, access: Access) -> bool {
        match access {
            Access::Read { register, value } => match self.load(register) {
                Some(held) => value == held,
                None => true,
            },
            Access::Write { .. } => true,
        }
    }
}

/// The memory after the accesses of `segment`, made in order on `memory`.
pub open spec fn replay(segment: Seq<Access>, memory: FilterMemory) -> FilterMemory
    decreases segment.len(),
{
    if segment.len() == 0 {
        memory
    } else {
        replay(segment.drop_last(), memory).after(segment.last())
    }
}

/// Whether every read of `segment` returns what the memory holds at that
/// point, when the accesses are made in order on `memory`.
pub open spec fn agrees(segment: Seq<Access>, memory: FilterMemory) -> bool
    decreases segment.len(),
{
    if segment.len() == 0 {
        true
    } else {
        &&& agrees(segment.drop_last(), memory)
        &&& replay(segment.drop_last(), memory).shows(segment.last())
    }
}

/// The memory after `filter` was programmed and routed to `fifo`: the bank
/// is active, in the single scale, with the scheme, the FIFO and the two
/// words of the filter; the filters are closed; nothing else has changed.
pub open spec fn programmed(memory: FilterMemory, filter: Filter, fifo: CanFifo) -> FilterMemory {
    let bit: u32 = bank_bit(filter.bank);
    FilterMemory {
        control: memory.control & !FINIT,
        mode: (memory.mode & !bit) | (if filter.mode.bit() {
            bit
        } else {
            0
        }),
        scale: memory.scale | bit,
        assignment: (memory.assignment & !bit) | (if fifo.bit() {
            bit
        } else {
            0
        }),
        activation: memory.activation | bit,
        words: memory.words.update(2 * filter.bank, filter.id_value).update(
            2 * filter.bank + 1,
            filter.id_mask,
        ),
    }
}

/// Replaying one access more.
proof fn lemma_replay_next(segment: Seq<Access>, memory: FilterMemory, next: int)
    requires
        0 <= next < segment.len(),
    ensures
        replay(segment.take(next + 1), memory) == replay(segment.take(next), memory).after(segment[next]),
        agrees(segment.take(next + 1), memory) == (agrees(segment.take(next), memory) && replay(
            segment.take(next),
            memory,
        ).shows(segment[next])),
{
    assert(segment.take(next + 1).drop_last() =~= segment.take(next));
}

/// Replaying two stretches in a row.
proof fn lemma_replay_in_two(first: Seq<Access>, second: Seq<Access>, memory: FilterMemory)
    ensures
        replay(first + second, memory) == replay(second, replay(first, memory)),
        agrees(first + second, memory) == (agrees(first, memory) && agrees(second, replay(first, memory))),
    decreases second.len(),
{
    if second.len() > 0 {
        lemma_replay_in_two(first, second.drop_last(), memory);
        assert((first + second).drop_last() =~= first + second.drop_last());
    }
}

/// Programming a filter into filter memory leaves the memory as
/// [`programmed`] says, whatever it held before.
pub proof fn programming_takes_effect(
    segment: Seq<Access>,
    filter: Filter,
    fifo: CanFifo,
    memory: FilterMemory,
)
    requires
        memory.well_formed(),
        filter.bank < FILTER_BANKS,
        programming_filter(segment, filter, fifo),
        agrees(segment, memory),
    ensures
        replay(segment, memory) == programmed(memory, filter, fifo),
{
    let bit: u32 = bank_bit(filter.bank);
    lemma_replay_next(segment, memory, 15);
    lemma_replay_next(segment, memory, 14);
    lemma_replay_next(segment, memory, 13);
    lemma_replay_next(segment, memory, 12);
    lemma_replay_next(segment, memory, 11);
    lemma_replay_next(segment, memory, 10);
    lemma_replay_next(segment, memory, 9);
    lemma_replay_next(segment, memory, 8);
    lemma_replay_next(segment, memory, 7);
    lemma_replay_next(segment, memory, 6);
    lemma_replay_next(segment, memory, 5);
    lemma_replay_next(segment, memory, 4);
    lemma_replay_next(segment, memory, 3);
    lemma_replay_next(segment, memory, 2);
    lemma_replay_next(segment, memory, 1);
    lemma_replay_next(segment, memory, 0);
    let c: u32 = memory.control;
    let a: u32 = memory.activation;
    let opened: u32 = (c & !0u32) | FINIT;
    let inactive: u32 = (a & !bit) | 0u32;
    let active: u32 = (inactive & !0u32) | bit;
    let closed: u32 = (opened & !FINIT) | 0u32;
    assert(opened & 1u32 != 0 && closed == c & !1u32) by (bit_vector)
        requires
            opened == (c & !0u32) | 1u32,
            closed == (opened & !1u32) | 0u32,
    ;
    assert(inactive & bit == 0 && active == a | bit) by (bit_vector)
        requires
            inactive == (a & !bit) | 0u32,
            active == (inactive & !0u32) | bit,
    ;
    let s: u32 = memory.scale;
    assert((s & !0u32) | bit == s | bit) by (bit_vector);
}

/// Programming the same filter into memory that already holds it changes nothing.
pub proof fn programmed_is_idempotent(memory: FilterMemory, filter: Filter, fifo: CanFifo)
    requires
        memory.well_formed(),
        filter.bank < FILTER_BANKS,
    ensures
        programmed(programmed(memory, filter, fifo), filter, fifo) == programmed(memory, filter, fifo),
        programmed(memory, filter, fifo).well_formed(),
{
    let bit: u32 = bank_bit(filter.bank);
    let once: FilterMemory = programmed(memory, filter, fifo);
    let twice: FilterMemory = programmed(once, filter, fifo);
    let control: u32 = memory.control;
    let mode: u32 = memory.mode;
    let scale: u32 = memory.scale;
    let assignment: u32 = memory.assignment;
    let activation: u32 = memory.activation;
    assert((control & !1u32) & !1u32 == control & !1u32 && (scale | bit) | bit == scale | bit && (
    activation | bit) | bit == activation | bit) by (bit_vector);
    assert((((mode & !bit) | bit) & !bit) | bit == (mode & !bit) | bit && (((mode & !bit) | 0u32)
        & !bit) | 0u32 == (mode & !bit) | 0u32) by (bit_vector);
    assert((((assignment & !bit) | bit) & !bit) | bit == (assignment & !bit) | bit && (((assignment
        & !bit) | 0u32) & !bit) | 0u32 == (assignment & !bit) | 0u32) by (bit_vector);
    assert(twice.words =~= once.words);
}

/// Filter programming is idempotent: on filter memory, programming a bank
/// twice with the same filter and FIFO leaves the filter registers, and with
/// them what is accepted, as programming it once does.
pub proof fn programming_twice_is_programming_once(
    first: Seq<Access>,
    second: Seq<Access>,
    filter: Filter,
    fifo: CanFifo,
    memory: FilterMemory,
)
    requires
        memory.well_formed(),
        filter.bank < FILTER_BANKS,
        programming_filter(first, filter, fifo),
        programming_filter(second, filter, fifo),
        agrees(first + second, memory),
    ensures
        replay(first + second, memory) == replay(first, memory),
{
    lemma_replay_in_two(first, second, memory);
    programming_takes_effect(first, filter, fifo, memory);
    programmed_is_idempotent(memory, filter, fifo);
    programming_takes_effect(second, filter, fifo, programmed(memory, filter, fifo));
}

/// In memory where `filter` was programmed its bank is active, in the single
/// scale, holds the filter's two words, scheme and FIFO, and the filters are
/// closed.
pub proof fn programmed_bank_holds_filter(memory: FilterMemory, filter: Filter, fifo: CanFifo)
    requires
        memory.well_formed(),
        filter.bank < FILTER_BANKS,
    ensures
        ({
            let after: FilterMemory = programmed(memory, filter, fifo);
            let bit: u32 = bank_bit(filter.bank);
            &&& !after.editing()
            &&& after.active(filter.bank)
            &&& after.scale & bit != 0
            &&& (after.mode & bit != 0) == filter.mode.bit()
            &&& (after.assignment & bit != 0) == fifo.bit()
            &&& after.words[2 * filter.bank] == filter.id_value
            &&& after.words[2 * filter.bank + 1] == filter.id_mask
        }),
{
    let bank: u32 = filter.bank as u32;
    let control: u32 = memory.control;
    let mode: u32 = memory.mode;
    let scale: u32 = memory.scale;
    let assignment: u32 = memory.assignment;
    let activation: u32 = memory.activation;
    assert((control & !1u32) & 1u32 == 0) by (bit_vector);
    assert((scale | (1u32 << bank)) & (1u32 << bank) != 0 && (activation | (1u32 << bank)) & (1u32
        << bank) != 0) by (bit_vector)
        requires
            bank < 28,
    ;
    assert(((mode & !(1u32 << bank)) | (1u32 << bank)) & (1u32 << bank) != 0 && ((mode & !(1u32
        << bank)) | 0u32) & (1u32 << bank) == 0) by (bit_vector)
        requires
            bank < 28,
    ;
    assert(((assignment & !(1u32 << bank)) | (1u32 << bank)) & (1u32 << bank) != 0 && ((assignment
        & !(1u32 << bank)) | 0u32) & (1u32 << bank) == 0) by (bit_vector)
        requires
            bank < 28,
    ;
}

} // verus!
