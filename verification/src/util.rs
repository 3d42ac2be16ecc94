//! Bit timing: what an answer for a clock and a bitrate is, and how it is found.

use vstd::prelude::*;
use vstd::arithmetic::div_mod::{lemma_div_by_multiple, lemma_fundamental_div_mod, lemma_mod_multiples_basic};
use vstd::math::{abs, min};

verus! {

/// Fewest time quanta in one bit, the synchronization quantum included.
pub const MIN_QUANTA: u32 = 8;

/// Most time quanta in one bit, the synchronization quantum included.
pub const MAX_QUANTA: u32 = 25;

/// Largest clock prescaler.
pub const MAX_PRESCALER: u32 = 512;

/// Most time quanta in the first bit segment.
pub const MAX_SEG1: u32 = 16;

/// Most time quanta in the second bit segment.
pub const MAX_SEG2: u32 = 8;

/// Largest synchronization jump width.
pub const MAX_SYNC_JUMP_WIDTH: u32 = 4;

/// The numbers that make up a bit timing.
pub struct Timing {
    pub prescaler: int,
    pub seg1: int,
    pub seg2: int,
    pub sync_jump_width: int,
}

impl Timing {
    /// Time quanta in one bit: one for synchronization, then the two segments.
    pub open spec fn quanta(self) -> int {
        1 + self.seg1 + self.seg2
    }

    /// Whether each number fits its register field.
    pub open spec fn fits(self) -> bool {
        &&& 1 <= self.prescaler <= MAX_PRESCALER
        &&& 1 <= self.seg1 <= MAX_SEG1
        &&& 1 <= self.seg2 <= MAX_SEG2
        &&& 1 <= self.sync_jump_width <= min(MAX_SYNC_JUMP_WIDTH as int, self.seg2)
    }
}

/// Whether `prescaler` is within its field and divides `clock` down to
/// exactly `bitrate` for bits of `quanta` time quanta. A bitrate of zero is
/// the result of no division.
pub open spec fn exact_division(clock: int, bitrate: int, quanta: int, prescaler: int) -> bool {
    &&& bitrate > 0
    &&& 1 <= prescaler <= MAX_PRESCALER
    &&& clock == bitrate * prescaler * quanta
}

/// Whether some supported number of quanta admits an exact division.
pub open spec fn solvable(clock: int, bitrate: int) -> bool {
    exists|quanta: int, prescaler: int|
        MIN_QUANTA <= quanta <= MAX_QUANTA && #[trigger] exact_division(
            clock,
            bitrate,
            quanta,
            prescaler,
        )
}

/// Whether `quanta - 1` time quanta can be split into a first segment of
/// `seg1` and a second segment of the rest.
pub open spec fn valid_split(quanta: int, seg1: int) -> bool {
    &&& 1 <= seg1 <= MAX_SEG1
    &&& 1 <= quanta - 1 - seg1 <= MAX_SEG2
}

/// Distance of the sample point `(1 + seg1) / quanta` from 7/8, counted in
/// units of `1 / (8 * quanta)`.
pub open spec fn sample_point_error(quanta: int, seg1: int) -> nat {
    abs(8 * (1 + seg1) - 7 * quanta)
}

/// Whether `seg1` is the valid split whose sample point is nearest to 7/8;
/// of two equally near, the earlier one.
pub open spec fn best_split(quanta: int, seg1: int) -> bool {
    &&& valid_split(quanta, seg1)
    &&& forall|other: int| #[trigger]
        valid_split(quanta, other) ==> {
            ||| sample_point_error(quanta, seg1) < sample_point_error(quanta, other)
            ||| sample_point_error(quanta, seg1) == sample_point_error(quanta, other) && seg1
                <= other
        }
}

/// Whether `timing` is the answer for `clock` and `bitrate`: an exact
/// division with the largest number of quanta that admits one, split
/// nearest to a sample point of 7/8, with the widest jump the second segment
/// allows.
pub open spec fn solves(timing: Timing, clock: int, bitrate: int) -> bool {
    &&& MIN_QUANTA <= timing.quanta() <= MAX_QUANTA
    &&& exact_division(clock, bitrate, timing.quanta(), timing.prescaler)
    &&& forall|quanta: int, prescaler: int|
        timing.quanta() < quanta <= MAX_QUANTA ==> !#[trigger] exact_division(
            clock,
            bitrate,
            quanta,
            prescaler,
        )
    &&& best_split(timing.quanta(), timing.seg1)
    &&& timing.sync_jump_width == min(timing.seg2, MAX_SYNC_JUMP_WIDTH as int)
}

/// An answer is within the register fields.
pub proof fn solution_fits(timing: Timing, clock: int, bitrate: int)
    requires
        solves(timing, clock, bitrate),
    ensures
        timing.fits(),
{
}

/// A clock and a bitrate have at most one answer.
pub proof fn solution_is_unique(first: Timing, second: Timing, clock: int, bitrate: int)
    requires
        solves(first, clock, bitrate),
        solves(second, clock, bitrate),
    ensures
        first == second,
{
    let quanta: int = first.quanta();
    assert(first.prescaler == second.prescaler) by (nonlinear_arith)
        requires
            bitrate > 0,
            quanta > 0,
            bitrate * first.prescaler * quanta == bitrate * second.prescaler * quanta,
    ;
}

/// The bitrate that an answer gives is the one asked for, with no remainder.
pub proof fn solution_gives_bitrate(timing: Timing, clock: int, bitrate: int)
    requires
        solves(timing, clock, bitrate),
    ensures
        clock % (timing.prescaler * timing.quanta()) == 0,
        clock / (timing.prescaler * timing.quanta()) == bitrate,
{
    let period: int = timing.prescaler * timing.quanta();
    assert(period > 0) by (nonlinear_arith)
        requires
            period == timing.prescaler * timing.quanta(),
            timing.prescaler >= 1,
            timing.quanta() >= 1,
    ;
    assert(clock == bitrate * period) by (nonlinear_arith)
        requires
            clock == bitrate * timing.prescaler * timing.quanta(),
            period == timing.prescaler * timing.quanta(),
    ;
    lemma_mod_multiples_basic(bitrate, period);
    lemma_div_by_multiple(bitrate, period);
}

/// Timing parameters of the nominal bitrate, each within its register field.
#[derive(Clone, Copy, Debug, PartialEq, Eq)]
pub struct NominalBitTiming {
    prescaler: u16,
    seg1: u8,
    seg2: u8,
    sync_jump_width: u8,
}

impl View for NominalBitTiming {
    type V = Timing;

    closed spec fn view(&self) -> Timing {
        Timing {
            prescaler: self.prescaler as int,
            seg1: self.seg1 as int,
            seg2: self.seg2 as int,
            sync_jump_width: self.sync_jump_width as int,
        }
    }
}

impl NominalBitTiming {
    #[verifier::type_invariant]
    closed spec fn valid(self) -> bool {
        self@.fits()
    }

    /// The timing with these numbers, unless one is outside its field.
    pub fn new(prescaler: u16, seg1: u8, seg2: u8, sync_jump_width: u8) -> (timing: Option<Self>)
        ensures
            timing is Some <==> (Timing {
                prescaler: prescaler as int,
                seg1: seg1 as int,
                seg2: seg2 as int,
                sync_jump_width: sync_jump_width as int,
            }).fits(),
            timing is Some ==> timing.unwrap()@ == (Timing {
                prescaler: prescaler as int,
                seg1: seg1 as int,
                seg2: seg2 as int,
                sync_jump_width: sync_jump_width as int,
            }),
    {
        if 1 <= prescaler && prescaler as u32 <= MAX_PRESCALER && 1 <= seg1 && seg1 as u32
            <= MAX_SEG1 && 1 <= seg2 && seg2 as u32 <= MAX_SEG2 && 1 <= sync_jump_width
            && sync_jump_width as u32 <= MAX_SYNC_JUMP_WIDTH && sync_jump_width <= seg2 {
            Some(NominalBitTiming { prescaler, seg1, seg2, sync_jump_width })
        } else {
            None
        }
    }

    /// Clock cycles in one time quantum.
    pub fn prescaler(&self) -> (prescaler: u16)
        ensures
            prescaler == self@.prescaler,
            self@.fits(),
    {
        proof {
            use_type_invariant(self);
        }
        self.prescaler
    }

    /// Time quanta between synchronization and the sample point.
    pub fn seg1(&self) -> (seg1: u8)
        ensures
            seg1 == self@.seg1,
            self@.fits(),
    {
        proof {
            use_type_invariant(self);
        }
        self.seg1
    }

    /// Time quanta after the sample point.
    pub fn seg2(&self) -> (seg2: u8)
        ensures
            seg2 == self@.seg2,
            self@.fits(),
    {
        proof {
            use_type_invariant(self);
        }
        self.seg2
    }

    /// Most time quanta by which a bit is stretched or shortened to resynchronize.
    pub fn sync_jump_width(&self) -> (sync_jump_width: u8)
        ensures
            sync_jump_width == self@.sync_jump_width,
            self@.fits(),
    {
        proof {
            use_type_invariant(self);
        }
        self.sync_jump_width
    }

    /// The prescaler that divides `clock_hz` down to exactly `bitrate_bps`
    /// for bits of `quanta` time quanta, if there is one within its field.
    pub fn exact_prescaler(clock_hz: u32, bitrate_bps: u32, quanta: u32) -> (prescaler: Option<u16>)
        requires
            MIN_QUANTA <= quanta <= MAX_QUANTA,
        ensures
            match prescaler {
                Some(p) => exact_division(clock_hz as int, bitrate_bps as int, quanta as int, p as int),
                None => forall|p: int| !#[trigger] exact_division(
                    clock_hz as int,
                    bitrate_bps as int,
                    quanta as int,
                    p,
                ),
            },
    {
        if bitrate_bps == 0 {
            return None;
        }
        assert(0 < bitrate_bps as int * quanta as int <= 0xFFFF_FFFF * 25) by (nonlinear_arith)
            requires
                0 < bitrate_bps <= 0xFFFF_FFFF,
                0 < quanta <= 25,
        ;
        let bit_period: u64 = bitrate_bps as u64 * quanta as u64;
        let clock: u64 = clock_hz as u64;
        let remainder: u64 = clock % bit_period;
        let quotient: u64 = clock / bit_period;
        proof {
            lemma_fundamental_div_mod(clock as int, bit_period as int);
            assert forall|p: int| #[trigger]
                exact_division(clock_hz as int, bitrate_bps as int, quanta as int, p) implies p
                == quotient && remainder == 0 by {
                assert(clock_hz as int == p * (bit_period as int)) by (nonlinear_arith)
                    requires
                        clock_hz as int == bitrate_bps as int * p * quanta as int,
                        bit_period as int == bitrate_bps as int * quanta as int,
                ;
                lemma_mod_multiples_basic(p, bit_period as int);
                lemma_div_by_multiple(p, bit_period as int);
            }
        }
        if remainder == 0 && 1 <= quotient && quotient <= MAX_PRESCALER as u64 {
            proof {
                assert(clock_hz as int == bitrate_bps as int * quotient as int * quanta as int)
                    by (nonlinear_arith)
                    requires
                        clock_hz as int == bit_period as int * (quotient as int),
                        bit_period as int == bitrate_bps as int * quanta as int,
                ;
            }
            Some(quotient as u16)
        } else {
            None
        }
    }

    /// The first segment of the best split of `quanta - 1` time quanta.
    pub fn nearest_seg1(quanta: u32) -> (seg1: u8)
        requires
            MIN_QUANTA <= quanta <= MAX_QUANTA,
        ensures
            best_split(quanta as int, seg1 as int),
    {
        let ideal_eighths: u32 = 7 * quanta - 8;
        let below: u32 = ideal_eighths / 8;
        let nearest: u32 = if ideal_eighths % 8 <= 4 {
            below
        } else {
            below + 1
        };
        let least: u32 = if quanta - 1 > MAX_SEG2 + 1 {
            quanta - 1 - MAX_SEG2
        } else {
            1
        };
        let most: u32 = if quanta - 2 < MAX_SEG1 {
            quanta - 2
        } else {
            MAX_SEG1
        };
        let seg1: u32 = if nearest < least {
            least
        } else if nearest > most {
            most
        } else {
            nearest
        };
        seg1 as u8
    }

    /// Derives the timing for `bitrate_bps` from a peripheral clock of
    /// `clock_hz`: the answer described by [`solves`], or `None` when no
    /// supported number of quanta divides the clock exactly.
    pub fn solve(clock_hz: u32, bitrate_bps: u32) -> (timing: Option<Self>)
        ensures
            timing is Some <==> solvable(clock_hz as int, bitrate_bps as int),
            timing is Some ==> solves(timing.unwrap()@, clock_hz as int, bitrate_bps as int),
    {
        let mut quanta: u32 = MAX_QUANTA;
        while quanta >= MIN_QUANTA
            invariant
                MIN_QUANTA - 1 <= quanta <= MAX_QUANTA,
                forall|q: int, p: int|
                    quanta < q <= MAX_QUANTA ==> !#[trigger] exact_division(
                        clock_hz as int,
                        bitrate_bps as int,
                        q,
                        p,
                    ),
            decreases quanta,
        {
            match Self::exact_prescaler(clock_hz, bitrate_bps, quanta) {
                Some(prescaler) => {
                    let seg1: u8 = Self::nearest_seg1(quanta);
                    let seg2: u8 = (quanta - 1 - seg1 as u32) as u8;
                    let sync_jump_width: u8 = if seg2 as u32 <= MAX_SYNC_JUMP_WIDTH {
                        seg2
                    } else {
                        MAX_SYNC_JUMP_WIDTH as u8
                    };
                    return Some(NominalBitTiming { prescaler, seg1, seg2, sync_jump_width });
                },
                None => {},
            }
            quanta = quanta - 1;
        }
        None
    }
}

} // verus!
