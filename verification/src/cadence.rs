//! How often a connected client reads: the operator's updates per second,
//! counted against the refresh cycles of the interface.

use vstd::prelude::*;

verus! {

/// Refresh cycles of the interface in one second.
pub const CYCLES_PER_SECOND: u32 = 60;

/// The slowest rate an operator can ask for, in thousandths of an update per
/// second.
pub const MIN_RATE_MILLI: u32 = 100;

/// The fastest rate an operator can ask for, in thousandths of an update per
/// second.
pub const MAX_RATE_MILLI: u32 = 2000;

/// The rate of a client that was never told one, in thousandths of an update
/// per second.
pub const DEFAULT_RATE_MILLI: u32 = 500;

/// No count of cycles grows beyond this: at the slowest rate a read is due
/// one cycle earlier.
pub const MAX_CYCLES: u32 = 601;

/// The rate nearest to `milli` that an operator can ask for.
pub open spec fn clamp_rate(milli: int) -> int {
    if milli < MIN_RATE_MILLI {
        MIN_RATE_MILLI as int
    } else if milli > MAX_RATE_MILLI {
        MAX_RATE_MILLI as int
    } else {
        milli
    }
}

/// Whether a read is due after `cycles` refresh cycles at a rate of `milli`
/// thousandths of an update per second: more cycles have gone by than one
/// update takes, that is `cycles > 60 / (milli / 1000)`.
pub open spec fn poll_due(cycles: int, milli: int) -> bool {
    cycles * milli > CYCLES_PER_SECOND * 1000
}

/// The count of cycles after one more cycle: one again where a read was due,
/// else one more.
pub open spec fn next_cycles(cycles: int, milli: int) -> int {
    if poll_due(cycles, milli) {
        1
    } else {
        cycles + 1
    }
}

/// Updates per second, in thousandths, within the bounds an operator can ask
/// for.
#[derive(Clone, Copy, Debug)]
pub struct PollRate {
    milli: u32,
}

impl PollRate {
    #[verifier::type_invariant]
    spec fn within_bounds(self) -> bool {
        MIN_RATE_MILLI <= self.milli <= MAX_RATE_MILLI
    }

    /// The rate in thousandths of an update per second.
    pub closed spec fn view(&self) -> int {
        self.milli as int
    }

    /// The rate nearest to `milli` thousandths of an update per second that
    /// an operator can ask for.
    pub fn new(milli: u32) -> (r: PollRate)
        ensures
            r@ == clamp_rate(milli as int),
    {
        if milli < MIN_RATE_MILLI {
            PollRate { milli: MIN_RATE_MILLI }
        } else if milli > MAX_RATE_MILLI {
            PollRate { milli: MAX_RATE_MILLI }
        } else {
            PollRate { milli }
        }
    }

    /// The rate in thousandths of an update per second.
    pub fn milli(&self) -> (r: u32)
        ensures
            r == self@,
            MIN_RATE_MILLI <= r <= MAX_RATE_MILLI,
    {
        proof {
            use_type_invariant(self);
        }
        self.milli
    }

    /// Whether a read is due after `cycles` refresh cycles.
    pub fn is_due(&self, cycles: u32) -> (r: bool)
        ensures
            r == poll_due(cycles as int, self@),
    {
        proof {
            use_type_invariant(self);
            assert(0 <= cycles * self.milli <= 0xffff_ffff * 2000) by (nonlinear_arith)
                requires
                    0 <= cycles <= 0xffff_ffff,
                    0 <= self.milli <= 2000,
            ;
        }
        (cycles as u64) * (self.milli as u64) > 60_000
    }
}

impl Default for PollRate {
    fn default() -> (r: PollRate)
        ensures
            r@ == DEFAULT_RATE_MILLI,
    {
        PollRate { milli: DEFAULT_RATE_MILLI }
    }
}

/// The refresh cycles counted since a read was last due.
#[derive(Clone, Copy, Debug)]
pub struct Cycles {
    count: u32,
}

impl Cycles {
    #[verifier::type_invariant]
    spec fn within_bounds(self) -> bool {
        self.count <= MAX_CYCLES
    }

    /// The cycles counted.
    pub closed spec fn view(&self) -> int {
        self.count as int
    }

    /// No cycles.
    pub fn new() -> (r: Cycles)
        ensures
            r@ == 0,
    {
        Cycles { count: 0 }
    }

    /// The cycles counted.
    pub fn count(&self) -> (r: u32)
        ensures
            r == self@,
            r <= MAX_CYCLES,
    {
        proof {
            use_type_invariant(self);
        }
        self.count
    }

    /// Counts one cycle more, and tells whether a read was due before it.
    pub fn advance(&mut self, rate: PollRate) -> (due: bool)
        ensures
            due == poll_due(old(self)@, rate@),
            final(self)@ == next_cycles(old(self)@, rate@),
    {
        proof {
            use_type_invariant(&*self);
        }
        let milli = rate.milli();
        let due = rate.is_due(self.count);
        proof {
            lemma_cycles_bounded(self.count as int, milli as int);
        }
        self.count = if due {
            1
        } else {
            self.count + 1
        };
        due
    }
}

/// A count of cycles that is within `MAX_CYCLES` stays there.
pub proof fn lemma_cycles_bounded(cycles: int, milli: int)
    requires
        0 <= cycles <= MAX_CYCLES,
        MIN_RATE_MILLI <= milli <= MAX_RATE_MILLI,
    ensures
        1 <= next_cycles(cycles, milli) <= MAX_CYCLES,
{
    if cycles == MAX_CYCLES {
        assert(cycles * milli > 60_000) by (nonlinear_arith)
            requires
                cycles == 601,
                milli >= 100,
        ;
    }
}

} // verus!
