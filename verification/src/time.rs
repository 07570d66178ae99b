//! Spans of time and clock readings in whole nanoseconds.

use vstd::prelude::*;

verus! {

/// Nanoseconds in one second.
pub const NANOS_PER_SEC: u32 = 1_000_000_000;

/// The longest span that can be held: `u64::MAX` seconds and 999,999,999 nanoseconds.
pub const MAX_NANOS: u128 = 18_446_744_073_709_551_615_999_999_999;

/// A length of time: whole seconds and the nanoseconds of the second begun.
///
/// Its view is the total number of nanoseconds.
#[derive(Clone, Copy, Debug, PartialEq, Eq, Structural)]
pub struct Span {
    secs: u64,
    subsec: u32,
}

impl View for Span {
    type V = nat;

    closed spec fn view(&self) -> nat {
        (self.secs as nat) * 1_000_000_000 + self.subsec as nat
    }
}

impl Span {
    #[verifier::type_invariant]
    spec fn canonical(self) -> bool {
        self.subsec < NANOS_PER_SEC
    }

    /// The empty span.
    pub fn zero() -> (span: Span)
        ensures
            span@ == 0,
    {
        Span { secs: 0, subsec: 0 }
    }

    /// The span of `secs` seconds and `nanos` nanoseconds. Nanoseconds beyond a
    /// second are carried over; `None` when the carry does not fit.
    pub fn new(secs: u64, nanos: u32) -> (span: Option<Span>)
        ensures
            match span {
                Some(s) => s@ == secs as nat * 1_000_000_000 + nanos as nat,
                None => secs as nat * 1_000_000_000 + nanos as nat > MAX_NANOS,
            },
    {
        let carry: u64 = (nanos / NANOS_PER_SEC) as u64;
        let subsec: u32 = nanos % NANOS_PER_SEC;
        match secs.checked_add(carry) {
            Some(total) => Some(Span { secs: total, subsec }),
            None => None,
        }
    }

    /// The span of `millis` milliseconds.
    pub fn from_millis(millis: u64) -> (span: Span)
        ensures
            span@ == millis as nat * 1_000_000,
    {
        let subsec: u32 = ((millis % 1000) as u32) * 1_000_000;
        Span { secs: millis / 1000, subsec }
    }

    /// The span of `nanos` nanoseconds, or `None` when that is more than
    /// [`MAX_NANOS`].
    pub fn from_nanos(nanos: u128) -> (span: Option<Span>)
        ensures
            match span {
                Some(s) => s@ == nanos,
                None => nanos > MAX_NANOS,
            },
    {
        if nanos <= MAX_NANOS {
            Some(Span::split(nanos))
        } else {
            None
        }
    }

    /// Splits a nanosecond count into seconds and the rest.
    pub(crate) fn split(nanos: u128) -> (span: Span)
        requires
            nanos <= MAX_NANOS,
        ensures
            span@ == nanos,
    {
        let per_sec: u128 = NANOS_PER_SEC as u128;
        Span { secs: (nanos / per_sec) as u64, subsec: (nanos % per_sec) as u32 }
    }

    /// The whole span in nanoseconds.
    pub fn as_nanos(&self) -> (nanos: u128)
        ensures
            nanos == self@,
            nanos <= MAX_NANOS,
    {
        proof {
            use_type_invariant(self);
        }
        let secs: u128 = self.secs as u128;
        assert(secs * 1_000_000_000 <= 18_446_744_073_709_551_615_000_000_000);
        secs * 1_000_000_000 + (self.subsec as u128)
    }

    /// The whole seconds of the span.
    pub fn as_secs(&self) -> (secs: u64)
        ensures
            secs == self@ / 1_000_000_000,
    {
        proof {
            use_type_invariant(self);
        }
        self.secs
    }

    /// The nanoseconds past the last whole second.
    pub fn subsec_nanos(&self) -> (nanos: u32)
        ensures
            nanos == self@ % 1_000_000_000,
    {
        proof {
            use_type_invariant(self);
        }
        self.subsec
    }
}

/// A reading of a monotonic clock: the time that has passed since the clock's
/// origin. Its view is that time in nanoseconds.
#[derive(Clone, Copy, Debug, PartialEq, Eq, Structural)]
pub struct Instant {
    since_origin: Span,
}

impl View for Instant {
    type V = nat;

    closed spec fn view(&self) -> nat {
        self.since_origin@
    }
}

impl Instant {
    /// The reading taken when `elapsed` has passed since the clock's origin.
    pub fn from_origin(elapsed: Span) -> (instant: Instant)
        ensures
            instant@ == elapsed@,
    {
        Instant { since_origin: elapsed }
    }

    /// The time between the clock's origin and this reading.
    pub fn since_origin(&self) -> (elapsed: Span)
        ensures
            elapsed@ == self@,
    {
        self.since_origin
    }

    /// The time from `earlier` to this reading, or nothing if `earlier` is
    /// in fact the later of the two.
    pub fn duration_since(&self, earlier: Instant) -> (elapsed: Span)
        ensures
            elapsed@ == elapsed_between(self@, earlier@),
    {
        let later: u128 = self.since_origin.as_nanos();
        let first: u128 = earlier.since_origin.as_nanos();
        if later >= first {
            Span::split(later - first)
        } else {
            Span::zero()
        }
    }

    /// The reading `span` after this one, or `None` when it lies beyond what
    /// an [`Instant`] can hold.
    pub fn checked_add(&self, span: Span) -> (later: Option<Instant>)
        ensures
            match later {
                Some(i) => i@ == self@ + span@,
                None => self@ + span@ > MAX_NANOS,
            },
    {
        let total: u128 = self.since_origin.as_nanos() + span.as_nanos();
        match Span::from_nanos(total) {
            Some(s) => Some(Instant { since_origin: s }),
            None => None,
        }
    }
}

/// The time from `earlier` to `now`, both in nanoseconds since the origin;
/// zero when `earlier` is the later one.
pub open spec fn elapsed_between(now: nat, earlier: nat) -> nat {
    if now >= earlier {
        (now - earlier) as nat
    } else {
        0
    }
}

/// How many steps an animation cycle is cut into: at least one.
#[derive(Clone, Copy, Debug, PartialEq, Eq, Structural)]
pub struct StepCount {
    count: u32,
}

impl View for StepCount {
    type V = nat;

    closed spec fn view(&self) -> nat {
        self.count as nat
    }
}

impl StepCount {
    #[verifier::type_invariant]
    spec fn positive(self) -> bool {
        self.count > 0
    }

    /// `count` steps, or `None` for zero.
    pub fn new(count: u32) -> (steps: Option<StepCount>)
        ensures
            match steps {
                Some(s) => s@ == count && count > 0,
                None => count == 0,
            },
    {
        if count > 0 {
            Some(StepCount { count })
        } else {
            None
        }
    }

    /// The number of steps.
    pub fn get(&self) -> (count: u32)
        ensures
            count == self@,
            count > 0,
    {
        proof {
            use_type_invariant(self);
        }
        self.count
    }
}

} // verus!
