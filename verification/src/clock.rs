//! Points in time of a clock that does not run backwards.

use vstd::prelude::*;

verus! {

/// The nanoseconds of a second.
pub const NANOS_PER_SECOND: u128 = 1_000_000_000;

/// A point in time: the time since the clock's origin.
#[derive(Debug, Clone, Copy)]
pub struct Moment {
    secs: u64,
    nanos: u32,
}

impl View for Moment {
    type V = nat;

    /// The nanoseconds since the clock's origin.
    closed spec fn view(&self) -> nat {
        (self.secs * NANOS_PER_SECOND + self.nanos) as nat
    }
}

impl Moment {
    #[verifier::type_invariant]
    spec fn in_order(&self) -> bool {
        self.nanos < NANOS_PER_SECOND
    }

    /// The moment `secs` seconds and `nanos` nanoseconds after the origin.
    pub fn new(secs: u64, nanos: u32) -> (moment: Moment)
        requires
            nanos < NANOS_PER_SECOND,
        ensures
            moment@ == secs * NANOS_PER_SECOND + nanos,
    {
        Moment { secs, nanos }
    }

    fn total(&self) -> (nanos: u128)
        ensures
            nanos == self@,
            nanos < (u64::MAX + 1) * NANOS_PER_SECOND,
    {
        proof {
            use_type_invariant(self);
        }
        self.secs as u128 * NANOS_PER_SECOND + self.nanos as u128
    }

    /// The whole seconds that have gone by since `earlier`: none where `earlier`
    /// is later than this moment.
    pub fn seconds_since(&self, earlier: &Moment) -> (seconds: u64)
        ensures
            seconds == elapsed_seconds(earlier@, self@),
    {
        let to: u128 = self.total();
        let from: u128 = earlier.total();
        if to < from {
            0
        } else {
            ((to - from) / NANOS_PER_SECOND) as u64
        }
    }

    /// Whether `seconds` seconds after `start` have been reached.
    pub fn has_reached(&self, start: &Moment, seconds: u64) -> (reached: bool)
        ensures
            reached == (self@ >= deadline(start@, seconds)),
    {
        self.total() >= start.total() + seconds as u128 * NANOS_PER_SECOND
    }

    /// The nanoseconds that are left until `seconds` seconds after `start`.
    pub fn nanos_until(&self, start: &Moment, seconds: u64) -> (nanos: u128)
        ensures
            nanos == time_left(self@, deadline(start@, seconds)),
    {
        let end: u128 = start.total() + seconds as u128 * NANOS_PER_SECOND;
        let now: u128 = self.total();
        if end <= now {
            0
        } else {
            end - now
        }
    }
}

/// The whole seconds from one moment to another, none where the second is the
/// earlier.
pub open spec fn elapsed_seconds(from: nat, to: nat) -> nat {
    if to < from {
        0
    } else {
        ((to - from) / NANOS_PER_SECOND as int) as nat
    }
}

/// The moment `seconds` seconds after `start`.
pub open spec fn deadline(start: nat, seconds: u64) -> nat {
    (start + seconds * NANOS_PER_SECOND) as nat
}

/// The nanoseconds that are left at one moment until another, none where that has
/// been reached.
pub open spec fn time_left(now: nat, end: nat) -> nat {
    if end <= now {
        0
    } else {
        (end - now) as nat
    }
}

/// From one moment to a later one, whole seconds have gone by exactly when the
/// moment that many seconds later has been reached.
pub proof fn seconds_and_deadlines_agree(from: nat, to: nat, seconds: u64)
    requires
        from <= to,
    ensures
        elapsed_seconds(from, to) >= seconds <==> to >= deadline(from, seconds),
{
}

/// A second has a billion nanoseconds.
pub proof fn a_second_has_a_billion_nanoseconds()
    ensures
        NANOS_PER_SECOND == 1_000_000_000,
{
}

/// The whole seconds between two moments are as many as fit between them: the
/// nanoseconds from one to the other make up that many seconds, but not one more.
/// Backwards in time there are none.
pub proof fn elapsed_seconds_fit_between(from: nat, to: nat)
    ensures
        from <= to ==> elapsed_seconds(from, to) * 1_000_000_000 <= to - from,
        from <= to ==> to - from < (elapsed_seconds(from, to) + 1) * 1_000_000_000,
        to < from ==> elapsed_seconds(from, to) == 0,
{
}

/// A moment so many seconds later is so many billion nanoseconds later.
pub proof fn a_deadline_is_seconds_later(start: nat, seconds: u64)
    ensures
        deadline(start, seconds) - start == seconds * 1_000_000_000,
{
}

/// What is left of the time ends exactly with it, and nothing is left from then on.
pub proof fn what_is_left_ends_in_time(now: nat, end: nat)
    ensures
        now <= end ==> now + time_left(now, end) == end,
        end <= now ==> time_left(now, end) == 0,
{
}

} // verus!
