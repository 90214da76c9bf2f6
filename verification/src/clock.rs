//! Instants on a monotonic clock, and the time between them.
use crate::readings::read_since;
use vstd::prelude::*;

verus! {

/// A point in time, in nanoseconds after the moment at which its [`Clock`] was started.
///
/// Instants of different clocks are not comparable.
#[derive(Debug, Clone, Copy, PartialEq, Eq, Structural)]
pub struct Moment {
    pub nanos: u128,
}

/// A length of time in nanoseconds.
#[derive(Debug, Clone, Copy, PartialEq, Eq, Structural)]
pub struct Duration {
    pub nanos: u128,
}

/// The time from `earlier` to `later`, or zero where `earlier` is the later one.
pub open spec fn between(later: Moment, earlier: Moment) -> Duration {
    Duration {
        nanos: if later.nanos >= earlier.nanos {
            (later.nanos - earlier.nanos) as u128
        } else {
            0
        },
    }
}

/// The later one of two moments.
pub open spec fn later(left: Moment, right: Moment) -> Moment {
    if left.nanos < right.nanos {
        right
    } else {
        left
    }
}

/// Whether a moment is not before one that was recorded, if one was.
pub open spec fn not_before(later: Moment, recorded: Option<Moment>) -> bool {
    recorded matches Some(earlier) ==> earlier.nanos <= later.nanos
}

impl Moment {
    /// The time that has passed from `earlier` to this instant; zero where `earlier` is later.
    pub fn duration_since(&self, earlier: Moment) -> (elapsed: Duration)
        ensures
            elapsed == between(*self, earlier),
            self.nanos >= earlier.nanos ==> earlier.nanos + elapsed.nanos == self.nanos,
            self.nanos <= earlier.nanos ==> elapsed.nanos == 0,
    {
        if self.nanos >= earlier.nanos {
            Duration { nanos: self.nanos - earlier.nanos }
        } else {
            Duration { nanos: 0 }
        }
    }

    /// The later one of this moment and another.
    pub fn later_of(&self, other: Moment) -> (latest: Moment)
        ensures
            latest == later(*self, other),
            latest == *self || latest == other,
            self.nanos <= latest.nanos,
            other.nanos <= latest.nanos,
    {
        if self.nanos < other.nanos {
            other
        } else {
            *self
        }
    }
}

/// `tokio::time::Instant`, which a [`Clock`] carries and never looks into.
#[verifier::external_type_specification]
#[verifier::external_body]
pub struct ExTokioInstant(tokio::time::Instant);

/// Calls `tokio::time::Instant::now`. Nothing is claimed of the instant: it is the time.
#[verifier::external_body]
fn tokio_now() -> (now: tokio::time::Instant) {
    tokio::time::Instant::now()
}

/// Calls `tokio::time::Instant::elapsed`, in nanoseconds. Of the number nothing is claimed but
/// that it was read, and so fits a `std::time::Duration`: it depends on the time of the call.
#[verifier::external_body]
fn tokio_elapsed(epoch: &tokio::time::Instant) -> (nanos: u128)
    ensures
        read_since(*epoch, nanos),
{
    epoch.elapsed().as_nanos()
}

/// A running clock. Copies of a clock run on as one: their readings are comparable.
#[derive(Debug, Clone, Copy)]
pub struct Clock {
    epoch: tokio::time::Instant,
    last: Moment,
}

impl Clock {
    /// The last reading of the clock, or the moment of its start before the first one.
    pub closed spec fn last_reading(self) -> Moment {
        self.last
    }

    /// When the clock was started.
    pub closed spec fn epoch(self) -> tokio::time::Instant {
        self.epoch
    }

    /// Starts a clock at the present moment.
    pub fn start() -> (clock: Clock)
        ensures
            clock.last_reading() == (Moment { nanos: 0 }),
    {
        Clock { epoch: tokio_now(), last: Moment { nanos: 0 } }
    }

    /// Reads the clock. The reading is whatever the time is, but never before an earlier reading.
    pub fn now(&mut self) -> (now: Moment)
        ensures
            now == final(self).last_reading(),
            old(self).last_reading().nanos <= now.nanos,
            final(self).epoch() == old(self).epoch(),
            exists|nanos: u128|
                #[trigger] read_since(old(self).epoch(), nanos) && (now.nanos == nanos || now
                    == old(self).last_reading() && nanos < now.nanos),
    {
        // Tokio's instants never go backwards, so the later one is the new reading.
        self.last = Moment { nanos: tokio_elapsed(&self.epoch) }.later_of(self.last);
        self.last
    }

    /// Reads the clock while a value is there.
    pub fn stamp<T>(&mut self, value: T) -> (stamped: Stamped<T>)
        ensures
            stamped.value() == value,
            stamped.at() == final(self).last_reading(),
            old(self).last_reading().nanos <= final(self).last_reading().nanos,
            final(self).epoch() == old(self).epoch(),
            exists|nanos: u128|
                #[trigger] read_since(old(self).epoch(), nanos) && (stamped.at().nanos == nanos
                    || stamped.at() == old(self).last_reading() && nanos < stamped.at().nanos),
    {
        let at = self.now();
        Stamped { value, at }
    }
}

/// A value, and a reading of a clock that was taken while the value was there. There is no other
/// way to one than [`Clock::stamp`].
#[derive(Debug)]
pub struct Stamped<T> {
    value: T,
    at: Moment,
}

impl<T> Stamped<T> {
    /// The value.
    pub closed spec fn value(self) -> T {
        self.value
    }

    /// The reading.
    pub closed spec fn at(self) -> Moment {
        self.at
    }

    /// The value and the reading.
    pub fn into_parts(self) -> (parts: (T, Moment))
        ensures
            parts.0 == self.value(),
            parts.1 == self.at(),
    {
        (self.value, self.at)
    }
}

/// Whether a clock was read at `at` while `value` was there: after whatever made the value had
/// returned it, and before anything else took it over.
pub open spec fn read_with<T>(value: T, at: Moment) -> bool {
    exists|stamped: Stamped<T>|
        #![trigger stamped.value(), stamped.at()]
        stamped.value() == value && stamped.at() == at
}

/// The time between two moments leads from the earlier to the later one, and a moment that is not
/// after another is at no distance from it.
pub proof fn lemma_time_leads_to_the_later_moment(later: Moment, earlier: Moment)
    ensures
        earlier.nanos <= later.nanos ==> earlier.nanos + between(later, earlier).nanos
            == later.nanos,
        later.nanos <= earlier.nanos ==> between(later, earlier).nanos == 0,
{
}

/// Wherever a clock was read while a value was there, there is the stamp that it was read into.
pub proof fn lemma_reading_left_a_stamp<T>(value: T, at: Moment) -> (stamped: Stamped<T>)
    requires
        read_with(value, at),
    ensures
        stamped.value() == value,
        stamped.at() == at,
{
    choose|stamped: Stamped<T>|
        #![trigger stamped.value(), stamped.at()]
        stamped.value() == value && stamped.at() == at
}

} // verus!
