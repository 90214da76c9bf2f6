//! Timing information associated with a request.
use crate::clock::{between, not_before, Clock, Duration, Moment};
use vstd::prelude::*;

verus! {

/// Contains timing information associated with a request.
///
/// Timings that a layer put into a request are found among the request's extensions, and those
/// of a whole exchange among the extensions of its answer.
#[derive(Debug, Clone, Copy, PartialEq, Eq, Structural)]
pub struct Timings {
    /// When the request started.
    pub start: Moment,
    /// When the request was received (headers and body).
    pub request_received: Option<Moment>,
    /// When the request body was parsed.
    pub request_parsed: Option<Moment>,
    /// When the response handler returned.
    pub response_handled: Option<Moment>,
    /// When the response was written.
    pub response_written: Option<Moment>,
}

/// The time from `from` to `to`, where both moments were recorded.
pub open spec fn phase(to: Option<Moment>, from: Option<Moment>) -> Option<Duration> {
    match (to, from) {
        (Some(to), Some(from)) => Some(between(to, from)),
        _ => None,
    }
}

/// The length of a phase in nanoseconds, or zero where it is not known.
pub open spec fn nanos_or_zero(phase: Option<Duration>) -> int {
    match phase {
        Some(duration) => duration.nanos as int,
        None => 0,
    }
}

/// The first of two moments that was recorded.
pub open spec fn recorded_first(first: Option<Moment>, second: Option<Moment>) -> Option<Moment> {
    if first is Some {
        first
    } else {
        second
    }
}

impl Timings {
    /// The timings of a request that has just started.
    pub open spec fn started(start: Moment) -> Timings {
        Timings {
            start,
            request_received: None,
            request_parsed: None,
            response_handled: None,
            response_written: None,
        }
    }

    /// The moment from which the writing of the response is counted: the last one before it that
    /// was recorded after the start.
    pub open spec fn writing_began(self) -> Option<Moment> {
        recorded_first(
            self.response_handled,
            recorded_first(self.request_parsed, self.request_received),
        )
    }

    /// These timings once it was recorded that the request was received.
    pub open spec fn with_received(self, at: Moment) -> Timings {
        Timings { request_received: Some(at), ..self }
    }

    /// These timings once it was recorded that the request body was parsed.
    pub open spec fn with_parsed(self, at: Moment) -> Timings {
        Timings { request_parsed: Some(at), ..self }
    }

    /// These timings once it was recorded that the response handler returned.
    pub open spec fn with_response_handled(self, at: Moment) -> Timings {
        Timings { response_handled: Some(at), ..self }
    }

    /// These timings once it was recorded that the response was written.
    pub open spec fn with_response_written(self, at: Moment) -> Timings {
        Timings { response_written: Some(at), ..self }
    }

    /// No recorded moment is before one that comes before it in the course of a request.
    pub open spec fn in_order(self) -> bool {
        &&& self.request_received matches Some(received) ==> self.start.nanos <= received.nanos
        &&& self.request_parsed matches Some(parsed) ==> self.start.nanos <= parsed.nanos
            && not_before(parsed, self.request_received)
        &&& self.response_handled matches Some(handled) ==> self.start.nanos <= handled.nanos
            && not_before(handled, self.request_received) && not_before(
            handled,
            self.request_parsed,
        )
        &&& self.response_written matches Some(written) ==> self.start.nanos <= written.nanos
            && not_before(written, self.request_received) && not_before(
            written,
            self.request_parsed,
        ) && not_before(written, self.response_handled)
    }

    /// The last moment that was recorded.
    pub open spec fn last_recorded(self) -> Moment {
        match recorded_first(self.response_written, self.writing_began()) {
            Some(last) => last,
            None => self.start,
        }
    }

    /// The sum of all phases, in nanoseconds; a phase that is not known counts as zero.
    pub open spec fn known_nanos(self) -> int {
        nanos_or_zero(phase(self.request_received, Some(self.start))) + nanos_or_zero(
            phase(self.request_parsed, self.request_received),
        ) + nanos_or_zero(phase(self.response_handled, self.request_parsed)) + nanos_or_zero(
            phase(self.response_written, self.writing_began()),
        )
    }

    /// Every moment was recorded, none of them before the one it follows.
    pub open spec fn complete_in_order(self) -> bool {
        &&& self.request_received matches Some(received)
        &&& self.request_parsed matches Some(parsed)
        &&& self.response_handled matches Some(handled)
        &&& self.response_written matches Some(written)
        &&& self.start.nanos <= received.nanos <= parsed.nanos <= handled.nanos <= written.nanos
    }

    /// Timings of a request that started at `start`, with nothing else recorded yet.
    pub fn new(start: Moment) -> (timings: Self)
        ensures
            timings == Timings::started(start),
    {
        Timings {
            start,
            request_received: None,
            request_parsed: None,
            response_handled: None,
            response_written: None,
        }
    }

    /// Records that the request was received at the given moment. A moment
    /// recorded before is overwritten.
    pub fn set_received_at(&mut self, at: Moment)
        ensures
            *final(self) == old(self).with_received(at),
    {
        self.request_received = Some(at);
    }

    /// Records that the request was received, by a reading of the clock.
    pub fn set_received(&mut self, clock: &mut Clock)
        ensures
            *final(self) == old(self).with_received(final(clock).last_reading()),
            old(clock).last_reading().nanos <= final(clock).last_reading().nanos,
    {
        self.set_received_at(clock.now());
    }

    /// Records that the request body was parsed at the given moment. A moment
    /// recorded before is overwritten.
    pub fn set_parsed_at(&mut self, at: Moment)
        ensures
            *final(self) == old(self).with_parsed(at),
    {
        self.request_parsed = Some(at);
    }

    /// Records that the request body was parsed, by a reading of the clock.
    pub fn set_parsed(&mut self, clock: &mut Clock)
        ensures
            *final(self) == old(self).with_parsed(final(clock).last_reading()),
            old(clock).last_reading().nanos <= final(clock).last_reading().nanos,
    {
        self.set_parsed_at(clock.now());
    }

    /// Records that the response handler returned at the given moment. A moment
    /// recorded before is overwritten.
    pub fn set_response_handled_at(&mut self, at: Moment)
        ensures
            *final(self) == old(self).with_response_handled(at),
    {
        self.response_handled = Some(at);
    }

    /// Records that the response handler returned, by a reading of the clock.
    pub fn set_response_handled(&mut self, clock: &mut Clock)
        ensures
            *final(self) == old(self).with_response_handled(final(clock).last_reading()),
            old(clock).last_reading().nanos <= final(clock).last_reading().nanos,
    {
        self.set_response_handled_at(clock.now());
    }

    /// Records that the response was written at the given moment. A moment
    /// recorded before is overwritten.
    pub fn set_response_written_at(&mut self, at: Moment)
        ensures
            *final(self) == old(self).with_response_written(at),
    {
        self.response_written = Some(at);
    }

    /// Records that the response was written, by a reading of the clock.
    pub fn set_response_written(&mut self, clock: &mut Clock)
        ensures
            *final(self) == old(self).with_response_written(final(clock).last_reading()),
            old(clock).last_reading().nanos <= final(clock).last_reading().nanos,
    {
        self.set_response_written_at(clock.now());
    }

    /// How long it took to receive the request.
    pub fn received(&self) -> (duration: Option<Duration>)
        ensures
            duration == phase(self.request_received, Some(self.start)),
    {
        match self.request_received {
            Some(received) => Some(received.duration_since(self.start)),
            None => None,
        }
    }

    /// How long it took to parse the request once it was received.
    pub fn parsed(&self) -> (duration: Option<Duration>)
        ensures
            duration == phase(self.request_parsed, self.request_received),
    {
        match (self.request_parsed, self.request_received) {
            (Some(parsed), Some(received)) => Some(parsed.duration_since(received)),
            _ => None,
        }
    }

    /// How long the handler took once the request was parsed.
    pub fn response_handled(&self) -> (duration: Option<Duration>)
        ensures
            duration == phase(self.response_handled, self.request_parsed),
    {
        match (self.response_handled, self.request_parsed) {
            (Some(handled), Some(parsed)) => Some(handled.duration_since(parsed)),
            _ => None,
        }
    }

    /// How long it took to write the response, counted from the last recorded moment before it.
    pub fn response_written(&self) -> (duration: Option<Duration>)
        ensures
            duration == phase(self.response_written, self.writing_began()),
    {
        match (self.response_written, self.response_handled) {
            (Some(written), Some(handled)) => Some(written.duration_since(handled)),
            (Some(written), None) => {
                if let Some(parsed) = self.request_parsed {
                    Some(written.duration_since(parsed))
                } else {
                    match self.request_received {
                        Some(received) => Some(written.duration_since(received)),
                        None => None,
                    }
                }
            },
            _ => None,
        }
    }
}

/// A request that was received and then parsed has a known parsing phase, which lasts from the one
/// moment to the other; parsing it again overwrites only when it was parsed.
pub proof fn lemma_parsed_after_received(
    timings: Timings,
    received: Moment,
    parsed: Moment,
    again: Moment,
)
    requires
        received.nanos <= parsed.nanos,
    ensures
        ({
            let after = timings.with_received(received).with_parsed(parsed);
            &&& phase(after.request_parsed, after.request_received) == Some(
                Duration { nanos: (parsed.nanos - received.nanos) as u128 },
            )
            &&& after.start == timings.start
            &&& after.request_received == Some(received)
            &&& after.response_handled == timings.response_handled
            &&& after.response_written == timings.response_written
            &&& after.with_parsed(again) == timings.with_received(received).with_parsed(again)
        }),
{
}

/// The phases of a request add up, at every point of its course, to the time from its start to
/// the last moment that was recorded; a phase that is not known counts as zero. A moment that
/// begins a phase was recorded where the one that ends it was.
pub proof fn lemma_phases_add_up(timings: Timings)
    requires
        timings.in_order(),
        timings.response_handled is Some ==> timings.request_parsed is Some,
        timings.request_parsed is Some || timings.response_written is Some
            ==> timings.request_received is Some,
    ensures
        timings.known_nanos() == timings.last_recorded().nanos - timings.start.nanos,
{
}

/// No time is counted twice: whichever moments were recorded, the phases that are known add up
/// to no more than the time from the start to the last moment that was recorded.
pub proof fn lemma_no_time_is_counted_twice(timings: Timings)
    requires
        timings.in_order(),
    ensures
        timings.known_nanos() <= timings.last_recorded().nanos - timings.start.nanos,
{
}

/// Each moment is recorded in a place of its own: recording one leaves the start and the other
/// moments as they were, whatever was recorded before, and nothing is recorded at the start.
pub proof fn lemma_moments_are_kept_apart(timings: Timings, at: Moment)
    ensures
        timings.with_received(at).request_received == Some(at),
        timings.with_received(at).start == timings.start,
        timings.with_received(at).request_parsed == timings.request_parsed,
        timings.with_received(at).response_handled == timings.response_handled,
        timings.with_received(at).response_written == timings.response_written,
        timings.with_parsed(at).request_parsed == Some(at),
        timings.with_parsed(at).start == timings.start,
        timings.with_parsed(at).request_received == timings.request_received,
        timings.with_parsed(at).response_handled == timings.response_handled,
        timings.with_parsed(at).response_written == timings.response_written,
        timings.with_response_handled(at).response_handled == Some(at),
        timings.with_response_handled(at).start == timings.start,
        timings.with_response_handled(at).request_received == timings.request_received,
        timings.with_response_handled(at).request_parsed == timings.request_parsed,
        timings.with_response_handled(at).response_written == timings.response_written,
        timings.with_response_written(at).response_written == Some(at),
        timings.with_response_written(at).start == timings.start,
        timings.with_response_written(at).request_received == timings.request_received,
        timings.with_response_written(at).request_parsed == timings.request_parsed,
        timings.with_response_written(at).response_handled == timings.response_handled,
        Timings::started(at).start == at,
        Timings::started(at).request_received is None,
        Timings::started(at).request_parsed is None,
        Timings::started(at).response_handled is None,
        Timings::started(at).response_written is None,
{
}

/// A phase is known just where both of its ends were recorded, and lasts from the one to the
/// other, or no time at all where its end is not after its beginning.
pub proof fn lemma_phase_lasts_from_end_to_end(to: Option<Moment>, from: Option<Moment>)
    ensures
        phase(to, from) is Some <==> to is Some && from is Some,
        to is Some && from is Some && from->0.nanos <= to->0.nanos ==> from->0.nanos + phase(
            to,
            from,
        )->0.nanos == to->0.nanos,
        to is Some && from is Some && to->0.nanos <= from->0.nanos ==> phase(to, from)->0.nanos
            == 0,
{
}

/// Writing is counted from the handler's return, even where other moments were recorded; from the
/// end of parsing where the handler's return was not recorded; and from the receipt of the request
/// where neither was. It is never counted from the start.
pub proof fn lemma_writing_is_counted_from_the_last_moment(timings: Timings)
    ensures
        timings.response_handled is Some ==> timings.writing_began() == timings.response_handled,
        timings.response_handled is None && timings.request_parsed is Some
            ==> timings.writing_began() == timings.request_parsed,
        timings.response_handled is None && timings.request_parsed is None
            ==> timings.writing_began() == timings.request_received,
{
}

} // verus!
