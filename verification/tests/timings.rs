use twirp::clock::{Clock, Duration, Moment};
use twirp::timings::Timings;

fn moment(nanos: u128) -> Moment {
    Moment { nanos }
}

fn after(nanos: u128) -> Option<Duration> {
    Some(Duration { nanos })
}

#[test]
fn nothing_is_known_at_the_start() {
    let timings = Timings::new(moment(100));
    assert_eq!(timings.start, moment(100));
    assert_eq!(timings.received(), None);
    assert_eq!(timings.parsed(), None);
    assert_eq!(timings.response_handled(), None);
    assert_eq!(timings.response_written(), None);
}

#[test]
fn phases_add_up() {
    let mut timings = Timings::new(moment(100));
    timings.set_received_at(moment(110));
    timings.set_parsed_at(moment(130));
    timings.set_response_handled_at(moment(160));
    timings.set_response_written_at(moment(200));
    assert_eq!(timings.received(), after(10));
    assert_eq!(timings.parsed(), after(20));
    assert_eq!(timings.response_handled(), after(30));
    assert_eq!(timings.response_written(), after(40));
    assert_eq!(10 + 20 + 30 + 40, 200 - 100);
}

#[test]
fn a_phase_needs_both_its_ends() {
    let mut timings = Timings::new(moment(0));
    timings.set_parsed_at(moment(5));
    assert_eq!(timings.parsed(), None);
    timings.set_received_at(moment(2));
    assert_eq!(timings.parsed(), after(3));
    let mut timings = Timings::new(moment(0));
    timings.set_response_handled_at(moment(5));
    assert_eq!(timings.response_handled(), None);
}

#[test]
fn writing_is_counted_from_the_last_known_moment() {
    let mut timings = Timings::new(moment(0));
    timings.set_response_written_at(moment(50));
    assert_eq!(timings.response_written(), None);
    timings.set_received_at(moment(10));
    assert_eq!(timings.response_written(), after(40));
    timings.set_parsed_at(moment(20));
    assert_eq!(timings.response_written(), after(30));
    timings.set_response_handled_at(moment(45));
    assert_eq!(timings.response_written(), after(5));
}

#[test]
fn time_never_runs_backwards() {
    let mut timings = Timings::new(moment(100));
    timings.set_received_at(moment(90));
    assert_eq!(timings.received(), after(0));
    assert_eq!(moment(7).duration_since(moment(7)), Duration { nanos: 0 });
    assert_eq!(moment(9).duration_since(moment(7)), Duration { nanos: 2 });
}

#[test]
fn the_clock_runs() {
    let mut clock = Clock::start();
    let first = clock.now();
    let mut later = clock.now();
    let mut readings: u64 = 0;
    while later == first && readings < 1_000_000 {
        later = clock.now();
        readings += 1;
    }
    assert!(later.nanos > first.nanos);
}

#[test]
fn a_later_reading_is_not_before_an_earlier_one() {
    let mut clock = Clock::start();
    let first = clock.now();
    let mut copy = clock;
    for _ in 0..1000 {
        let last = clock.now();
        assert!(clock.now().nanos >= last.nanos);
        assert!(copy.now().nanos >= last.nanos);
    }
    assert!(clock.now().nanos >= first.nanos);
    assert_eq!(moment(3).later_of(moment(5)), moment(5));
    assert_eq!(moment(5).later_of(moment(3)), moment(5));
}

#[test]
fn the_clock_marks_the_phases_in_order() {
    let mut clock = Clock::start();
    let mut timings = Timings::new(clock.now());
    timings.set_received(&mut clock);
    timings.set_parsed(&mut clock);
    let parsed = timings.request_parsed.unwrap();
    assert!(parsed.nanos >= timings.request_received.unwrap().nanos);
    assert!(timings.parsed().is_some());
    timings.set_parsed(&mut clock);
    assert!(timings.request_parsed.unwrap().nanos >= parsed.nanos);
    timings.set_response_handled(&mut clock);
    timings.set_response_written(&mut clock);
    let total = timings.received().unwrap().nanos
        + timings.parsed().unwrap().nanos
        + timings.response_handled().unwrap().nanos
        + timings.response_written().unwrap().nanos;
    assert_eq!(total, timings.response_written.unwrap().nanos - timings.start.nanos);
}

#[test]
fn the_clock_is_recorded_whatever_was_recorded_before() {
    let far = moment(u128::MAX);
    let mut clock = Clock::start();
    let mut timings = Timings::new(far);
    timings.set_received_at(far);
    timings.set_parsed(&mut clock);
    assert!(timings.request_parsed.unwrap().nanos < far.nanos);
    assert_eq!(timings.parsed(), after(0));
    timings.set_parsed_at(far);
    timings.set_response_handled(&mut clock);
    assert!(timings.response_handled.unwrap().nanos < far.nanos);
    timings.set_response_handled_at(far);
    timings.set_response_written(&mut clock);
    assert!(timings.response_written.unwrap().nanos < far.nanos);
    timings.set_received(&mut clock);
    assert!(timings.request_received.unwrap().nanos < far.nanos);
}

#[test]
fn unknown_phases_count_as_nothing() {
    let mut timings = Timings::new(moment(100));
    timings.set_received_at(moment(110));
    timings.set_response_written_at(moment(150));
    assert_eq!(timings.received(), after(10));
    assert_eq!(timings.parsed(), None);
    assert_eq!(timings.response_handled(), None);
    assert_eq!(timings.response_written(), after(40));

    let mut gap = Timings::new(moment(100));
    gap.set_parsed_at(moment(130));
    gap.set_response_written_at(moment(150));
    assert_eq!(gap.received(), None);
    assert_eq!(gap.parsed(), None);
    assert_eq!(gap.response_written(), after(20));
}
