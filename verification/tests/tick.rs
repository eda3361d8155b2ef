use embassy::text::decimal;
use embassy::tick::{tick_line, Work, B};

#[test]
fn an_actor_starts_once_and_then_handles_events() {
    let mut actor = B::new(10);
    assert_eq!(actor.poll(), Work::CreateStart);
    assert_eq!(actor.poll(), Work::PollStart);
    assert!(actor.polled(true));
    assert_eq!(actor.poll(), Work::PollStart);
    assert!(!actor.polled(false));
    for event in 10..13 {
        assert_eq!(actor.poll(), Work::CreateEvent(event));
        assert_eq!(actor.poll(), Work::PollEvent);
        assert!(actor.polled(true));
        assert_eq!(actor.poll(), Work::PollEvent);
        assert!(!actor.polled(false));
    }
}

#[test]
fn event_numbers_wrap_around() {
    let mut actor = B::new(u32::MAX);
    assert_eq!(actor.poll(), Work::CreateStart);
    assert!(!actor.polled(false));
    assert_eq!(actor.poll(), Work::CreateEvent(u32::MAX));
    assert!(!actor.polled(false));
    assert_eq!(actor.poll(), Work::CreateEvent(0));
}

#[test]
fn events_are_printed_with_their_number() {
    assert_eq!(tick_line(0), "Tick 0");
    assert_eq!(tick_line(42), "Tick 42");
}

#[test]
fn numbers_in_decimal() {
    assert_eq!(decimal(0), "0");
    assert_eq!(decimal(9), "9");
    assert_eq!(decimal(10), "10");
    assert_eq!(decimal(905), "905");
    assert_eq!(decimal(u32::MAX), "4294967295");
}
