use slackr::client::{Event, SlackEnvelope, SlackPayload};
use slackr::event_handler::{EventHandler, Predicate};
use slackr::predicates::{contains_char, contains_spaces};
use std::sync::atomic::{AtomicUsize, Ordering};

static CALLS: AtomicUsize = AtomicUsize::new(0);

fn counted(_: &SlackEnvelope) -> bool {
    CALLS.fetch_add(1, Ordering::SeqCst);
    true
}


fn message(user: &str, text: &str) -> SlackEnvelope {
    let event = Event {
        event_type: "message".to_string(),
        user: user.to_string(),
        text: text.to_string(),
        channel: "C1".to_string(),
    };
    SlackEnvelope::new(
        "E1".to_string(),
        "events_api".to_string(),
        SlackPayload::new(event, "Ev1".to_string()),
    )
}

fn always(_: &SlackEnvelope) -> bool {
    true
}

fn never(_: &SlackEnvelope) -> bool {
    false
}

fn from_u1(e: &SlackEnvelope) -> bool {
    e.payload.event.user == "U1"
}

fn is_greeting(e: &SlackEnvelope) -> bool {
    e.payload.event.text.starts_with("hi")
}

fn registry(predicates: &[Predicate]) -> EventHandler<Predicate, usize> {
    let mut handlers = EventHandler::new();
    for (i, p) in predicates.iter().enumerate() {
        handlers.register_callback(*p, 100 + i);
    }
    handlers
}

#[test]
fn a_new_registry_is_empty() {
    let handlers: EventHandler<Predicate, usize> = EventHandler::new();
    assert_eq!(handlers.len(), 0);
    assert!(handlers.callback(0).is_none());
    assert!(handlers.handle_event(&message("U1", "hi")).is_empty());
    assert_eq!(handlers.next_match(&message("U1", "hi"), 0), None);
}

#[test]
fn register_appends_in_order() {
    let mut handlers: EventHandler<Predicate, &str> = EventHandler::new();
    handlers.register_callback(always, "first");
    assert_eq!(handlers.len(), 1);
    handlers.register_callback(never, "second");
    handlers.register_callback(always, "first");
    assert_eq!(handlers.len(), 3);
    assert_eq!(handlers.callback(0), Some(&"first"));
    assert_eq!(handlers.callback(1), Some(&"second"));
    assert_eq!(handlers.callback(2), Some(&"first"));
    assert_eq!(handlers.callback(3), None);
    assert_eq!(handlers.handle_event(&message("U1", "x")), vec![0, 2]);
}

#[test]
fn handlers_run_in_registration_order() {
    let handlers = registry(&[is_greeting, never, from_u1, always, never, from_u1]);
    assert_eq!(handlers.handle_event(&message("U1", "hi there")), vec![0, 2, 3, 5]);
    assert_eq!(handlers.handle_event(&message("U2", "hi there")), vec![0, 3]);
    assert_eq!(handlers.handle_event(&message("U1", "bye")), vec![2, 3, 5]);
    assert_eq!(handlers.handle_event(&message("U2", "bye")), vec![3]);
}

#[test]
fn both_matching_handlers_run_once() {
    let handlers = registry(&[from_u1, is_greeting]);
    let plan = handlers.handle_event(&message("U1", "hi"));
    assert_eq!(plan, vec![0, 1]);
    assert_eq!(plan.iter().filter(|k| **k == 0).count(), 1);
    assert_eq!(plan.iter().filter(|k| **k == 1).count(), 1);
    assert_eq!(handlers.callback(plan[0]), Some(&100));
    assert_eq!(handlers.callback(plan[1]), Some(&101));
}

#[test]
fn no_match_runs_nothing() {
    let handlers = registry(&[never, from_u1, never]);
    assert!(handlers.handle_event(&message("U9", "hi")).is_empty());
}

#[test]
fn next_match_starts_where_it_is_told() {
    let handlers = registry(&[always, never, from_u1, always]);
    let e = message("U1", "x");
    assert_eq!(handlers.next_match(&e, 0), Some(0));
    assert_eq!(handlers.next_match(&e, 1), Some(2));
    assert_eq!(handlers.next_match(&e, 2), Some(2));
    assert_eq!(handlers.next_match(&e, 3), Some(3));
    assert_eq!(handlers.next_match(&e, 4), None);
    assert_eq!(handlers.next_match(&e, usize::MAX), None);
    let other = message("U2", "x");
    assert_eq!(handlers.next_match(&other, 1), Some(3));
}

#[test]
fn each_predicate_is_tested_once_per_dispatch() {
    let handlers = registry(&[counted, never, counted]);
    assert_eq!(handlers.handle_event(&message("U1", "x")), vec![0, 2]);
    assert_eq!(CALLS.load(Ordering::SeqCst), 2);
}

#[test]
fn contains_char_finds_a_character() {
    assert!(contains_char("a b", ' '));
    assert!(contains_char(" ", ' '));
    assert!(contains_char("ab ", ' '));
    assert!(!contains_char("ab", ' '));
    assert!(!contains_char("", ' '));
    assert!(contains_char("caf\u{e9} \u{1F600}", '\u{1F600}'));
    assert!(!contains_char("caf\u{e9}", 'e'));
}

#[test]
fn contains_spaces_skips_the_bot() {
    assert!(contains_spaces(&message("U1", "hello world")));
    assert!(!contains_spaces(&message("U1", "hello")));
    assert!(!contains_spaces(&message("U1", "")));
    assert!(!contains_spaces(&message("alpha-numeric", "hello world")));
    assert!(contains_spaces(&message("alpha-numeric ", "hello world")));
    let handlers = registry(&[contains_spaces]);
    assert_eq!(handlers.handle_event(&message("U1", "a b")), vec![0]);
    assert!(handlers.handle_event(&message("alpha-numeric", "a b")).is_empty());
}
