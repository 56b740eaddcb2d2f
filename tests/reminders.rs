use remindme::instant::{Instant, MAX_SECS, MIN_SECS};
use remindme::interval::{interval, interval_of_word, Interval, Scale, INVALID_SCALE, USAGE};
use remindme::notify::{reminder_text, FALLBACK};
use remindme::scheduler::{remindme, CommandError, PollAction, PollEvent, Poller, POLL_INTERVAL_SECS};
use remindme::store::ReminderStore;

const T0: i64 = 1_000_000_000;

fn at(secs: i64) -> Instant {
    Instant::from_timestamp(secs, 0).unwrap()
}

fn usage_reply() -> String {
    format!("{}{}", INVALID_SCALE, USAGE)
}

#[test]
fn every_scale_word_in_any_case() {
    let cases = [
        ("minute", Scale::Minutes),
        ("minutes", Scale::Minutes),
        ("MiNuTeS", Scale::Minutes),
        ("hour", Scale::Hours),
        ("HOURS", Scale::Hours),
        ("Day", Scale::Days),
        ("days", Scale::Days),
        ("WEEK", Scale::Weeks),
        ("weeks", Scale::Weeks),
    ];
    for (word, scale) in cases {
        assert_eq!(interval(7, word), Ok(Interval { count: 7, scale }), "{}", word);
    }
}

#[test]
fn scale_word_is_lowered_by_unicode_rules() {
    // U+212A KELVIN SIGN lowers to an ASCII `k`.
    assert_eq!(interval(1, "WEE\u{212A}"), Ok(Interval { count: 1, scale: Scale::Weeks }));
}

#[test]
fn unknown_scale_word_gives_usage() {
    for word in ["", "month", "mins", "minutess", " minutes", "secs"] {
        let r = interval(3, word);
        assert_eq!(r, Err(usage_reply()));
        assert!(r.unwrap_err().contains(USAGE));
    }
}

#[test]
fn word_match_is_exact_on_lower_case() {
    assert_eq!(interval_of_word(2, "hours"), Ok(Interval { count: 2, scale: Scale::Hours }));
    assert_eq!(interval_of_word(2, "Hours"), Err(usage_reply()));
}

#[test]
fn interval_lengths_in_seconds() {
    assert_eq!(Interval { count: 5, scale: Scale::Minutes }.seconds(), 300);
    assert_eq!(Interval { count: 2, scale: Scale::Hours }.seconds(), 7200);
    assert_eq!(Interval { count: 3, scale: Scale::Days }.seconds(), 259_200);
    assert_eq!(Interval { count: u32::MAX, scale: Scale::Weeks }.seconds(), 4_294_967_295 * 604_800);
}

#[test]
fn instants_outside_the_range_are_refused() {
    assert!(Instant::from_timestamp(MAX_SECS, 999_999_999).is_some());
    assert!(Instant::from_timestamp(MAX_SECS + 1, 0).is_none());
    assert!(Instant::from_timestamp(MIN_SECS, 0).is_some());
    assert!(Instant::from_timestamp(MIN_SECS - 1, 0).is_none());
    assert!(Instant::from_timestamp(0, 1_000_000_000).is_none());
}

#[test]
fn adding_seconds_and_overflow() {
    let t = Instant::from_timestamp(T0, 5).unwrap();
    assert_eq!(t.checked_add_secs(300), Some(Instant { secs: T0 + 300, nanos: 5 }));
    assert_eq!(at(MAX_SECS - 10).checked_add_secs(10), Some(at(MAX_SECS)));
    assert_eq!(at(MAX_SECS - 10).checked_add_secs(11), None);
    assert_eq!(at(MIN_SECS + 10).checked_add_secs(-11), None);
}

#[test]
fn formats_as_utc_date_and_time() {
    assert_eq!(at(T0).format_utc(), "2001-09-09 01:46:40");
    assert_eq!(at(0).format_utc(), "1970-01-01 00:00:00");
    assert_eq!(Instant::from_timestamp(T0, 999_999_999).unwrap().format_utc(), "2001-09-09 01:46:40");
}

#[test]
fn ordering_of_instants() {
    assert!(at(T0).le(&at(T0)));
    assert!(at(T0).le(&at(T0 + 1)));
    assert!(!at(T0 + 1).le(&at(T0)));
    assert!(!Instant::from_timestamp(T0, 2).unwrap().le(&Instant::from_timestamp(T0, 1).unwrap()));
}

#[test]
fn remindme_confirms_and_stores() {
    let mut store = ReminderStore::new();
    let r = remindme(5, "minutes", "call mom", "42", at(T0), &mut store);
    assert_eq!(r, Ok("Reminder set for 2001-09-09 01:51:40 UTC.".to_string()));
    assert_eq!(store.len(), 1);
}

#[test]
fn remindme_unknown_scale_is_a_reply_and_stores_nothing() {
    let mut store = ReminderStore::new();
    let r = remindme(5, "fortnights", "x", "42", at(T0), &mut store);
    assert_eq!(r, Ok(usage_reply()));
    assert_eq!(store.len(), 0);
}

#[test]
fn remindme_overflow_fails_and_stores_nothing() {
    let mut store = ReminderStore::new();
    let r = remindme(u32::MAX, "weeks", "x", "42", at(MAX_SECS - 100), &mut store);
    assert_eq!(r, Err(CommandError::DateOverflow));
    assert_eq!(store.len(), 0);
    let r = remindme(1, "minute", "x", "42", at(MAX_SECS - 59), &mut store);
    assert_eq!(r, Err(CommandError::DateOverflow));
    assert_eq!(store.len(), 0);
    assert!(remindme(1, "minute", "x", "42", at(MAX_SECS - 60), &mut store).is_ok());
    assert_eq!(store.len(), 1);
}

#[test]
fn store_assigns_increasing_ids() {
    let mut store = ReminderStore::new();
    assert_eq!(store.create("a", at(T0), "m"), Ok(1));
    assert_eq!(store.create("b", at(T0), ""), Ok(2));
    assert_eq!(store.len(), 2);
}

#[test]
fn claim_due_is_inclusive_and_once() {
    let mut store = ReminderStore::new();
    store.create("a", at(T0), "first").unwrap();
    store.create("b", at(T0 + 1), "second").unwrap();
    store.create("c", at(T0 - 1), "third").unwrap();
    let got = store.claim_due(at(T0));
    let msgs: Vec<&str> = got.iter().map(|r| r.message.as_str()).collect();
    assert_eq!(msgs, vec!["first", "third"]);
    assert_eq!(got[0].id, 1);
    assert_eq!(got[1].id, 3);
    assert_eq!(store.len(), 1);
    assert!(store.claim_due(at(T0)).is_empty());
    let later = store.claim_due(at(T0 + 1));
    assert_eq!(later.len(), 1);
    assert_eq!(later[0].user_id, "b");
    assert_eq!(store.len(), 0);
    assert!(store.claim_due(at(T0 + 1000)).is_empty());
}

#[test]
fn claim_on_empty_store() {
    let mut store = ReminderStore::new();
    assert!(store.claim_due(at(T0)).is_empty());
}

#[test]
fn reminder_text_for_empty_and_given_message() {
    assert_eq!(reminder_text(""), FALLBACK);
    assert!(FALLBACK.contains("you didn't specify what"));
    let t = reminder_text("buy milk");
    assert!(t.contains("buy milk"));
    assert_eq!(t, "Hello! You asked me to remind you of the following: buy milk");
}

#[test]
fn end_to_end_call_mom() {
    let mut store = ReminderStore::new();
    let r = remindme(5, "minutes", "call mom", "U", at(T0), &mut store);
    assert!(r.is_ok());
    assert!(store.claim_due(at(T0 + 4 * 60)).is_empty());
    let got = store.claim_due(at(T0 + 6 * 60));
    assert_eq!(got.len(), 1);
    assert_eq!(got[0].user_id, "U");
    assert_eq!(got[0].message, "call mom");
    assert_eq!(got[0].due_at, at(T0 + 5 * 60));
    assert!(store.claim_due(at(T0 + 6 * 60)).is_empty());
}

#[test]
fn poller_delivers_due_reminders_and_reports_failures() {
    let mut store = ReminderStore::new();
    store.create("u1", at(T0), "one").unwrap();
    store.create("u2", at(T0), "").unwrap();
    store.create("u3", at(T0 + 3600), "later").unwrap();
    let mut poller = Poller::new();
    assert!(matches!(poller.start(), PollAction::Sleep(s) if s == POLL_INTERVAL_SECS));

    let step = poller.step(&mut store, PollEvent::Woke(at(T0 + 60)));
    assert!(step.report.is_none());
    match step.action {
        PollAction::Deliver(d) => {
            assert_eq!(d.user_id, "u1");
            assert_eq!(d.text, reminder_text("one"));
        }
        other => panic!("unexpected {:?}", other),
    }
    assert_eq!(store.len(), 1);

    let step = poller.step(&mut store, PollEvent::Delivered(Err("blocked".to_string())));
    assert_eq!(step.report, Some("Error while DM'ing: blocked".to_string()));
    match step.action {
        PollAction::Deliver(d) => {
            assert_eq!(d.user_id, "u2");
            assert_eq!(d.text, FALLBACK);
        }
        other => panic!("unexpected {:?}", other),
    }

    let step = poller.step(&mut store, PollEvent::Delivered(Err("gone".to_string())));
    assert_eq!(step.report, Some("Error while DM'ing: gone".to_string()));
    assert!(matches!(step.action, PollAction::Sleep(60)));
    assert_eq!(store.len(), 1);

    let step = poller.step(&mut store, PollEvent::Woke(at(T0 + 120)));
    assert!(matches!(step.action, PollAction::Sleep(60)));
    assert_eq!(store.len(), 1);
}

#[test]
fn poller_stops_on_shutdown() {
    let mut store = ReminderStore::new();
    store.create("u", at(T0), "x").unwrap();
    let mut poller = Poller::new();
    let step = poller.step(&mut store, PollEvent::ShutdownRequested);
    assert!(matches!(step.action, PollAction::Stop));
    let step = poller.step(&mut store, PollEvent::Woke(at(T0 + 60)));
    assert!(matches!(step.action, PollAction::Stop));
    assert_eq!(store.len(), 1);
}

#[test]
fn poller_finishes_claimed_deliveries_before_stopping() {
    let mut store = ReminderStore::new();
    store.create("u", at(T0), "x").unwrap();
    let mut poller = Poller::new();
    let step = poller.step(&mut store, PollEvent::Woke(at(T0)));
    assert!(matches!(step.action, PollAction::Deliver(_)));
    let step = poller.step(&mut store, PollEvent::ShutdownRequested);
    assert!(matches!(step.action, PollAction::Stop));
    let step = poller.step(&mut store, PollEvent::Delivered(Ok(())));
    assert!(matches!(step.action, PollAction::Stop));
    assert!(step.report.is_none());
}
