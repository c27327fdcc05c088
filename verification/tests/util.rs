use uap::util::{now_unix_nanos, random_session_id, unix_nanos, SeqCounter};

#[test]
fn counter_gives_numbers_in_order() {
    let mut seq = SeqCounter::new();
    assert_eq!(seq.get(), 0);
    assert_eq!(seq.next(), 0);
    assert_eq!(seq.next(), 1);
    assert_eq!(seq.next(), 2);
    assert_eq!(seq.get(), 3);
    seq.reset();
    assert_eq!(seq.get(), 0);
    assert_eq!(SeqCounter::default().next(), 0);
}

#[test]
fn unix_time_in_nanoseconds() {
    assert_eq!(unix_nanos(None), 0);
    assert_eq!(unix_nanos(Some((0, 0))), 0);
    assert_eq!(unix_nanos(Some((1, 2))), 1_000_000_002);
    assert_eq!(unix_nanos(Some((1_700_000_000, 123_456_789))), 1_700_000_000_123_456_789);
    // the last nanosecond that fits, and the next
    assert_eq!(unix_nanos(Some((18_446_744_073, 709_551_615))), u64::MAX);
    assert_eq!(unix_nanos(Some((18_446_744_073, 709_551_616))), 0);
}

#[test]
fn time_is_of_this_century() {
    let then = now_unix_nanos();
    assert!(then > 1_600_000_000_000_000_000);
    assert!(then < 4_200_000_000_000_000_000);
}

#[test]
fn session_ids_vary() {
    let first = random_session_id();
    assert!((0..8).any(|_| random_session_id() != first));
}
