use winbar::usage::{Usage, UsageEntry};

fn entry(count: u32, last_used: i64) -> UsageEntry {
    UsageEntry { count, last_used }
}

#[test]
fn the_later_of_two_entries_counts() {
    let usage = Usage::from_entries(vec![
        ("a".to_string(), entry(1, 10)),
        ("b".to_string(), entry(2, 20)),
        ("a".to_string(), entry(3, 30)),
    ]);
    assert_eq!(usage.get(&"a".to_string()), Some(entry(3, 30)));
    assert_eq!(usage.get(&"b".to_string()), Some(entry(2, 20)));
    assert_eq!(usage.get(&"c".to_string()), None);
    assert_eq!(usage.entries().len(), 2);
}

#[test]
fn written_entries_read_back_the_same() {
    let mut usage = Usage::new();
    for i in 0..20u32 {
        usage.insert(format!("app{}", i % 7), entry(i, i as i64));
    }
    let copy: Vec<(String, UsageEntry)> = usage.entries().iter().map(|(p, e)| (p.clone(), *e)).collect();
    let mut backwards = copy.clone();
    backwards.reverse();
    for entries in [copy, backwards] {
        let again = Usage::from_entries(entries);
        assert_eq!(again.entries().len(), 7);
        for i in 0..7 {
            let path = format!("app{}", i);
            assert!(again.get(&path).is_some());
            assert_eq!(again.get(&path), usage.get(&path));
        }
    }
}

#[test]
fn recording_counts_up() {
    let mut usage = Usage::new();
    usage.record("a".to_string(), 5);
    usage.record("a".to_string(), 9);
    usage.record("b".to_string(), 7);
    assert_eq!(usage.get(&"a".to_string()), Some(entry(2, 9)));
    assert_eq!(usage.get(&"b".to_string()), Some(entry(1, 7)));
}

#[test]
fn pruning_drops_what_was_not_opened_for_over_a_year() {
    let year = 365 * 86400;
    let now = 2_000_000_000;
    assert!(!entry(1, now - year).is_stale(now));
    assert!(entry(1, now - year - 1).is_stale(now));
    assert!(!entry(1, now + 1).is_stale(now));
    assert!(entry(1, i64::MIN).is_stale(i64::MAX));
    assert!(!entry(1, i64::MAX).is_stale(i64::MIN));

    let mut usage = Usage::from_entries(vec![
        ("old".to_string(), entry(1, now - 2 * year)),
        ("new".to_string(), entry(1, now - 1)),
        ("older".to_string(), entry(1, 0)),
    ]);
    usage.prune_stale_usage(now);
    assert_eq!(usage.entries().len(), 1);
    assert_eq!(usage.get(&"new".to_string()), Some(entry(1, now - 1)));
    usage.prune_stale_usage(now);
    assert_eq!(usage.entries().len(), 1);
}

#[test]
fn unused_time_is_never_negative() {
    assert_eq!(entry(1, 100).unused_seconds(160), 60);
    assert_eq!(entry(1, 100).unused_seconds(100), 0);
    assert_eq!(entry(1, 100).unused_seconds(99), 0);
    assert_eq!(entry(1, i64::MIN).unused_seconds(i64::MAX), u64::MAX);
}
