use op_cache::cache::{preview_of, Cache};
use op_cache::time::{Duration, Instant};

fn after(t: Instant, secs: u64) -> Instant {
    t.checked_add(Duration::from_secs(secs)).unwrap()
}

#[test]
fn entries_expire_only_when_given_a_ttl() {
    let mut cache = Cache::default();
    let t0 = Instant { nanos: 1_234_567_890 };
    cache.put("forever".into(), b"a".to_vec(), None, t0);
    cache.put(
        "brief".into(),
        b"b".to_vec(),
        Some(Duration::from_secs(10)),
        t0,
    );

    let later = after(t0, 5);
    assert_eq!(cache.get("forever", later), Some(&b"a"[..]));
    assert_eq!(cache.get("brief", later), Some(&b"b"[..]));
    assert_eq!(cache.keys(later), vec!["brief", "forever"]);

    let expired = after(t0, 10);
    assert_eq!(cache.keys(expired), vec!["forever"]);
    assert_eq!(cache.get("brief", expired), None);
    assert_eq!(cache.get("forever", expired), Some(&b"a"[..]));

    cache.clear();
    assert!(cache.keys(expired).is_empty());
}

#[test]
fn a_secret_is_found_up_to_the_last_nanosecond() {
    let mut cache = Cache::default();
    let t0 = Instant { nanos: 0 };
    cache.put("k".into(), vec![1], Some(Duration { secs: 0, nanos: 5 }), t0);
    assert_eq!(cache.get("k", Instant { nanos: 4 }), Some(&[1u8][..]));
    assert_eq!(cache.get("k", Instant { nanos: 5 }), None);
    // A secret that lapsed does not come back when the clock does.
    assert_eq!(cache.get("k", Instant { nanos: 4 }), None);
}

#[test]
fn a_lapsed_secret_that_nobody_asked_for_is_not_listed() {
    let mut cache = Cache::default();
    let t0 = Instant { nanos: 0 };
    cache.put("k".into(), vec![1], Some(Duration::from_secs(1)), t0);
    assert!(cache.keys(after(t0, 1)).is_empty());
    assert!(cache.entries(after(t0, 1)).is_empty());
    assert_eq!(cache.keys(t0), vec!["k"]);
}

#[test]
fn put_replaces_the_value_and_its_lifetime() {
    let mut cache = Cache::default();
    let t0 = Instant { nanos: 0 };
    cache.put("k".into(), vec![1], Some(Duration::from_secs(1)), t0);
    cache.put("other".into(), vec![9], None, t0);
    cache.put("k".into(), vec![2], None, t0);
    assert_eq!(cache.get("k", after(t0, 100)), Some(&[2u8][..]));
    assert_eq!(cache.get("other", after(t0, 100)), Some(&[9u8][..]));
    assert_eq!(cache.keys(after(t0, 100)), vec!["k", "other"]);
}

#[test]
fn keys_are_listed_in_the_order_of_their_bytes() {
    let mut cache = Cache::default();
    let t0 = Instant { nanos: 0 };
    let mut expected: Vec<String> = ["b", "a", "ab", "", "é", "Z", "\u{ffff}", "\u{10000}", "a\u{1f}b"]
        .iter()
        .map(|s| s.to_string())
        .collect();
    for key in &expected {
        cache.put(key.clone(), vec![], None, t0);
    }
    expected.sort();
    assert_eq!(cache.keys(t0), expected);
}

#[test]
fn entries_show_a_peek_and_the_whole_seconds_left() {
    let mut cache = Cache::default();
    let t0 = Instant { nanos: 0 };
    cache.put(
        "op://v/i/f".into(),
        b"correct horse battery".to_vec(),
        Some(Duration { secs: 90, nanos: 500_000_000 }),
        t0,
    );
    cache.put("op://v/keep/f".into(), b"short".to_vec(), None, t0);
    let entries = cache.entries(after(t0, 30));
    assert_eq!(entries.len(), 2);
    assert_eq!(entries[0].key, "op://v/i/f");
    assert_eq!(entries[0].preview, "corr••••");
    assert_eq!(entries[0].expires_in_secs, Some(60));
    assert_eq!(entries[1].key, "op://v/keep/f");
    assert_eq!(entries[1].preview, "s••••");
    assert_eq!(entries[1].expires_in_secs, None);
}

#[test]
fn a_peek_never_shows_more_than_a_quarter() {
    assert_eq!(preview_of(&b"".to_vec()), "••••");
    assert_eq!(preview_of(&b"abc".to_vec()), "••••");
    assert_eq!(preview_of(&b"abcd".to_vec()), "a••••");
    assert_eq!(preview_of(&b"abcdefgh".to_vec()), "ab••••");
    assert_eq!(preview_of(&vec![b'x'; 1000]), "xxxx••••");
    // What cannot be shown ends the peek.
    assert_eq!(preview_of(&b"ab\ncdefghijklmnopqrst".to_vec()), "ab••••");
    assert_eq!(preview_of(&vec![0xff; 40]), "••••");
}
