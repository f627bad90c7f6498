use twitch_voice_reader::stats::SessionStats;

#[test]
fn session_counters() {
    let mut s = SessionStats::new();
    s.record_read("alice");
    s.record_read("alice");
    s.record_ignored("bob");
    s.record_reading_time(1500);
    s.record_reading_time(500);
    let snap = s.snapshot();
    assert_eq!(snap.messages_read, 2);
    assert_eq!(snap.messages_ignored, 1);
    assert_eq!(snap.active_users_count, 2);
    assert_eq!(snap.total_reading_time_ms, 2000);
}

#[test]
fn reading_time_wraps_like_an_atomic_counter() {
    let mut s = SessionStats::default();
    s.record_reading_time(u64::MAX);
    s.record_reading_time(2);
    assert_eq!(s.snapshot().total_reading_time_ms, 1);
}

#[test]
fn a_message_the_full_queue_drops_counts_as_ignored() {
    let mut s = SessionStats::new();
    s.record_decision("alice", true, false);
    s.record_decision("bob", true, true);
    s.record_decision("carol", false, false);
    let snap = s.snapshot();
    assert_eq!(snap.messages_read, 1);
    assert_eq!(snap.messages_ignored, 2);
    assert_eq!(snap.active_users_count, 3);
}
