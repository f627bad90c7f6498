use twitch_voice_reader::config::AntiSpamConfig;
use twitch_voice_reader::filters::antispam::{AntiSpamEngine, AntiSpamVerdict};

const SEC: u128 = 1_000_000_000;

#[test]
fn duplicate_within_window_is_grouped_then_cut() {
    let config = AntiSpamConfig::default();
    let mut e = AntiSpamEngine::new();
    assert_eq!(e.evaluate_at("bob", "Salut  tout le monde", &config, 0), AntiSpamVerdict::Allow);
    assert_eq!(
        e.evaluate_at("bob", "  salut tout LE monde ", &config, 2 * SEC),
        AntiSpamVerdict::GroupedDuplicate { occurrence_count: 2 }
    );
    assert_eq!(
        e.evaluate_at("bob", "salut tout le monde", &config, 3 * SEC),
        AntiSpamVerdict::GroupedDuplicate { occurrence_count: 3 }
    );
    assert_eq!(
        e.evaluate_at("bob", "salut tout le monde", &config, 4 * SEC),
        AntiSpamVerdict::RepetitionThresholdExceeded
    );
}

#[test]
fn duplicate_after_window_is_read_again() {
    let config = AntiSpamConfig::default();
    let mut e = AntiSpamEngine::new();
    assert_eq!(e.evaluate_at("bob", "hello", &config, 0), AntiSpamVerdict::Allow);
    assert_eq!(e.evaluate_at("bob", "hello", &config, 11 * SEC), AntiSpamVerdict::Allow);
}

#[test]
fn rate_limit_per_minute() {
    let mut config = AntiSpamConfig::default();
    config.max_messages_per_minute = 2;
    let mut e = AntiSpamEngine::new();
    assert_eq!(e.evaluate_at("a", "un", &config, 0), AntiSpamVerdict::Allow);
    assert_eq!(e.evaluate_at("b", "deux", &config, SEC), AntiSpamVerdict::Allow);
    assert_eq!(e.evaluate_at("c", "trois", &config, 2 * SEC), AntiSpamVerdict::RateLimited);
    // The first acceptance leaves the one-minute window.
    assert_eq!(e.evaluate_at("c", "quatre", &config, 61 * SEC), AntiSpamVerdict::Allow);
}

#[test]
fn disabled_engine_allows_everything() {
    let mut config = AntiSpamConfig::default();
    config.enabled = false;
    let mut e = AntiSpamEngine::new();
    for _ in 0..50 {
        assert_eq!(e.evaluate_at("a", "same", &config, 0), AntiSpamVerdict::Allow);
    }
}

#[test]
fn pruning_forgets_old_users() {
    let config = AntiSpamConfig::default();
    let mut e = AntiSpamEngine::new();
    assert_eq!(e.evaluate_at("bob", "hello", &config, 0), AntiSpamVerdict::Allow);
    e.prune_stale_entries_at(5 * SEC, SEC);
    // Forgotten: the same text is not grouped any more.
    assert_eq!(e.evaluate_at("bob", "hello", &config, 6 * SEC), AntiSpamVerdict::Allow);
}

#[test]
fn live_clock_engine() {
    let config = AntiSpamConfig::default();
    let mut e = AntiSpamEngine::default();
    assert_eq!(e.evaluate("bob", "hello", &config), AntiSpamVerdict::Allow);
    assert_eq!(
        e.evaluate("bob", "hello", &config),
        AntiSpamVerdict::GroupedDuplicate { occurrence_count: 2 }
    );
    e.prune_stale_entries(3600 * SEC);
}

#[test]
fn live_clock_never_goes_back_and_keeps_the_limit() {
    let mut config = AntiSpamConfig::default();
    config.max_messages_per_minute = 2;
    let mut e = AntiSpamEngine::new();
    assert_eq!(e.evaluate("a", "un", &config), AntiSpamVerdict::Allow);
    assert_eq!(e.evaluate("b", "deux", &config), AntiSpamVerdict::Allow);
    assert_eq!(e.evaluate("c", "trois", &config), AntiSpamVerdict::RateLimited);
}

#[test]
fn no_minute_of_a_long_history_lets_more_than_the_limit_through() {
    let mut config = AntiSpamConfig::default();
    config.max_messages_per_minute = 3;
    let mut e = AntiSpamEngine::new();
    let mut allowed: Vec<u128> = Vec::new();
    // One message every 7 seconds for ten minutes, each from a new user.
    let mut t: u128 = 0;
    let mut n: u32 = 0;
    while t <= 600 * SEC {
        let user = format!("user{n}");
        let text = format!("message {n}");
        if e.evaluate_at(&user, &text, &config, t) == AntiSpamVerdict::Allow {
            allowed.push(t);
        }
        t += 7 * SEC;
        n += 1;
    }
    assert!(allowed.len() > 3);
    for (i, start) in allowed.iter().enumerate() {
        let in_minute = allowed[i..].iter().filter(|x| **x - *start <= 60 * SEC).count();
        assert!(in_minute <= 3, "{in_minute} messages let through in the minute from {start}");
    }
}
