use twitch_voice_reader::pipeline::retention_cutoff_ms;
use twitch_voice_reader::config::{AntiSpamConfig, FiltersConfig};
use twitch_voice_reader::filters::antispam::AntiSpamEngine;
use twitch_voice_reader::filters::rules::RejectionReason;
use twitch_voice_reader::pipeline::{decide, decide_at, HistoryEntry, StatsSummary};
use twitch_voice_reader::twitch::message::{ChatMessage, TwitchRole};

fn msg(login: &str, text: &str) -> ChatMessage {
    ChatMessage {
        id: "id-1".into(),
        channel: "chan".into(),
        username_login: login.into(),
        display_name: login.to_uppercase(),
        color: None,
        role: TwitchRole::Vip,
        badges: vec!["vip".into()],
        text: text.into(),
        text_for_tts: text.into(),
        is_emote_only: false,
        is_action: false,
        timestamp_ms: 42,
    }
}

#[test]
fn rejected_message_does_not_touch_antispam() {
    let mut filters = FiltersConfig::default();
    filters.blacklist_words.push("spam".into());
    let mut anti = AntiSpamConfig::default();
    anti.max_messages_per_minute = 1;
    let mut engine = AntiSpamEngine::new();
    let d = decide_at(&msg("a", "du spam"), &filters, &mut engine, &anti, 0);
    assert!(!d.should_read);
    assert_eq!(d.rejection_reason, Some(RejectionReason::Blacklisted));
    assert_eq!(d.occurrence_count, 1);
    // The rejected message did not use the only slot of the minute.
    let d = decide_at(&msg("b", "bonjour"), &filters, &mut engine, &anti, 1);
    assert!(d.should_read);
}

#[test]
fn grouped_duplicate_is_read_with_its_count() {
    let filters = FiltersConfig::default();
    let anti = AntiSpamConfig::default();
    let mut engine = AntiSpamEngine::new();
    assert!(decide_at(&msg("a", "gg"), &filters, &mut engine, &anti, 0).should_read);
    let d = decide_at(&msg("a", "gg"), &filters, &mut engine, &anti, 1);
    assert!(d.should_read);
    assert_eq!(d.occurrence_count, 2);
    assert_eq!(d.rejection_reason, None);
}

#[test]
fn rate_limited_message_is_ignored_without_reason() {
    let filters = FiltersConfig::default();
    let mut anti = AntiSpamConfig::default();
    anti.max_messages_per_minute = 0;
    let mut engine = AntiSpamEngine::new();
    let d = decide(&msg("a", "bonjour"), &filters, &mut engine, &anti);
    assert!(!d.should_read);
    assert_eq!(d.rejection_reason, None);
}

#[test]
fn history_row() {
    let mut filters = FiltersConfig::default();
    filters.min_length = 10;
    let anti = AntiSpamConfig::default();
    let mut engine = AntiSpamEngine::new();
    let m = msg("viewer", "court");
    let d = decide_at(&m, &filters, &mut engine, &anti, 0);
    let h = HistoryEntry::for_message(&m, &d);
    assert_eq!(h.id, "id-1");
    assert_eq!(h.role, "vip");
    assert_eq!(h.display_name, "VIEWER");
    assert!(!h.was_read_aloud);
    assert_eq!(h.rejection_reason.as_deref(), Some("TooShort"));
    assert_eq!(h.created_at_ms, 42);
    assert_eq!(h.daily_deltas(), (0, 1));
    let summary = StatsSummary::default();
    assert_eq!(summary.total_messages_read, 0);
    assert!(summary.daily_breakdown.is_empty());
}

#[test]
fn retention_cutoff() {
    assert_eq!(retention_cutoff_ms(10 * 86_400_000, 3), 7 * 86_400_000);
    assert_eq!(retention_cutoff_ms(0, 0), 0);
}

#[test]
fn live_decision_groups_an_immediate_repeat() {
    let filters = FiltersConfig::default();
    let anti = AntiSpamConfig::default();
    let mut engine = AntiSpamEngine::new();
    let first = decide(&msg("a", "bonjour"), &filters, &mut engine, &anti);
    assert!(first.should_read);
    assert_eq!(first.occurrence_count, 1);
    let again = decide(&msg("a", "bonjour"), &filters, &mut engine, &anti);
    assert!(again.should_read);
    assert_eq!(again.occurrence_count, 2);
}
