use twitch_voice_reader::config::{
    autostart_action, AntiSpamConfig, AppTheme, FiltersConfig, GeneralConfig, OverlayAnimation, OverlayConfig, TtsVoiceConfig,
    VoiceAssignments,
};
use twitch_voice_reader::string_map::StringMap;

#[test]
fn defaults() {
    let f = FiltersConfig::default();
    assert_eq!((f.min_length, f.max_length), (2, 300));
    assert!(f.ignore_emote_only_messages && !f.ignore_links);
    let a = AntiSpamConfig::default();
    assert!(a.enabled);
    assert_eq!((a.max_messages_per_minute, a.duplicate_grouping_window_secs, a.repetition_threshold), (20, 10, 4));
    let o = OverlayConfig::default();
    assert_eq!(o.http_port, 47831);
    assert_eq!(o.animation, OverlayAnimation::Fade);
    let g = GeneralConfig::default();
    assert_eq!(g.theme, AppTheme::Dark);
    assert_eq!(g.locale, "fr");
    assert_eq!(g.history_retention_days, 30);
    let t = TtsVoiceConfig::default();
    assert_eq!(t.default_voice_id, "fr_FR-siwis-medium");
    assert_eq!(t.language_voice_map.get("it").map(|s| s.as_str()), Some("it_IT-riccardo-x_low"));
    assert_eq!(t.max_queue_size, 50);
}

#[test]
fn user_voice_assignment_is_lower_cased() {
    let mut a = VoiceAssignments::default();
    a.set_user_voice("SomeUser", Some("v1".into()));
    assert_eq!(a.per_user.get("someuser").map(|s| s.as_str()), Some("v1"));
    a.set_user_voice("SOMEUSER", None);
    assert_eq!(a.per_user.get("someuser"), None);
    a.set_role_voice("vip".into(), Some("v2".into()));
    assert_eq!(a.per_role.get("vip").map(|s| s.as_str()), Some("v2"));
    a.set_role_voice("vip".into(), None);
    assert_eq!(a.per_role.get("vip"), None);
}

#[test]
fn string_map_last_write_wins() {
    let mut m = StringMap::new();
    m.insert("k".into(), "1".into());
    m.insert("k".into(), "2".into());
    assert_eq!(m.get("k").map(|s| s.as_str()), Some("2"));
    assert_eq!(m.to_pairs().len(), 1);
    let m2 = StringMap::from_pairs(vec![("a".into(), "x".into()), ("a".into(), "y".into())]);
    assert_eq!(m2.get("a").map(|s| s.as_str()), Some("y"));
    m.remove("k");
    assert_eq!(m.get("k"), None);
}

#[test]
fn autostart_follows_the_setting() {
    assert_eq!(autostart_action(true, false), Some(true));
    assert_eq!(autostart_action(false, true), Some(false));
    assert_eq!(autostart_action(true, true), None);
    assert_eq!(autostart_action(false, false), None);
}
