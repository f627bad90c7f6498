use twitch_voice_reader::config::{FiltersConfig, RoleFilterConfig};
use twitch_voice_reader::filters::rules::{FilterEngine, FilterVerdict, RejectionReason};
use twitch_voice_reader::twitch::message::{strip_urls, ChatMessage, TwitchRole};

fn sample_message(text: &str) -> ChatMessage {
    ChatMessage {
        id: "1".into(),
        channel: "test".into(),
        username_login: "viewer1".into(),
        display_name: "Viewer1".into(),
        color: None,
        role: TwitchRole::Viewer,
        badges: vec![],
        text: text.into(),
        text_for_tts: text.into(),
        is_emote_only: false,
        is_action: false,
        timestamp_ms: 0,
    }
}

#[test]
fn rejects_blacklisted_word() {
    let mut config = FiltersConfig::default();
    config.blacklist_words.push("spam".into());
    let msg = sample_message("ceci est du SPAM détecté");
    assert_eq!(
        FilterEngine::evaluate(&msg, &config),
        FilterVerdict::Rejected(RejectionReason::Blacklisted)
    );
}

#[test]
fn accepts_normal_message() {
    let config = FiltersConfig::default();
    let msg = sample_message("bonjour le chat !");
    assert_eq!(FilterEngine::evaluate(&msg, &config), FilterVerdict::Accepted);
}

#[test]
fn ignored_user_is_rejected_first() {
    let mut config = FiltersConfig::default();
    config.ignored_users.push("VIEWER1".into());
    config.blacklist_words.push("spam".into());
    let msg = sample_message("spam");
    assert_eq!(
        FilterEngine::evaluate(&msg, &config),
        FilterVerdict::Rejected(RejectionReason::UserIgnored)
    );
}

#[test]
fn too_short_and_too_long() {
    let mut config = FiltersConfig::default();
    assert_eq!(
        FilterEngine::evaluate(&sample_message("a"), &config),
        FilterVerdict::Rejected(RejectionReason::TooShort)
    );
    config.max_length = 5;
    assert_eq!(
        FilterEngine::evaluate(&sample_message("abcdef"), &config),
        FilterVerdict::Rejected(RejectionReason::TooLong)
    );
    assert_eq!(FilterEngine::evaluate(&sample_message("abcde"), &config), FilterVerdict::Accepted);
    config.max_length = 0;
    let long = "x".repeat(1000);
    assert_eq!(FilterEngine::evaluate(&sample_message(&long), &config), FilterVerdict::Accepted);
}

#[test]
fn length_counts_characters_not_bytes() {
    let mut config = FiltersConfig::default();
    config.min_length = 3;
    assert_eq!(FilterEngine::evaluate(&sample_message("éàü"), &config), FilterVerdict::Accepted);
    config.max_length = 3;
    assert_eq!(FilterEngine::evaluate(&sample_message("éàü"), &config), FilterVerdict::Accepted);
}

#[test]
fn emote_only_and_links() {
    let config = FiltersConfig::default();
    let mut m = sample_message("Kappa Kappa");
    m.is_emote_only = true;
    assert_eq!(
        FilterEngine::evaluate(&m, &config),
        FilterVerdict::Rejected(RejectionReason::EmoteOnly)
    );
    let mut config = FiltersConfig::default();
    config.ignore_links = true;
    let mut m = sample_message("vois https://x.y ici");
    m.text_for_tts = "vois ici".into();
    assert_eq!(
        FilterEngine::evaluate(&m, &config),
        FilterVerdict::Rejected(RejectionReason::ContainsLink)
    );
}

#[test]
fn whitelist_mode() {
    let mut config = FiltersConfig::default();
    config.whitelist_words.push("Question".into());
    config.whitelist_mode_enabled = true;
    assert_eq!(
        FilterEngine::evaluate(&sample_message("salut tout le monde"), &config),
        FilterVerdict::Rejected(RejectionReason::NotWhitelisted)
    );
    assert_eq!(
        FilterEngine::evaluate(&sample_message("une QUESTION ?"), &config),
        FilterVerdict::Accepted
    );
    config.whitelist_mode_enabled = false;
    assert_eq!(
        FilterEngine::evaluate(&sample_message("salut tout le monde"), &config),
        FilterVerdict::Accepted
    );
}

#[test]
fn empty_blacklist_word_matches_nothing() {
    let mut config = FiltersConfig::default();
    config.blacklist_words.push(String::new());
    assert_eq!(FilterEngine::evaluate(&sample_message("bonjour"), &config), FilterVerdict::Accepted);
}

#[test]
fn role_boxes_are_independent() {
    let mut config = FiltersConfig::default();
    config.roles = RoleFilterConfig {
        subscribers_only: false,
        vips_only: true,
        moderators_only: false,
        broadcaster_only: false,
    };
    let mut m = sample_message("bonjour");
    assert_eq!(
        FilterEngine::evaluate(&m, &config),
        FilterVerdict::Rejected(RejectionReason::RoleNotAllowed)
    );
    m.badges = vec!["VIP".into()];
    assert_eq!(FilterEngine::evaluate(&m, &config), FilterVerdict::Accepted);
    assert!(FilterEngine::role_allowed(&m, &config));
    config.roles.vips_only = false;
    config.roles.subscribers_only = true;
    m.badges = vec!["founder".into()];
    assert_eq!(FilterEngine::evaluate(&m, &config), FilterVerdict::Accepted);
}

#[test]
fn rejection_reason_names() {
    assert_eq!(RejectionReason::Blacklisted.name(), "Blacklisted");
    assert_eq!(RejectionReason::NotWhitelisted.name(), "NotWhitelisted");
    assert_eq!(RejectionReason::RoleNotAllowed.name(), "RoleNotAllowed");
}

#[test]
fn link_free_spacing_is_not_a_link() {
    let mut config = FiltersConfig::default();
    config.ignore_links = true;
    let mut m = sample_message("hello  world");
    m.text_for_tts = strip_urls(&m.text);
    assert_eq!(FilterEngine::evaluate(&m, &config), FilterVerdict::Accepted);
}
