use twitch_voice_reader::twitch::message::{
    chat_message_from_raw, is_ping, parse_raw_line, strip_urls, try_parse_privmsg, TwitchRole,
};

#[test]
fn parses_basic_privmsg() {
    let line = "@badges=moderator/1;color=#FF0000;display-name=ExampleUser;id=abc-123;emote-only=0 :exampleuser!exampleuser@exampleuser.tmi.twitch.tv PRIVMSG #somechannel :Hello world!";
    let msg = try_parse_privmsg(line, "somechannel").expect("devrait parser");
    assert_eq!(msg.display_name, "ExampleUser");
    assert_eq!(msg.role, TwitchRole::Moderator);
    assert_eq!(msg.text, "Hello world!");
    assert!(!msg.is_action);
}

#[test]
fn strips_urls_for_tts() {
    assert_eq!(strip_urls("regarde ça https://example.com/x cool"), "regarde ça  cool".replace("  ", " ").trim());
}

#[test]
fn detects_broadcaster_over_moderator() {
    let role = TwitchRole::from_badges("moderator/1,broadcaster/1");
    assert_eq!(role, TwitchRole::Broadcaster);
}

#[test]
fn parsed_message_fields() {
    let line = "@badges=subscriber/12,premium/1;color=;display-name=Zed;emote-only=1 :zed!zed@zed.tmi.twitch.tv PRIVMSG #chan :\u{1}ACTION danse http://a.b\u{1}";
    let msg = try_parse_privmsg(line, "chan").expect("privmsg");
    assert_eq!(msg.username_login, "zed");
    assert_eq!(msg.channel, "chan");
    assert_eq!(msg.color, None);
    assert_eq!(msg.role, TwitchRole::Subscriber);
    assert_eq!(msg.badges, vec!["subscriber".to_string(), "premium".to_string()]);
    assert!(msg.is_action);
    assert!(msg.is_emote_only);
    assert_eq!(msg.text, "danse http://a.b");
    assert_eq!(msg.text_for_tts, "danse");
    // No `id` tag: a random identifier in hyphenated form.
    assert_eq!(msg.id.len(), 36);
}

#[test]
fn message_from_raw_uses_fallback_id_and_time() {
    let raw = parse_raw_line(":a!a@a.tmi.twitch.tv PRIVMSG #c :salut").expect("line");
    let msg = chat_message_from_raw(&raw, "c", "fixed-id".to_string(), 1234).expect("privmsg");
    assert_eq!(msg.id, "fixed-id");
    assert_eq!(msg.timestamp_ms, 1234);
    assert_eq!(msg.display_name, "c");
    assert_eq!(msg.role, TwitchRole::Viewer);
}

#[test]
fn non_privmsg_lines_are_not_messages() {
    assert!(try_parse_privmsg("PING :tmi.twitch.tv", "c").is_none());
    assert!(try_parse_privmsg(":tmi.twitch.tv 001 bot :Welcome", "c").is_none());
}

#[test]
fn raw_line_tags_and_params() {
    let raw = parse_raw_line("@a=1;b=2 :src CMD p1 p2 :trailing text").expect("line");
    assert_eq!(raw.command, "CMD");
    assert_eq!(raw.params, vec!["p1".to_string(), "p2".to_string(), "trailing text".to_string()]);
    assert_eq!(raw.tag("b").map(|s| s.as_str()), Some("2"));
    assert_eq!(raw.tag("z"), None);
}

#[test]
fn ping_detection() {
    assert!(is_ping("PING :tmi.twitch.tv"));
    assert!(!is_ping("PONG :tmi.twitch.tv"));
    assert!(!is_ping(""));
}

#[test]
fn role_names_and_ranks() {
    assert_eq!(TwitchRole::Vip.as_str(), "vip");
    assert_eq!(TwitchRole::from_badges("vip/1,subscriber/3"), TwitchRole::Vip);
    assert_eq!(TwitchRole::from_badges(""), TwitchRole::Viewer);
    assert!(TwitchRole::Moderator.rank() > TwitchRole::Vip.rank());
}

#[test]
fn strip_urls_keeps_text_without_links() {
    assert_eq!(strip_urls("  bonjour   à tous "), "bonjour   à tous");
    assert_eq!(strip_urls("a  b"), "a  b");
    assert_eq!(strip_urls("vois https://a.b/c   et http://d.e fin"), "vois et fin");
    assert_eq!(strip_urls("lien https://x.y"), "lien");
    let once = strip_urls("x  https://a.b   y   z ");
    assert_eq!(once, "x  y   z");
    assert_eq!(strip_urls(&once), once);
    assert_eq!(strip_urls("https://only.link"), "");
}
