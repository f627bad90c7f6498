use twitch_voice_reader::twitch::irc::{
    frame_lines, socket_error_event, stream_closed_event, ChannelEvent, IrcChannelClient,
};
use twitch_voice_reader::twitch::message::TwitchRole;

fn client() -> IrcChannelClient {
    IrcChannelClient::new("SomeChannel".into(), "tok123".into(), "botname".into())
}

#[test]
fn channel_is_lower_cased() {
    assert_eq!(client().channel(), "somechannel");
}

#[test]
fn handshake() {
    assert_eq!(
        client().handshake_lines(),
        vec![
            "CAP REQ :twitch.tv/tags twitch.tv/commands twitch.tv/membership".to_string(),
            "PASS oauth:tok123".to_string(),
            "NICK botname".to_string(),
            "JOIN #somechannel".to_string(),
        ]
    );
}

#[test]
fn frames_split_into_non_empty_lines() {
    assert_eq!(
        frame_lines("PING :tmi.twitch.tv\r\n\r\n:a PRIVMSG #c :x\r\n"),
        vec!["PING :tmi.twitch.tv".to_string(), ":a PRIVMSG #c :x".to_string()]
    );
    assert!(frame_lines("").is_empty());
    assert_eq!(frame_lines("one line"), vec!["one line".to_string()]);
}

#[test]
fn ping_is_answered() {
    let o = client().handle_line("PING :tmi.twitch.tv");
    assert_eq!(o.reply.as_deref(), Some("PONG :tmi.twitch.tv"));
    assert!(o.events.is_empty());
    assert!(!o.stop);
}

#[test]
fn auth_failure_notice_stops() {
    let line = ":tmi.twitch.tv NOTICE * :Login authentication failed";
    let o = client().handle_line(line);
    assert!(o.stop);
    assert!(o.reply.is_none());
    assert_eq!(o.events.len(), 2);
    match &o.events[0] {
        ChannelEvent::Notice(t) => assert_eq!(t, line),
        _ => panic!("expected Notice"),
    }
    match &o.events[1] {
        ChannelEvent::Disconnected { reason } => assert_eq!(reason, "Authentification refusée par Twitch"),
        _ => panic!("expected Disconnected"),
    }
}

#[test]
fn other_notice_is_reported() {
    let o = client().handle_line("@msg-id=msg_channel_suspended :tmi.twitch.tv NOTICE #c :suspended");
    assert!(!o.stop);
    assert_eq!(o.events.len(), 1);
}

#[test]
fn chat_message_is_relayed() {
    let o = client().handle_line("@badges=vip/1;display-name=Bob :bob!bob@bob.tmi.twitch.tv PRIVMSG #somechannel :yo");
    assert!(!o.stop);
    assert_eq!(o.events.len(), 1);
    match &o.events[0] {
        ChannelEvent::Message(m) => {
            assert_eq!(m.text, "yo");
            assert_eq!(m.channel, "somechannel");
            assert_eq!(m.role, TwitchRole::Vip);
        }
        _ => panic!("expected Message"),
    }
    let o = client().handle_line(":tmi.twitch.tv 001 bot :Welcome");
    assert!(o.events.is_empty());
}

#[test]
fn disconnection_events() {
    match socket_error_event("reset") {
        ChannelEvent::Disconnected { reason } => assert_eq!(reason, "Erreur WebSocket : reset"),
        _ => panic!(),
    }
    match stream_closed_event() {
        ChannelEvent::Disconnected { reason } => assert_eq!(reason, "Flux WebSocket clos par le serveur"),
        _ => panic!(),
    }
}
