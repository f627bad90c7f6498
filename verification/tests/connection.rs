use twitch_voice_reader::config::ChannelConfig;
use twitch_voice_reader::twitch::connection::{
    disable_channel, enable_channel, enabled_channel_logins, merge_connection_statuses, ChannelSupervisor, ConnectionStatus,
    ManagerEvent, NextStep, StatusBoard, SupervisorInput,
};
use twitch_voice_reader::twitch::irc::ChannelEvent;

fn chan(login: &str, enabled: bool) -> ChannelConfig {
    ChannelConfig { login: login.into(), enabled, auto_reconnect: true }
}

#[test]
fn backoff_doubles_up_to_a_minute() {
    let mut s = ChannelSupervisor::new("c".into());
    let mut waits = Vec::new();
    for _ in 0..8 {
        let o = s.step(SupervisorInput::SessionEnded { idle_timeout: false });
        assert_eq!(o.status, Some(ConnectionStatus::Reconnecting));
        match o.next {
            NextStep::Wait { secs } => waits.push(secs),
            _ => panic!("expected Wait"),
        }
        let o = s.step(SupervisorInput::BackoffElapsed);
        assert_eq!(o.next, NextStep::FetchToken);
    }
    assert_eq!(waits, vec![1, 2, 4, 8, 16, 32, 60, 60]);
}

#[test]
fn missing_token_ends_supervision() {
    let mut s = ChannelSupervisor::new("c".into());
    let o = s.step(SupervisorInput::TokenChecked { available: false });
    assert_eq!(o.status, Some(ConnectionStatus::Disconnected));
    assert_eq!(o.next, NextStep::Exit { deregister: true });
    let o = s.step(SupervisorInput::TokenChecked { available: true });
    assert_eq!(o.status, Some(ConnectionStatus::Connecting));
    assert_eq!(o.next, NextStep::OpenSession);
    let o = s.step(SupervisorInput::StopRequested);
    assert_eq!(o.next, NextStep::Exit { deregister: false });
    assert!(o.status.is_none());
}

#[test]
fn bridged_events() {
    let mut s = ChannelSupervisor::new("chan".into());
    let o = s.step(SupervisorInput::Bridge(ChannelEvent::Connected));
    assert_eq!(o.status, Some(ConnectionStatus::Connected));
    assert_eq!(o.next, NextStep::KeepRunning);
    let o = s.step(SupervisorInput::Bridge(ChannelEvent::Notice("hello".into())));
    match &o.events[..] {
        [ManagerEvent::Notice { channel, text }] => {
            assert_eq!(channel, "chan");
            assert_eq!(text, "hello");
        }
        _ => panic!("expected one notice"),
    }
    let o = s.step(SupervisorInput::SessionEnded { idle_timeout: true });
    match &o.events[..] {
        [ManagerEvent::Notice { text, .. }] => {
            assert_eq!(text, "Connexion inactive depuis plus de 6 minutes, reconnexion forcée")
        }
        _ => panic!("expected the idle notice"),
    }
}

#[test]
fn status_board_keeps_last_status() {
    let mut b = StatusBoard::new();
    match b.set("a", ConnectionStatus::Connecting) {
        ManagerEvent::StatusChanged { channel, status } => {
            assert_eq!(channel, "a");
            assert_eq!(status, ConnectionStatus::Connecting);
        }
        _ => panic!(),
    }
    b.set("b", ConnectionStatus::Connected);
    b.set("a", ConnectionStatus::Disconnected);
    let e = b.entries();
    assert_eq!(e.len(), 2);
    assert!(e.contains(&("a".to_string(), ConnectionStatus::Disconnected)));
    assert!(e.contains(&("b".to_string(), ConnectionStatus::Connected)));
}

#[test]
fn listing_merges_configured_and_live_channels() {
    let configured = vec![chan("a", true), chan("b", false)];
    let live = vec![("a".to_string(), ConnectionStatus::Connected), ("z".to_string(), ConnectionStatus::Reconnecting)];
    let r = merge_connection_statuses(&configured, &live);
    assert_eq!(r.len(), 3);
    assert!(r.contains(&("a".to_string(), ConnectionStatus::Connected)));
    assert!(r.contains(&("b".to_string(), ConnectionStatus::Disconnected)));
    assert!(r.contains(&("z".to_string(), ConnectionStatus::Reconnecting)));
}

#[test]
fn connect_and_disconnect_update_the_channel_list() {
    let mut channels = vec![chan("a", false)];
    enable_channel(&mut channels, "A");
    assert!(channels[0].enabled);
    assert_eq!(channels.len(), 1);
    enable_channel(&mut channels, "NewOne");
    assert_eq!(channels.len(), 2);
    assert_eq!(channels[1].login, "newone");
    assert!(channels[1].enabled && channels[1].auto_reconnect);
    disable_channel(&mut channels, "newone");
    assert!(!channels[1].enabled);
    disable_channel(&mut channels, "absent");
    assert_eq!(channels.len(), 2);
}

#[test]
fn enabled_channels_in_order() {
    let channels = vec![chan("a", true), chan("b", false), chan("c", true)];
    assert_eq!(enabled_channel_logins(&channels), vec!["a".to_string(), "c".to_string()]);
    assert!(enabled_channel_logins(&vec![]).is_empty());
}
