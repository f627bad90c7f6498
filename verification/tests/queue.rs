use twitch_voice_reader::config::{TtsVoiceConfig, VoiceAssignments};
use twitch_voice_reader::tts::queue::{
    finished_event, outcome_event, plan_playback, select_voice, select_voice_for_language, spoken_text,
    PlaybackOutcome, QueuedMessage, TtsPlaybackEvent,
};
use twitch_voice_reader::twitch::message::{ChatMessage, TwitchRole};

fn msg(text: &str, role: TwitchRole) -> ChatMessage {
    ChatMessage {
        id: "m1".into(),
        channel: "chan".into(),
        username_login: "alice".into(),
        display_name: "Alice".into(),
        color: None,
        role,
        badges: vec![],
        text: text.into(),
        text_for_tts: text.into(),
        is_emote_only: false,
        is_action: false,
        timestamp_ms: 0,
    }
}

#[test]
fn voice_priority_user_then_role_then_language_then_default() {
    let mut tts = TtsVoiceConfig::default();
    let mut a = VoiceAssignments::default();
    let m = msg("Hello everyone, how are you doing today my friends?", TwitchRole::Moderator);
    assert_eq!(select_voice(&m, &tts, &a), "fr_FR-siwis-medium");
    tts.auto_detect_language = true;
    assert_eq!(select_voice(&m, &tts, &a), "en_US-lessac-medium");
    a.set_role_voice("moderator".to_string(), Some("role-voice".to_string()));
    assert_eq!(select_voice(&m, &tts, &a), "role-voice");
    a.set_user_voice("ALICE", Some("user-voice".to_string()));
    assert_eq!(select_voice(&m, &tts, &a), "user-voice");
    a.set_user_voice("Alice", None);
    assert_eq!(select_voice(&m, &tts, &a), "role-voice");
}

#[test]
fn language_without_voice_falls_back_to_default() {
    let mut tts = TtsVoiceConfig::default();
    tts.auto_detect_language = true;
    let a = VoiceAssignments::default();
    let m = msg("x", TwitchRole::Viewer);
    assert_eq!(select_voice_for_language(&m, &tts, &a, Some("es")), "es_ES-davefx-medium");
    assert_eq!(select_voice_for_language(&m, &tts, &a, Some("pt")), "fr_FR-siwis-medium");
    assert_eq!(select_voice_for_language(&m, &tts, &a, None), "fr_FR-siwis-medium");
    tts.auto_detect_language = false;
    assert_eq!(select_voice_for_language(&m, &tts, &a, Some("es")), "fr_FR-siwis-medium");
}

#[test]
fn spoken_text_formats() {
    let q = QueuedMessage { message: msg("bonjour", TwitchRole::Viewer), occurrence_count: 3 };
    assert_eq!(spoken_text(&q, true), "Alice dit : bonjour (x3)");
    assert_eq!(spoken_text(&q, false), "bonjour (x3)");
    let q1 = QueuedMessage { message: msg("bonjour", TwitchRole::Viewer), occurrence_count: 1 };
    assert_eq!(spoken_text(&q1, true), "Alice dit : bonjour");
    let q12 = QueuedMessage { message: msg("gg", TwitchRole::Viewer), occurrence_count: 12 };
    assert_eq!(spoken_text(&q12, false), "gg (x12)");
}

#[test]
fn playback_plan() {
    let tts = TtsVoiceConfig::default();
    let a = VoiceAssignments::default();
    let q = QueuedMessage { message: msg("salut", TwitchRole::Viewer), occurrence_count: 1 };
    let p = plan_playback(&q, &tts, &a);
    assert_eq!(p.voice_id, "fr_FR-siwis-medium");
    assert_eq!(p.text_to_speak, "Alice dit : salut");
    match p.started {
        TtsPlaybackEvent::Started { message_id, display_name, text, voice_id } => {
            assert_eq!(message_id, "m1");
            assert_eq!(display_name, "Alice");
            assert_eq!(text, "salut");
            assert_eq!(voice_id, "fr_FR-siwis-medium");
        }
        _ => panic!("expected Started"),
    }
}

#[test]
fn outcome_events() {
    let id = "m1".to_string();
    match outcome_event(&id, PlaybackOutcome::SynthesisTimedOut) {
        Some(TtsPlaybackEvent::Error { message_id, error }) => {
            assert_eq!(message_id, "m1");
            assert_eq!(error, "Le moteur Piper n'a pas répondu dans les 15s (process probablement bloqué)");
        }
        _ => panic!("expected Error"),
    }
    match outcome_event(&id, PlaybackOutcome::PlaybackTimedOut) {
        Some(TtsPlaybackEvent::Error { error, .. }) => {
            assert_eq!(error, "Lecture audio anormalement longue, message annulé");
        }
        _ => panic!("expected Error"),
    }
    match outcome_event(&id, PlaybackOutcome::SynthesisFailed("boom".into())) {
        Some(TtsPlaybackEvent::Error { error, .. }) => assert_eq!(error, "boom"),
        _ => panic!("expected Error"),
    }
    assert!(outcome_event(&id, PlaybackOutcome::Played).is_none());
    match finished_event(id, 250) {
        TtsPlaybackEvent::Finished { message_id, duration_ms } => {
            assert_eq!(message_id, "m1");
            assert_eq!(duration_ms, 250);
        }
        _ => panic!("expected Finished"),
    }
}
