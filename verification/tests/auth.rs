use twitch_voice_reader::twitch::auth::login_client_id;
use twitch_voice_reader::config::TwitchConfig;
use twitch_voice_reader::error::AppError;
use twitch_voice_reader::twitch::auth::{
    identity_from_helix, is_client_id_configured, refresh_outcome, resolve_client_id, scopes_param,
    twitch_config_with_client_id, DeviceCodeResponse, DevicePoll, HelixUser, PollOutcome, TokenGrant,
    TwitchTokens, CLIENT_ID_PLACEHOLDER,
};

fn device(interval: u64) -> DeviceCodeResponse {
    DeviceCodeResponse {
        device_code: "dc".into(),
        user_code: "ABCD".into(),
        verification_uri: "https://www.twitch.tv/activate".into(),
        expires_in: 1800,
        interval,
    }
}

fn grant(access: Option<&str>, refresh: Option<&str>, expires: Option<i64>, message: Option<&str>) -> TokenGrant {
    TokenGrant {
        access_token: access.map(String::from),
        refresh_token: refresh.map(String::from),
        expires_in: expires,
        message: message.map(String::from),
    }
}

#[test]
fn client_id_priority() {
    let cfg = TwitchConfig { client_id: Some("  abc  ".into()) };
    assert_eq!(resolve_client_id(&cfg, Some("env".into())), "abc");
    let blank = TwitchConfig { client_id: Some("   ".into()) };
    assert_eq!(resolve_client_id(&blank, Some(" env ".into())), " env ");
    assert_eq!(resolve_client_id(&blank, Some("  ".into())), CLIENT_ID_PLACEHOLDER);
    assert_eq!(resolve_client_id(&TwitchConfig::default(), None), CLIENT_ID_PLACEHOLDER);
}

#[test]
fn client_id_configured() {
    assert!(is_client_id_configured("abc"));
    assert!(!is_client_id_configured(CLIENT_ID_PLACEHOLDER));
    assert!(!is_client_id_configured(" \t"));
    assert!(!is_client_id_configured(""));
}

#[test]
fn saving_a_client_id() {
    match twitch_config_with_client_id("  xyz ") {
        Ok(c) => assert_eq!(c.client_id.as_deref(), Some("xyz")),
        Err(_) => panic!("expected Ok"),
    }
    match twitch_config_with_client_id("   ") {
        Err(AppError::InvalidConfig(m)) => assert_eq!(m, "Le Client ID Twitch ne peut pas être vide."),
        _ => panic!("expected InvalidConfig"),
    }
}

#[test]
fn scopes() {
    assert_eq!(scopes_param(), "chat:read user:read:chat");
}

#[test]
fn device_poll_decisions() {
    let mut p = DevicePoll::new(&device(0));
    assert_eq!(p.interval_secs(), 1);
    assert!(!p.is_expired(1_799_999));
    assert!(p.is_expired(1_800_000));
    assert!(matches!(p.on_response(false, &grant(None, None, None, Some("authorization_pending"))), PollOutcome::Pending));
    assert_eq!(p.interval_secs(), 1);
    assert!(matches!(p.on_response(false, &grant(None, None, None, Some("slow_down"))), PollOutcome::Pending));
    assert_eq!(p.interval_secs(), 6);
    match p.on_response(false, &grant(None, None, None, Some("access_denied"))) {
        PollOutcome::Failed(AppError::AuthFailed(m)) => assert_eq!(m, "Autorisation refusée ou invalide : access_denied"),
        _ => panic!("expected failure"),
    }
    match p.on_response(false, &grant(None, None, None, None)) {
        PollOutcome::Failed(AppError::AuthFailed(m)) => assert_eq!(m, "Autorisation refusée ou invalide : "),
        _ => panic!("expected failure"),
    }
    match p.on_response(true, &grant(Some("acc"), None, None, None)) {
        PollOutcome::Granted { access_token, refresh_token, expires_in } => {
            assert_eq!(access_token, "acc");
            assert_eq!(refresh_token, "");
            assert_eq!(expires_in, 14400);
        }
        _ => panic!("expected Granted"),
    }
    match p.on_response(true, &grant(None, Some("r"), Some(10), None)) {
        PollOutcome::Failed(AppError::AuthFailed(m)) => assert_eq!(m, "Réponse Twitch inattendue"),
        _ => panic!("expected failure"),
    }
    match DevicePoll::expired_error() {
        AppError::AuthFailed(m) => assert_eq!(m, "Le code d'autorisation a expiré, veuillez réessayer"),
        _ => panic!(),
    }
}

#[test]
fn refresh_decisions() {
    assert!(matches!(refresh_outcome(false, &grant(Some("a"), None, None, None), "old"), Err(AppError::AuthRequired)));
    assert!(matches!(refresh_outcome(true, &grant(None, None, None, None), "old"), Err(AppError::AuthRequired)));
    match refresh_outcome(true, &grant(Some("a"), None, Some(60), None), "old") {
        Ok((a, r, e)) => {
            assert_eq!(a, "a");
            assert_eq!(r, "old");
            assert_eq!(e, 60);
        }
        Err(_) => panic!(),
    }
    match refresh_outcome(true, &grant(Some("a"), Some("new"), None, None), "old") {
        Ok((_, r, e)) => {
            assert_eq!(r, "new");
            assert_eq!(e, 14400);
        }
        Err(_) => panic!(),
    }
}

#[test]
fn identity_and_tokens() {
    match identity_from_helix(Some(HelixUser { login: Some("bob".into()), id: None })) {
        Ok((login, id)) => {
            assert_eq!(login, "bob");
            assert_eq!(id, "");
        }
        Err(_) => panic!(),
    }
    match identity_from_helix(None) {
        Err(AppError::AuthFailed(m)) => assert_eq!(m, "Aucun utilisateur retourné par Helix"),
        _ => panic!(),
    }
    let t = TwitchTokens::issued_at(1000, "a".into(), "r".into(), 14400, "bob".into(), "1".into());
    assert_eq!(t.expires_at_unix, 15400);
    let now = TwitchTokens::issued_now("a".into(), "r".into(), 60, "bob".into(), "1".into()).expect("fits");
    assert!(now.expires_at_unix > 1_600_000_000);
    assert!(TwitchTokens::issued_now("a".into(), "r".into(), i64::MAX, "bob".into(), "1".into()).is_none());
}

#[test]
fn login_needs_a_configured_client_id() {
    match login_client_id(&TwitchConfig::default(), None) {
        Err(AppError::InvalidConfig(m)) => assert_eq!(
            m,
            "Aucun Client ID Twitch configuré. Renseignez-le dans l'onglet « Connexions Twitch » (section Configuration Twitch) avant de vous connecter."
        ),
        _ => panic!("expected InvalidConfig"),
    }
    assert_eq!(login_client_id(&TwitchConfig::default(), Some("abc".into())).ok().as_deref(), Some("abc"));
}

#[test]
fn pending_answers_never_overflow_the_interval() {
    let mut p = DevicePoll::new(&device(u64::MAX));
    assert!(matches!(p.on_response(false, &grant(None, None, None, Some("authorization_pending"))), PollOutcome::Pending));
    assert_eq!(p.interval_secs(), u64::MAX);
}
