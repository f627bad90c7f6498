use twitch_voice_reader::audio::device_infos;
use twitch_voice_reader::error::AppError;
use twitch_voice_reader::twitch::token_store::{TokenStore, LAST_ACCOUNT_ENTRY};

#[test]
fn error_kinds_and_messages() {
    assert_eq!(AppError::Pool("p".into()).kind(), "database");
    assert_eq!(AppError::Database("d".into()).kind(), "database");
    assert_eq!(AppError::AuthRequired.kind(), "auth_required");
    assert_eq!(AppError::AuthRequired.message(), "Authentification Twitch requise ou expirée");
    assert_eq!(AppError::TtsUnavailable("x".into()).message(), "Moteur TTS (Piper) indisponible : x");
    assert_eq!(AppError::InvalidConfig("y".into()).kind(), "invalid_config");
    assert_eq!(AppError::Network("n".into()).message(), "Erreur réseau : n");
}

#[test]
fn default_device_is_marked() {
    let v = device_infos(vec!["A".into(), "B".into()], Some("B".into()));
    assert_eq!(v.len(), 2);
    assert!(!v[0].is_default && v[1].is_default);
    assert_eq!(v[1].name, "B");
    let v = device_infos(vec!["A".into()], None);
    assert!(!v[0].is_default);
}

#[test]
fn token_entries() {
    let e = TokenStore::entries_to_write("bob", "{}");
    assert_eq!(e[0], ("bob".to_string(), "{}".to_string()));
    assert_eq!(e[1], (LAST_ACCOUNT_ENTRY.to_string(), "bob".to_string()));
    assert_eq!(LAST_ACCOUNT_ENTRY, "__last_account__");
    match TokenStore::unavailable_error("locked") {
        AppError::Internal(m) => assert_eq!(m, "Trousseau système inaccessible : locked"),
        _ => panic!(),
    }
}
