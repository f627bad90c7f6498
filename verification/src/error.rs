//! Errors of the application. The interface receives each error as a
//! stable pair `{ kind, message }`.

use vstd::prelude::*;
use crate::text::push_str_chars;

verus! {

/// An application error. Errors raised by outside libraries (network,
/// database, JSON, file system) carry their text.
#[derive(Debug, Clone)]
pub enum AppError {
    Network(String),
    WebSocket(String),
    Database(String),
    Pool(String),
    Serde(String),
    Io(String),
    AuthRequired,
    AuthFailed(String),
    TtsUnavailable(String),
    AudioDevice(String),
    InvalidConfig(String),
    AlreadyConnected(String),
    NotConnected(String),
    Internal(String),
}

/// Stable category of an error, as the interface sees it.
pub open spec fn error_kind(e: AppError) -> Seq<char> {
    match e {
        AppError::Network(_) => "network"@,
        AppError::WebSocket(_) => "websocket"@,
        AppError::Database(_) => "database"@,
        AppError::Pool(_) => "database"@,
        AppError::Serde(_) => "serde"@,
        AppError::Io(_) => "io"@,
        AppError::AuthRequired => "auth_required"@,
        AppError::AuthFailed(_) => "auth_failed"@,
        AppError::TtsUnavailable(_) => "tts_unavailable"@,
        AppError::AudioDevice(_) => "audio_device"@,
        AppError::InvalidConfig(_) => "invalid_config"@,
        AppError::AlreadyConnected(_) => "already_connected"@,
        AppError::NotConnected(_) => "not_connected"@,
        AppError::Internal(_) => "internal"@,
    }
}

/// Text shown to the user: a fixed prefix per kind, then the detail.
pub open spec fn error_message(e: AppError) -> Seq<char> {
    match e {
        AppError::Network(d) => "Erreur réseau : "@ + d@,
        AppError::WebSocket(d) => "Erreur WebSocket : "@ + d@,
        AppError::Database(d) => "Erreur base de données : "@ + d@,
        AppError::Pool(d) => "Erreur pool de connexions DB : "@ + d@,
        AppError::Serde(d) => "Erreur de sérialisation JSON : "@ + d@,
        AppError::Io(d) => "Erreur E/S : "@ + d@,
        AppError::AuthRequired => "Authentification Twitch requise ou expirée"@,
        AppError::AuthFailed(d) => "Échec de l'authentification Twitch : "@ + d@,
        AppError::TtsUnavailable(d) => "Moteur TTS (Piper) indisponible : "@ + d@,
        AppError::AudioDevice(d) => "Périphérique audio introuvable : "@ + d@,
        AppError::InvalidConfig(d) => "Configuration invalide : "@ + d@,
        AppError::AlreadyConnected(d) => "Chaîne déjà connectée : "@ + d@,
        AppError::NotConnected(d) => "Chaîne non connectée : "@ + d@,
        AppError::Internal(d) => "Erreur interne : "@ + d@,
    }
}

fn prefixed(prefix: &str, detail: &String) -> (s: String)
    ensures
        s@ == prefix@ + detail@,
{
    let mut s = String::new();
    push_str_chars(&mut s, prefix);
    push_str_chars(&mut s, detail.as_str());
    s
}

impl AppError {
    /// Stable category of the error.
    pub fn kind(&self) -> (k: &'static str)
        ensures
            k@ == error_kind(*self),
    {
        match self {
            AppError::Network(_) => "network",
            AppError::WebSocket(_) => "websocket",
            AppError::Database(_) => "database",
            AppError::Pool(_) => "database",
            AppError::Serde(_) => "serde",
            AppError::Io(_) => "io",
            AppError::AuthRequired => "auth_required",
            AppError::AuthFailed(_) => "auth_failed",
            AppError::TtsUnavailable(_) => "tts_unavailable",
            AppError::AudioDevice(_) => "audio_device",
            AppError::InvalidConfig(_) => "invalid_config",
            AppError::AlreadyConnected(_) => "already_connected",
            AppError::NotConnected(_) => "not_connected",
            AppError::Internal(_) => "internal",
        }
    }

    /// Text of the error shown to the user.
    pub fn message(&self) -> (m: String)
        ensures
            m@ == error_message(*self),
    {
        match self {
            AppError::Network(d) => prefixed("Erreur réseau : ", d),
            AppError::WebSocket(d) => prefixed("Erreur WebSocket : ", d),
            AppError::Database(d) => prefixed("Erreur base de données : ", d),
            AppError::Pool(d) => prefixed("Erreur pool de connexions DB : ", d),
            AppError::Serde(d) => prefixed("Erreur de sérialisation JSON : ", d),
            AppError::Io(d) => prefixed("Erreur E/S : ", d),
            AppError::AuthRequired => "Authentification Twitch requise ou expirée".to_owned(),
            AppError::AuthFailed(d) => prefixed("Échec de l'authentification Twitch : ", d),
            AppError::TtsUnavailable(d) => prefixed("Moteur TTS (Piper) indisponible : ", d),
            AppError::AudioDevice(d) => prefixed("Périphérique audio introuvable : ", d),
            AppError::InvalidConfig(d) => prefixed("Configuration invalide : ", d),
            AppError::AlreadyConnected(d) => prefixed("Chaîne déjà connectée : ", d),
            AppError::NotConnected(d) => prefixed("Chaîne non connectée : ", d),
            AppError::Internal(d) => prefixed("Erreur interne : ", d),
        }
    }
}

} // verus!
