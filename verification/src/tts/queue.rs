//! Decisions of the speech queue: which voice reads a message, the exact
//! text handed to the speech engine, and the events reported to the
//! interface and the overlay at each step of a reading.
//!
//! Messages are read one at a time, in arrival order, whatever the number of
//! connected channels.

use vstd::prelude::*;
use crate::config::{TtsVoiceConfig, VoiceAssignments};
use crate::text;
use crate::text::push_str_chars;
use crate::tts::language::{detect_language_code, detected_language};
use crate::twitch::message::{role_name, ChatMessage, TwitchRole};

verus! {

/// A message waiting to be read.
#[derive(Debug, Clone)]
pub struct QueuedMessage {
    pub message: ChatMessage,
    /// Occurrences when the anti-spam grouped duplicates (e.g. "x3"), else 1.
    pub occurrence_count: u32,
}

/// Event sent at each step of a reading, for the interface and the overlay.
#[derive(Debug, Clone)]
pub enum TtsPlaybackEvent {
    Started { message_id: String, display_name: String, text: String, voice_id: String },
    Finished { message_id: String, duration_ms: u64 },
    QueueSizeChanged { size: usize },
    Error { message_id: String, error: String },
}

/// Longest wait for the speech engine before a reading is given up.
pub const SYNTHESIS_TIMEOUT_SECS: u64 = 15;

/// Longest wait for the audio output before a reading is given up.
pub const PLAYBACK_TIMEOUT_SECS: u64 = 60;

/// Voice for a message, by decreasing priority: the voice assigned to the
/// user, the one assigned to the user's role, the one of the detected
/// language (when detection is on and the language has a voice), the
/// default voice. `language` is the detected language code.
pub open spec fn voice_for(
    login: Seq<char>,
    role: Seq<char>,
    language: Option<Seq<char>>,
    tts: TtsVoiceConfig,
    assignments: VoiceAssignments,
) -> Seq<char> {
    if assignments.per_user@.contains_key(login) {
        assignments.per_user@[login]
    } else if assignments.per_role@.contains_key(role) {
        assignments.per_role@[role]
    } else if tts.auto_detect_language && language is Some && tts.language_voice_map@.contains_key(
        language->0,
    ) {
        tts.language_voice_map@[language->0]
    } else {
        tts.default_voice_id@
    }
}

/// A voice assigned to a user is the one read for that user's messages,
/// whatever their role, language or the other settings: after
/// [`VoiceAssignments::set_user_voice`] with `Some(voice)`, that voice is
/// used.
pub proof fn law_assigned_user_voice_is_used(
    before: VoiceAssignments,
    after: VoiceAssignments,
    login: Seq<char>,
    voice: Seq<char>,
    role: Seq<char>,
    language: Option<Seq<char>>,
    tts: TtsVoiceConfig,
)
    requires
        after.per_user@ == before.per_user@.insert(text::lowercase(login), voice),
    ensures
        voice_for(text::lowercase(login), role, language, tts, after) == voice,
{
}

/// The per-role voices are looked up under the role names of the
/// settings: for a user without a voice of their own, a voice assigned to
/// `"viewer"`, `"subscriber"`, `"vip"`, `"moderator"` or `"broadcaster"`
/// reads the messages of that role.
pub proof fn law_role_voice_keys(
    login: Seq<char>,
    language: Option<Seq<char>>,
    tts: TtsVoiceConfig,
    a: VoiceAssignments,
)
    requires
        !a.per_user@.contains_key(login),
    ensures
        a.per_role@.contains_key("viewer"@) ==> voice_for(
            login,
            role_name(TwitchRole::Viewer),
            language,
            tts,
            a,
        ) == a.per_role@["viewer"@],
        a.per_role@.contains_key("subscriber"@) ==> voice_for(
            login,
            role_name(TwitchRole::Subscriber),
            language,
            tts,
            a,
        ) == a.per_role@["subscriber"@],
        a.per_role@.contains_key("vip"@) ==> voice_for(login, role_name(TwitchRole::Vip), language, tts, a)
            == a.per_role@["vip"@],
        a.per_role@.contains_key("moderator"@) ==> voice_for(
            login,
            role_name(TwitchRole::Moderator),
            language,
            tts,
            a,
        ) == a.per_role@["moderator"@],
        a.per_role@.contains_key("broadcaster"@) ==> voice_for(
            login,
            role_name(TwitchRole::Broadcaster),
            language,
            tts,
            a,
        ) == a.per_role@["broadcaster"@],
{
}

/// Without any assignment for the user or the role, and without automatic
/// detection, the default voice reads the message.
pub proof fn law_default_voice_otherwise(
    login: Seq<char>,
    role: Seq<char>,
    language: Option<Seq<char>>,
    tts: TtsVoiceConfig,
    a: VoiceAssignments,
)
    requires
        !a.per_user@.contains_key(login),
        !a.per_role@.contains_key(role),
        !tts.auto_detect_language,
    ensures
        voice_for(login, role, language, tts, a) == tts.default_voice_id@,
{
}

/// Voice for `message` when the language detected in its text is
/// `language` (only consulted when automatic detection is on).
pub fn select_voice_for_language(
    message: &ChatMessage,
    tts: &TtsVoiceConfig,
    assignments: &VoiceAssignments,
    language: Option<&str>,
) -> (v: String)
    ensures
        v@ == voice_for(
            message.username_login@,
            role_name(message.role),
            match language {
                Some(l) => Some(l@),
                None => None,
            },
            *tts,
            *assignments,
        ),
{
    if let Some(voice) = assignments.per_user.get(message.username_login.as_str()) {
        return voice.clone();
    }
    if let Some(voice) = assignments.per_role.get(message.role.as_str()) {
        return voice.clone();
    }
    if tts.auto_detect_language {
        if let Some(code) = language {
            if let Some(voice) = tts.language_voice_map.get(code) {
                return voice.clone();
            }
        }
    }
    tts.default_voice_id.clone()
}

/// Voice for `message`; the language of its spoken text is detected only
/// when neither the user nor the role has a voice and detection is on.
pub fn select_voice(message: &ChatMessage, tts: &TtsVoiceConfig, assignments: &VoiceAssignments) -> (v: String)
    ensures
        v@ == voice_for(
            message.username_login@,
            role_name(message.role),
            detected_language(message.text_for_tts@),
            *tts,
            *assignments,
        ),
{
    if let Some(voice) = assignments.per_user.get(message.username_login.as_str()) {
        return voice.clone();
    }
    if let Some(voice) = assignments.per_role.get(message.role.as_str()) {
        return voice.clone();
    }
    if tts.auto_detect_language {
        let detected = detect_language_code(message.text_for_tts.as_str());
        return select_voice_for_language(message, tts, assignments, detected);
    }
    tts.default_voice_id.clone()
}

/// Suffix telling how many grouped occurrences a message stands for.
pub open spec fn occurrence_suffix(count: u32) -> Seq<char> {
    " (x"@ + text::decimal(count as nat) + ")"@
}

/// Text handed to the speech engine: the spoken text, followed by the
/// occurrence count when above one, preceded by "<display name> dit : "
/// when the user's name is read.
pub open spec fn spoken_text_spec(
    text_for_tts: Seq<char>,
    display_name: Seq<char>,
    occurrence_count: u32,
    read_username: bool,
) -> Seq<char> {
    let counted = if occurrence_count > 1 {
        text_for_tts + occurrence_suffix(occurrence_count)
    } else {
        text_for_tts
    };
    if read_username {
        display_name + " dit : "@ + counted
    } else {
        counted
    }
}

/// The text read aloud for a queued message.
pub fn spoken_text(queued: &QueuedMessage, read_username: bool) -> (s: String)
    ensures
        s@ == spoken_text_spec(
            queued.message.text_for_tts@,
            queued.message.display_name@,
            queued.occurrence_count,
            read_username,
        ),
{
    let mut s = String::new();
    if read_username {
        push_str_chars(&mut s, queued.message.display_name.as_str());
        push_str_chars(&mut s, " dit : ");
    }
    let ghost prefix = s@;
    push_str_chars(&mut s, queued.message.text_for_tts.as_str());
    if queued.occurrence_count > 1 {
        push_str_chars(&mut s, " (x");
        text::push_decimal(&mut s, queued.occurrence_count as u64);
        push_str_chars(&mut s, ")");
    }
    proof {
        reveal_strlit(" dit : ");
        reveal_strlit(" (x");
        reveal_strlit(")");
        let counted = if queued.occurrence_count > 1 {
            queued.message.text_for_tts@ + occurrence_suffix(queued.occurrence_count)
        } else {
            queued.message.text_for_tts@
        };
        assert(s@ =~= prefix + counted);
        if read_username {
            assert(prefix =~= queued.message.display_name@ + " dit : "@);
            assert(s@ =~= queued.message.display_name@ + " dit : "@ + counted);
        } else {
            assert(prefix =~= Seq::<char>::empty());
        }
    }
    s
}

/// What the queue does with one message: the voice, the text to speak and
/// the `Started` event announced before the synthesis.
pub struct PlaybackPlan {
    pub voice_id: String,
    pub text_to_speak: String,
    pub started: TtsPlaybackEvent,
}

/// Plans the reading of a queued message with the current settings.
pub fn plan_playback(
    queued: &QueuedMessage,
    tts: &TtsVoiceConfig,
    assignments: &VoiceAssignments,
) -> (p: PlaybackPlan)
    ensures
        p.voice_id@ == voice_for(
            queued.message.username_login@,
            role_name(queued.message.role),
            detected_language(queued.message.text_for_tts@),
            *tts,
            *assignments,
        ),
        p.text_to_speak@ == spoken_text_spec(
            queued.message.text_for_tts@,
            queued.message.display_name@,
            queued.occurrence_count,
            tts.read_username_before_message,
        ),
        p.started matches TtsPlaybackEvent::Started { message_id, display_name, text, voice_id } && {
            &&& message_id@ == queued.message.id@
            &&& display_name@ == queued.message.display_name@
            &&& text@ == queued.message.text@
            &&& voice_id@ == p.voice_id@
        },
{
    let voice_id = select_voice(&queued.message, tts, assignments);
    let text_to_speak = spoken_text(queued, tts.read_username_before_message);
    let started = TtsPlaybackEvent::Started {
        message_id: queued.message.id.clone(),
        display_name: queued.message.display_name.clone(),
        text: queued.message.text.clone(),
        voice_id: voice_id.clone(),
    };
    PlaybackPlan { voice_id, text_to_speak, started }
}

/// How the synthesis and playback of a message ended.
#[derive(Debug, Clone)]
pub enum PlaybackOutcome {
    /// The speech engine did not answer within [`SYNTHESIS_TIMEOUT_SECS`].
    SynthesisTimedOut,
    /// The speech engine failed, with this error text.
    SynthesisFailed(String),
    /// The audio output did not finish within [`PLAYBACK_TIMEOUT_SECS`].
    PlaybackTimedOut,
    /// The audio output failed, with this error text.
    PlaybackFailed(String),
    /// The message was read.
    Played,
}

/// Error text reported when the speech engine does not answer in time.
pub open spec fn synthesis_timeout_text() -> Seq<char> {
    "Le moteur Piper n'a pas répondu dans les "@ + text::decimal(SYNTHESIS_TIMEOUT_SECS as nat)
        + "s (process probablement bloqué)"@
}

/// Error text reported when the audio output does not finish in time.
pub open spec fn playback_timeout_text() -> Seq<char> {
    "Lecture audio anormalement longue, message annulé"@
}

/// Error text of an outcome, `None` when the message was read.
pub open spec fn outcome_error(o: PlaybackOutcome) -> Option<Seq<char>> {
    match o {
        PlaybackOutcome::SynthesisTimedOut => Some(synthesis_timeout_text()),
        PlaybackOutcome::SynthesisFailed(e) => Some(e@),
        PlaybackOutcome::PlaybackTimedOut => Some(playback_timeout_text()),
        PlaybackOutcome::PlaybackFailed(e) => Some(e@),
        PlaybackOutcome::Played => None,
    }
}

/// The `Error` event reported for an outcome of the reading of message
/// `message_id`; nothing when the message was read.
pub fn outcome_event(message_id: &String, outcome: PlaybackOutcome) -> (e: Option<TtsPlaybackEvent>)
    ensures
        match outcome_error(outcome) {
            Some(text) => e matches Some(TtsPlaybackEvent::Error { message_id: id, error })
                && id@ == message_id@ && error@ == text,
            None => e is None,
        },
{
    let error = match outcome {
        PlaybackOutcome::SynthesisTimedOut => {
            let mut s = String::new();
            push_str_chars(&mut s, "Le moteur Piper n'a pas répondu dans les ");
            text::push_decimal(&mut s, SYNTHESIS_TIMEOUT_SECS);
            push_str_chars(&mut s, "s (process probablement bloqué)");
            proof {
                assert(s@ =~= synthesis_timeout_text());
            }
            s
        },
        PlaybackOutcome::SynthesisFailed(e) => e,
        PlaybackOutcome::PlaybackTimedOut => {
            let s = "Lecture audio anormalement longue, message annulé".to_owned();
            s
        },
        PlaybackOutcome::PlaybackFailed(e) => e,
        PlaybackOutcome::Played => {
            return None;
        },
    };
    Some(TtsPlaybackEvent::Error { message_id: message_id.clone(), error })
}

/// The `Finished` event closing the reading of message `message_id`, sent
/// whatever the outcome.
pub fn finished_event(message_id: String, duration_ms: u64) -> (e: TtsPlaybackEvent)
    ensures
        e matches TtsPlaybackEvent::Finished { message_id: id, duration_ms: d } && id@ == message_id@
            && d == duration_ms,
{
    TtsPlaybackEvent::Finished { message_id, duration_ms }
}

} // verus!
