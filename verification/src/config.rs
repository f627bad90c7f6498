//! Settings the library's decisions read: filters, anti-spam, voices,
//! overlay and general preferences, with their default values.

use vstd::prelude::*;
use crate::string_map::StringMap;
use crate::text;

verus! {

/// Twitch application identifier (a public value, never a secret).
#[derive(Debug, Clone)]
pub struct TwitchConfig {
    pub client_id: Option<String>,
}

impl Default for TwitchConfig {
    fn default() -> (r: Self)
        ensures
            r.client_id is None,
    {
        TwitchConfig { client_id: None }
    }
}

/// A Twitch channel the user added.
#[derive(Debug, Clone)]
pub struct ChannelConfig {
    /// Channel login, lower case.
    pub login: String,
    pub enabled: bool,
    pub auto_reconnect: bool,
}

/// Voice and reading settings of the speech engine (volume, rate and pitch
/// are audio settings handled by the player).
#[derive(Debug, Clone)]
pub struct TtsVoiceConfig {
    /// Path of the Piper binary, resolved automatically when absent.
    pub piper_binary_path: Option<String>,
    /// Default voice (Piper `.onnx` model identifier).
    pub default_voice_id: String,
    pub auto_detect_language: bool,
    /// Detected language code -> voice to use.
    pub language_voice_map: StringMap,
    pub read_username_before_message: bool,
    pub max_queue_size: usize,
}

impl Default for TtsVoiceConfig {
    fn default() -> (r: Self)
        ensures
            r.piper_binary_path is None,
            r.default_voice_id@ == "fr_FR-siwis-medium"@,
            !r.auto_detect_language,
            r.language_voice_map@ == map![
                "fr"@ => "fr_FR-siwis-medium"@,
                "en"@ => "en_US-lessac-medium"@,
                "es"@ => "es_ES-davefx-medium"@,
                "de"@ => "de_DE-thorsten-medium"@,
                "it"@ => "it_IT-riccardo-x_low"@,
            ],
            r.read_username_before_message,
            r.max_queue_size == 50,
    {
        let mut language_voice_map = StringMap::new();
        language_voice_map.insert("fr".to_owned(), "fr_FR-siwis-medium".to_owned());
        language_voice_map.insert("en".to_owned(), "en_US-lessac-medium".to_owned());
        language_voice_map.insert("es".to_owned(), "es_ES-davefx-medium".to_owned());
        language_voice_map.insert("de".to_owned(), "de_DE-thorsten-medium".to_owned());
        language_voice_map.insert("it".to_owned(), "it_IT-riccardo-x_low".to_owned());
        TtsVoiceConfig {
            piper_binary_path: None,
            default_voice_id: "fr_FR-siwis-medium".to_owned(),
            auto_detect_language: false,
            language_voice_map,
            read_username_before_message: true,
            max_queue_size: 50,
        }
    }
}

/// Restricts reading to some roles. When every field is `false`, everybody
/// is read (default).
#[derive(Debug, Clone, Copy)]
pub struct RoleFilterConfig {
    pub subscribers_only: bool,
    pub vips_only: bool,
    pub moderators_only: bool,
    pub broadcaster_only: bool,
}

impl Default for RoleFilterConfig {
    fn default() -> (r: Self)
        ensures
            !r.subscribers_only && !r.vips_only && !r.moderators_only && !r.broadcaster_only,
    {
        RoleFilterConfig {
            subscribers_only: false,
            vips_only: false,
            moderators_only: false,
            broadcaster_only: false,
        }
    }
}

/// Content filters.
#[derive(Debug, Clone)]
pub struct FiltersConfig {
    pub min_length: usize,
    /// `0` means no upper bound.
    pub max_length: usize,
    pub ignore_emote_only_messages: bool,
    pub ignore_links: bool,
    pub blacklist_words: Vec<String>,
    pub whitelist_words: Vec<String>,
    /// When on and the whitelist is not empty, ONLY messages containing one
    /// of its words are read.
    pub whitelist_mode_enabled: bool,
    pub ignored_users: Vec<String>,
    pub roles: RoleFilterConfig,
}

impl Default for FiltersConfig {
    fn default() -> (r: Self)
        ensures
            r.min_length == 2,
            r.max_length == 300,
            r.ignore_emote_only_messages,
            !r.ignore_links,
            r.blacklist_words@.len() == 0,
            r.whitelist_words@.len() == 0,
            !r.whitelist_mode_enabled,
            r.ignored_users@.len() == 0,
            !r.roles.subscribers_only && !r.roles.vips_only && !r.roles.moderators_only
                && !r.roles.broadcaster_only,
    {
        FiltersConfig {
            min_length: 2,
            max_length: 300,
            ignore_emote_only_messages: true,
            ignore_links: false,
            blacklist_words: Vec::new(),
            whitelist_words: Vec::new(),
            whitelist_mode_enabled: false,
            ignored_users: Vec::new(),
            roles: RoleFilterConfig::default(),
        }
    }
}

/// Anti-spam settings.
#[derive(Debug, Clone, Copy)]
pub struct AntiSpamConfig {
    pub enabled: bool,
    /// Most messages read per minute, all channels together.
    pub max_messages_per_minute: u32,
    /// Window (seconds) in which two identical consecutive messages of a
    /// user are grouped instead of being read twice.
    pub duplicate_grouping_window_secs: u64,
    /// Repetitions of the same message after which it is cut (raid or
    /// copypasta protection).
    pub repetition_threshold: u32,
}

impl Default for AntiSpamConfig {
    fn default() -> (r: Self)
        ensures
            r.enabled,
            r.max_messages_per_minute == 20,
            r.duplicate_grouping_window_secs == 10,
            r.repetition_threshold == 4,
    {
        AntiSpamConfig {
            enabled: true,
            max_messages_per_minute: 20,
            duplicate_grouping_window_secs: 10,
            repetition_threshold: 4,
        }
    }
}

/// Voices assigned to users and to roles.
#[derive(Debug, Clone)]
pub struct VoiceAssignments {
    /// Twitch login (lower case) -> Piper voice id.
    pub per_user: StringMap,
    /// Role (`"subscriber"`, `"vip"`, `"moderator"`, `"broadcaster"`) -> voice id.
    pub per_role: StringMap,
}

impl Default for VoiceAssignments {
    fn default() -> (r: Self)
        ensures
            r.per_user@ == Map::<Seq<char>, Seq<char>>::empty(),
            r.per_role@ == Map::<Seq<char>, Seq<char>>::empty(),
    {
        VoiceAssignments { per_user: StringMap::new(), per_role: StringMap::new() }
    }
}

impl VoiceAssignments {
    /// Assigns `voice_id` to the user `login` (lower-cased), or removes the
    /// user's voice when `voice_id` is `None`.
    pub fn set_user_voice(&mut self, login: &str, voice_id: Option<String>)
        ensures
            final(self).per_user@ == match voice_id {
                Some(v) => old(self).per_user@.insert(text::lowercase(login@), v@),
                None => old(self).per_user@.remove(text::lowercase(login@)),
            },
            final(self).per_role@ == old(self).per_role@,
    {
        let key = text::to_lowercase(login);
        match voice_id {
            Some(v) => self.per_user.insert(key, v),
            None => self.per_user.remove(key.as_str()),
        }
    }

    /// Assigns `voice_id` to the role named `role`, or removes the role's
    /// voice when `voice_id` is `None`.
    pub fn set_role_voice(&mut self, role: String, voice_id: Option<String>)
        ensures
            final(self).per_role@ == match voice_id {
                Some(v) => old(self).per_role@.insert(role@, v@),
                None => old(self).per_role@.remove(role@),
            },
            final(self).per_user@ == old(self).per_user@,
    {
        match voice_id {
            Some(v) => self.per_role.insert(role, v),
            None => self.per_role.remove(role.as_str()),
        }
    }
}

/// Animation of the stream overlay.
#[derive(Debug, Clone, Copy, PartialEq, Eq, Structural)]
pub enum OverlayAnimation {
    Fade,
    SlideUp,
    Bounce,
}

/// Browser-source overlay settings.
#[derive(Debug, Clone, Copy)]
pub struct OverlayConfig {
    pub enabled: bool,
    pub http_port: u16,
    pub show_avatar: bool,
    pub show_username: bool,
    pub animation: OverlayAnimation,
}

impl Default for OverlayConfig {
    fn default() -> (r: Self)
        ensures
            !r.enabled,
            r.http_port == 47831,
            r.show_avatar,
            r.show_username,
            r.animation == OverlayAnimation::Fade,
    {
        OverlayConfig {
            enabled: false,
            http_port: 47831,
            show_avatar: true,
            show_username: true,
            animation: OverlayAnimation::Fade,
        }
    }
}

/// Interface theme.
#[derive(Debug, Clone, Copy, PartialEq, Eq, Structural)]
pub enum AppTheme {
    Dark,
    Light,
    System,
}

/// General preferences.
#[derive(Debug, Clone)]
pub struct GeneralConfig {
    pub start_minimized_to_tray: bool,
    pub launch_on_system_startup: bool,
    pub theme: AppTheme,
    pub locale: String,
    pub history_retention_days: u32,
}

impl Default for GeneralConfig {
    fn default() -> (r: Self)
        ensures
            !r.start_minimized_to_tray,
            !r.launch_on_system_startup,
            r.theme == AppTheme::Dark,
            r.locale@ == "fr"@,
            r.history_retention_days == 30,
    {
        GeneralConfig {
            start_minimized_to_tray: false,
            launch_on_system_startup: false,
            theme: AppTheme::Dark,
            locale: "fr".to_owned(),
            history_retention_days: 30,
        }
    }
}

/// What to do with the system's start-up registration so that it matches
/// the setting: `Some(true)` to register the application, `Some(false)` to
/// unregister it, `None` when it already matches.
pub fn autostart_action(wanted: bool, enabled: bool) -> (a: Option<bool>)
    ensures
        a == (if wanted && !enabled {
            Some(true)
        } else if !wanted && enabled {
            Some(false)
        } else {
            None
        }),
{
    if wanted && !enabled {
        Some(true)
    } else if !wanted && enabled {
        Some(false)
    } else {
        None
    }
}

} // verus!
