//! Twitch authentication decisions (Device Code Grant Flow).
//!
//! Twitch does not support PKCE, so a public desktop application uses the
//! device flow: no client secret, no local HTTP server, no custom URI
//! scheme. The user copies a short code into the browser; the application
//! polls until the code is accepted. The access token expires after about
//! four hours and is refreshed with the refresh token.

use vstd::prelude::*;
use crate::config::TwitchConfig;
use crate::error::AppError;
use crate::text;
use crate::text::{chars_of, chars_eq, push_str_chars, string_from_chars, trim_chars};

verus! {

/// Client ID used when neither the settings nor the `TWITCH_CLIENT_ID`
/// environment variable give one; callers treat it as "not configured".
pub const CLIENT_ID_PLACEHOLDER: &'static str = "REPLACE_WITH_YOUR_TWITCH_CLIENT_ID";

/// Lifetime assumed for an access token when Twitch does not give one
/// (four hours).
pub const DEFAULT_TOKEN_LIFETIME_SECS: i64 = 14400;

/// Extra wait between two polls when Twitch answers `slow_down`.
pub const SLOW_DOWN_STEP_SECS: u64 = 5;

/// Answer to the start of the device flow.
#[derive(Debug, Clone)]
pub struct DeviceCodeResponse {
    pub device_code: String,
    pub user_code: String,
    pub verification_uri: String,
    pub expires_in: u64,
    pub interval: u64,
}

/// Tokens of the logged-in account.
#[derive(Debug, Clone)]
pub struct TwitchTokens {
    pub access_token: String,
    pub refresh_token: String,
    pub expires_at_unix: i64,
    pub login: String,
    pub user_id: String,
}

/// A value is blank when it is empty once trimmed.
pub open spec fn is_blank(s: Seq<char>) -> bool {
    text::trim(s).len() == 0
}

/// Client ID to use, by priority: the one saved in the settings (trimmed)
/// when not blank, then the environment variable's value when not blank,
/// then the placeholder.
pub open spec fn resolved_client_id(configured: Option<Seq<char>>, env: Option<Seq<char>>) -> Seq<char> {
    if configured is Some && !is_blank(configured->0) {
        text::trim(configured->0)
    } else if env is Some && !is_blank(env->0) {
        env->0
    } else {
        CLIENT_ID_PLACEHOLDER@
    }
}

/// A client ID is configured when it is neither the placeholder nor blank.
pub open spec fn client_id_configured(id: Seq<char>) -> bool {
    id != CLIENT_ID_PLACEHOLDER@ && !is_blank(id)
}

fn trimmed(s: &str) -> (r: String)
    ensures
        r@ == text::trim(s@),
{
    let cs = chars_of(s);
    string_from_chars(trim_chars(cs.as_slice()))
}

/// Client ID to use, from the settings and from the value of the
/// `TWITCH_CLIENT_ID` environment variable (`None` when unset). Resolved at
/// each connection attempt, so that a newly saved ID applies at once.
pub fn resolve_client_id(twitch_config: &TwitchConfig, env_client_id: Option<String>) -> (r: String)
    ensures
        r@ == resolved_client_id(
            match twitch_config.client_id {
                Some(c) => Some(c@),
                None => None,
            },
            match env_client_id {
                Some(e) => Some(e@),
                None => None,
            },
        ),
{
    if let Some(configured) = &twitch_config.client_id {
        let t = trimmed(configured.as_str());
        if !t.as_str().is_empty() {
            return t;
        }
    }
    match env_client_id {
        Some(v) => {
            if !trimmed(v.as_str()).as_str().is_empty() {
                v
            } else {
                CLIENT_ID_PLACEHOLDER.to_owned()
            }
        },
        None => CLIENT_ID_PLACEHOLDER.to_owned(),
    }
}

/// `true` when `client_id` is usable: neither the placeholder nor blank.
pub fn is_client_id_configured(client_id: &str) -> (b: bool)
    ensures
        b == client_id_configured(client_id@),
{
    let a = chars_of(client_id);
    let p = chars_of(CLIENT_ID_PLACEHOLDER);
    !chars_eq(a.as_slice(), p.as_slice()) && !trimmed(client_id).as_str().is_empty()
}

/// The resolved client ID is usable exactly when the settings hold a
/// non-blank ID other than the placeholder, or, when the settings hold no
/// usable value, the environment does.
pub proof fn law_resolved_id_is_configured_iff_a_source_gives_one(
    configured: Option<Seq<char>>,
    env: Option<Seq<char>>,
)
    ensures
        client_id_configured(resolved_client_id(configured, env)) <==> if configured is Some
            && !is_blank(configured->0) {
            text::trim(configured->0) != CLIENT_ID_PLACEHOLDER@
        } else {
            env is Some && !is_blank(env->0) && env->0 != CLIENT_ID_PLACEHOLDER@
        },
{
    if configured is Some && !is_blank(configured->0) {
        text::lemma_trim_idempotent(configured->0);
    }
}

/// The client ID to log in with, refused with a message pointing to the
/// settings when none is configured.
pub fn login_client_id(twitch_config: &TwitchConfig, env_client_id: Option<String>) -> (r: Result<String, AppError>)
    ensures
        ({
            let id = resolved_client_id(
                match twitch_config.client_id {
                    Some(c) => Some(c@),
                    None => None,
                },
                match env_client_id {
                    Some(e) => Some(e@),
                    None => None,
                },
            );
            if client_id_configured(id) {
                r matches Ok(c) && c@ == id
            } else {
                r matches Err(AppError::InvalidConfig(m)) && m@
                    == "Aucun Client ID Twitch configuré. Renseignez-le dans l'onglet « Connexions Twitch » (section Configuration Twitch) avant de vous connecter."@
            }
        }),
{
    let id = resolve_client_id(twitch_config, env_client_id);
    if !is_client_id_configured(id.as_str()) {
        return Err(
            AppError::InvalidConfig(
                "Aucun Client ID Twitch configuré. Renseignez-le dans l'onglet « Connexions Twitch » (section Configuration Twitch) avant de vous connecter.".to_owned(),
            ),
        );
    }
    Ok(id)
}

/// Twitch settings holding the client ID typed by the user, trimmed; a
/// blank ID is refused.
pub fn twitch_config_with_client_id(client_id: &str) -> (r: Result<TwitchConfig, AppError>)
    ensures
        is_blank(client_id@) ==> (r matches Err(AppError::InvalidConfig(m)) && m@
            == "Le Client ID Twitch ne peut pas être vide."@),
        !is_blank(client_id@) ==> (r matches Ok(c) && c.client_id matches Some(id) && id@ == text::trim(
            client_id@,
        )),
{
    let t = trimmed(client_id);
    if t.as_str().is_empty() {
        return Err(AppError::InvalidConfig("Le Client ID Twitch ne peut pas être vide.".to_owned()));
    }
    Ok(TwitchConfig { client_id: Some(t) })
}

/// Scopes asked for: reading the chat, and Helix access for badges and
/// avatars, space-separated.
pub fn scopes_param() -> (s: String)
    ensures
        s@ == "chat:read user:read:chat"@,
{
    let mut s = String::new();
    push_str_chars(&mut s, "chat:read");
    push_str_chars(&mut s, " ");
    push_str_chars(&mut s, "user:read:chat");
    proof {
        reveal_strlit("chat:read");
        reveal_strlit(" ");
        reveal_strlit("user:read:chat");
        reveal_strlit("chat:read user:read:chat");
        assert(s@ =~= "chat:read user:read:chat"@);
    }
    s
}

// ---------------------------------------------------------------------------
// Token endpoint answers
// ---------------------------------------------------------------------------

/// Fields read from the JSON body of a token endpoint answer; each is
/// `None` when absent or of another type.
#[derive(Debug, Clone)]
pub struct TokenGrant {
    pub access_token: Option<String>,
    pub refresh_token: Option<String>,
    pub expires_in: Option<i64>,
    pub message: Option<String>,
}

/// What one poll of the device flow tells.
#[derive(Debug, Clone)]
pub enum PollOutcome {
    /// The user accepted: the tokens' parts.
    Granted { access_token: String, refresh_token: String, expires_in: i64 },
    /// Not accepted yet: poll again after the (possibly longer) interval.
    Pending,
    /// The authorization failed for good.
    Failed(AppError),
}

fn message_chars(m: &Option<String>) -> (v: Vec<char>)
    ensures
        v@ == match m {
            Some(s) => s@,
            None => Seq::<char>::empty(),
        },
{
    match m {
        Some(s) => chars_of(s.as_str()),
        None => Vec::new(),
    }
}

/// Polling state of the device flow.
pub struct DevicePoll {
    interval_secs: u64,
    expires_in_secs: u64,
}

impl DevicePoll {
    pub closed spec fn interval(&self) -> u64 {
        self.interval_secs
    }

    pub closed spec fn lifetime(&self) -> u64 {
        self.expires_in_secs
    }

    /// Polling for `device`: at the interval Twitch asked for (at least one
    /// second), until the code expires.
    pub fn new(device: &DeviceCodeResponse) -> (p: DevicePoll)
        ensures
            p.interval() == (if device.interval < 1 { 1 } else { device.interval }),
            p.lifetime() == device.expires_in,
    {
        DevicePoll {
            interval_secs: if device.interval < 1 {
                1
            } else {
                device.interval
            },
            expires_in_secs: device.expires_in,
        }
    }

    /// Seconds to wait before the next poll.
    pub fn interval_secs(&self) -> (s: u64)
        ensures
            s == self.interval(),
    {
        self.interval_secs
    }

    /// `true` once `elapsed_ms` milliseconds have passed since the flow
    /// started and the code has expired.
    pub fn is_expired(&self, elapsed_ms: u128) -> (b: bool)
        ensures
            b == (elapsed_ms >= self.lifetime() * 1000),
    {
        elapsed_ms >= (self.expires_in_secs as u128) * 1000
    }

    /// Error reported when the code expired before the user accepted it.
    pub fn expired_error() -> (e: AppError)
        ensures
            e matches AppError::AuthFailed(m) && m@ == "Le code d'autorisation a expiré, veuillez réessayer"@,
    {
        AppError::AuthFailed("Le code d'autorisation a expiré, veuillez réessayer".to_owned())
    }

    /// Decision on one answer of the token endpoint (`success` is the HTTP
    /// status): the tokens when granted (refresh token empty and a four-hour
    /// lifetime when absent), waiting on `authorization_pending`, waiting
    /// five seconds longer on `slow_down`, failure otherwise.
    pub fn on_response(&mut self, success: bool, body: &TokenGrant) -> (o: PollOutcome)
        requires
            !success && (body.message matches Some(m) && m@ == "slow_down"@) ==> old(self).interval()
                <= u64::MAX - SLOW_DOWN_STEP_SECS,
        ensures
            final(self).lifetime() == old(self).lifetime(),
            success ==> final(self).interval() == old(self).interval() && match body.access_token {
                Some(a) => o matches PollOutcome::Granted { access_token, refresh_token, expires_in }
                    && access_token@ == a@ && refresh_token@ == match body.refresh_token {
                    Some(r) => r@,
                    None => Seq::<char>::empty(),
                } && expires_in == match body.expires_in {
                    Some(e) => e,
                    None => DEFAULT_TOKEN_LIFETIME_SECS,
                },
                None => o matches PollOutcome::Failed(AppError::AuthFailed(m)) && m@
                    == "Réponse Twitch inattendue"@,
            },
            !success ==> {
                let msg = match body.message {
                    Some(m) => m@,
                    None => Seq::<char>::empty(),
                };
                if msg == "authorization_pending"@ {
                    o is Pending && final(self).interval() == old(self).interval()
                } else if msg == "slow_down"@ {
                    o is Pending && final(self).interval() == old(self).interval() + SLOW_DOWN_STEP_SECS
                } else {
                    final(self).interval() == old(self).interval() && (o matches PollOutcome::Failed(
                        AppError::AuthFailed(m),
                    ) && m@ == "Autorisation refusée ou invalide : "@ + msg)
                }
            },
    {
        if success {
            return match &body.access_token {
                Some(a) => PollOutcome::Granted {
                    access_token: a.clone(),
                    refresh_token: match &body.refresh_token {
                        Some(r) => r.clone(),
                        None => String::new(),
                    },
                    expires_in: match body.expires_in {
                        Some(e) => e,
                        None => DEFAULT_TOKEN_LIFETIME_SECS,
                    },
                },
                None => PollOutcome::Failed(AppError::AuthFailed("Réponse Twitch inattendue".to_owned())),
            };
        }
        let msg = message_chars(&body.message);
        let pending = chars_of("authorization_pending");
        let slow = chars_of("slow_down");
        if chars_eq(msg.as_slice(), pending.as_slice()) {
            PollOutcome::Pending
        } else if chars_eq(msg.as_slice(), slow.as_slice()) {
            proof {
                reveal_strlit("slow_down");
                assert(msg@ == "slow_down"@);
                assert(msg@.len() == 9);
                assert(body.message is Some);
                assert(old(self).interval() == self.interval_secs);
            }
            self.interval_secs = self.interval_secs + SLOW_DOWN_STEP_SECS;
            PollOutcome::Pending
        } else {
            let mut m = String::new();
            push_str_chars(&mut m, "Autorisation refusée ou invalide : ");
            text::push_chars(&mut m, msg.as_slice());
            PollOutcome::Failed(AppError::AuthFailed(m))
        }
    }
}

/// Decision on the answer to a token refresh: the new access token, the new
/// refresh token (the previous one when absent) and the lifetime (four
/// hours when absent); a failed request or a missing access token means the
/// user must log in again.
pub fn refresh_outcome(success: bool, body: &TokenGrant, previous_refresh_token: &str) -> (r: Result<
    (String, String, i64),
    AppError,
>)
    ensures
        !success ==> r matches Err(AppError::AuthRequired),
        success && body.access_token is None ==> r matches Err(AppError::AuthRequired),
        success && body.access_token is Some ==> (r matches Ok((a, rt, e)) && a@ == body.access_token->0@
            && rt@ == match body.refresh_token {
            Some(t) => t@,
            None => previous_refresh_token@,
        } && e == match body.expires_in {
            Some(x) => x,
            None => DEFAULT_TOKEN_LIFETIME_SECS,
        }),
{
    if !success {
        return Err(AppError::AuthRequired);
    }
    match &body.access_token {
        Some(a) => {
            let rt = match &body.refresh_token {
                Some(t) => t.clone(),
                None => previous_refresh_token.to_owned(),
            };
            let e = match body.expires_in {
                Some(x) => x,
                None => DEFAULT_TOKEN_LIFETIME_SECS,
            };
            Ok((a.clone(), rt, e))
        },
        None => Err(AppError::AuthRequired),
    }
}

/// The first user of a Helix `users` answer: its login and id, each `None`
/// when absent.
#[derive(Debug, Clone)]
pub struct HelixUser {
    pub login: Option<String>,
    pub id: Option<String>,
}

/// Login and id of the account, from the first user of the Helix answer
/// (empty when a field is absent); an answer without user is an error.
pub fn identity_from_helix(first_user: Option<HelixUser>) -> (r: Result<(String, String), AppError>)
    ensures
        match first_user {
            Some(u) => r matches Ok((login, id)) && login@ == match u.login {
                Some(l) => l@,
                None => Seq::<char>::empty(),
            } && id@ == match u.id {
                Some(i) => i@,
                None => Seq::<char>::empty(),
            },
            None => r matches Err(AppError::AuthFailed(m)) && m@ == "Aucun utilisateur retourné par Helix"@,
        },
{
    match first_user {
        Some(u) => {
            let login = match u.login {
                Some(l) => l,
                None => String::new(),
            };
            let id = match u.id {
                Some(i) => i,
                None => String::new(),
            };
            Ok((login, id))
        },
        None => Err(AppError::AuthFailed("Aucun utilisateur retourné par Helix".to_owned())),
    }
}

/// Expiry date of a token issued at `now` for `lifetime` seconds.
pub open spec fn expiry(now: i64, lifetime: i64) -> int {
    now + lifetime
}

/// Calls `chrono::Utc::now().timestamp()`: the current time in seconds,
/// about which nothing is claimed.
#[verifier::external_body]
fn now_unix_secs() -> (r: i64) {
    chrono::Utc::now().timestamp()
}

impl TwitchTokens {
    /// Tokens issued at `now_unix` (seconds), expiring `expires_in` seconds
    /// later.
    pub fn issued_at(
        now_unix: i64,
        access_token: String,
        refresh_token: String,
        expires_in: i64,
        login: String,
        user_id: String,
    ) -> (t: TwitchTokens)
        requires
            i64::MIN <= now_unix + expires_in <= i64::MAX,
        ensures
            t.access_token@ == access_token@,
            t.refresh_token@ == refresh_token@,
            t.expires_at_unix == now_unix + expires_in,
            t.login@ == login@,
            t.user_id@ == user_id@,
    {
        TwitchTokens { access_token, refresh_token, expires_at_unix: now_unix + expires_in, login, user_id }
    }

    /// Tokens issued now; `None` when the expiry date does not fit in an
    /// `i64`.
    pub fn issued_now(
        access_token: String,
        refresh_token: String,
        expires_in: i64,
        login: String,
        user_id: String,
    ) -> (t: Option<TwitchTokens>)
        ensures
            match t {
                Some(tok) => {
                    &&& tok.access_token@ == access_token@
                    &&& tok.refresh_token@ == refresh_token@
                    &&& tok.login@ == login@
                    &&& tok.user_id@ == user_id@
                    &&& exists|now: i64| tok.expires_at_unix == #[trigger] expiry(now, expires_in)
                },
                None => exists|now: i64| !(i64::MIN <= #[trigger] expiry(now, expires_in) <= i64::MAX),
            },
    {
        let now = now_unix_secs();
        match now.checked_add(expires_in) {
            Some(_) => {
                let t = TwitchTokens::issued_at(now, access_token, refresh_token, expires_in, login, user_id);
                assert(t.expires_at_unix == expiry(now, expires_in));
                Some(t)
            },
            None => {
                assert(!(i64::MIN <= expiry(now, expires_in) <= i64::MAX));
                None
            },
        }
    }
}

} // verus!
