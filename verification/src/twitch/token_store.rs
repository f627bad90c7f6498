//! Where the Twitch tokens are kept: in the system keychain (Credential
//! Manager, Keychain, Secret Service), never in the settings file, so that
//! exporting or sharing the settings can never leak a secret.

use vstd::prelude::*;
use crate::error::AppError;
use crate::text::push_str_chars;

verus! {

/// Keychain service under which the tokens are stored.
pub const TOKEN_SERVICE_NAME: &'static str = "twitch-voice-reader";

/// Keychain account remembering the login of the last account used, so it
/// can be found at start-up without knowing the login.
pub const LAST_ACCOUNT_ENTRY: &'static str = "__last_account__";

/// Keychain storage of the tokens, one entry per account login.
pub struct TokenStore;

impl TokenStore {
    /// The keychain entries written when saving the tokens of `login`
    /// (serialized as `tokens_json`), in order: the tokens under the
    /// account's login, then the login under the last-account entry.
    pub fn entries_to_write(login: &str, tokens_json: &str) -> (r: Vec<(String, String)>)
        ensures
            r@.len() == 2,
            r@[0].0@ == login@ && r@[0].1@ == tokens_json@,
            r@[1].0@ == LAST_ACCOUNT_ENTRY@ && r@[1].1@ == login@,
    {
        let mut r: Vec<(String, String)> = Vec::new();
        r.push((login.to_owned(), tokens_json.to_owned()));
        r.push((LAST_ACCOUNT_ENTRY.to_owned(), login.to_owned()));
        r
    }

    /// Error reported when the keychain cannot be opened.
    pub fn unavailable_error(detail: &str) -> (e: AppError)
        ensures
            e matches AppError::Internal(m) && m@ == "Trousseau système inaccessible : "@ + detail@,
    {
        let mut m = String::new();
        push_str_chars(&mut m, "Trousseau système inaccessible : ");
        push_str_chars(&mut m, detail);
        AppError::Internal(m)
    }

    /// Error reported when writing to the keychain fails.
    pub fn write_error(detail: &str) -> (e: AppError)
        ensures
            e matches AppError::Internal(m) && m@ == "Échec d'écriture dans le trousseau : "@ + detail@,
    {
        let mut m = String::new();
        push_str_chars(&mut m, "Échec d'écriture dans le trousseau : ");
        push_str_chars(&mut m, detail);
        AppError::Internal(m)
    }
}

} // verus!
