//! Rules deciding whether a chat message is read aloud.
//!
//! Rules are checked in a fixed order, cheapest first (ignored user, role,
//! length) before the text checks (links, word lists); the first rule that
//! rejects gives the reason.

use vstd::prelude::*;
use crate::config::{FiltersConfig, RoleFilterConfig};
use crate::text;
use crate::text::{chars_of, contains_chars, eq_ignore_ascii_case_chars, to_lowercase};
use crate::twitch::message::ChatMessage;

verus! {

/// Outcome of the content filters.
#[derive(Debug, Clone, Copy, PartialEq, Eq, Structural)]
pub enum FilterVerdict {
    Accepted,
    Rejected(RejectionReason),
}

/// Why a message is not read.
#[derive(Debug, Clone, Copy, PartialEq, Eq, Structural)]
pub enum RejectionReason {
    UserIgnored,
    TooShort,
    TooLong,
    EmoteOnly,
    ContainsLink,
    Blacklisted,
    NotWhitelisted,
    RoleNotAllowed,
}

/// Variant name of a rejection reason, as stored in the history.
pub open spec fn reason_name(r: RejectionReason) -> Seq<char> {
    match r {
        RejectionReason::UserIgnored => "UserIgnored"@,
        RejectionReason::TooShort => "TooShort"@,
        RejectionReason::TooLong => "TooLong"@,
        RejectionReason::EmoteOnly => "EmoteOnly"@,
        RejectionReason::ContainsLink => "ContainsLink"@,
        RejectionReason::Blacklisted => "Blacklisted"@,
        RejectionReason::NotWhitelisted => "NotWhitelisted"@,
        RejectionReason::RoleNotAllowed => "RoleNotAllowed"@,
    }
}

impl RejectionReason {
    /// Variant name, as stored in the history.
    pub fn name(&self) -> (s: &'static str)
        ensures
            s@ == reason_name(*self),
    {
        match self {
            RejectionReason::UserIgnored => "UserIgnored",
            RejectionReason::TooShort => "TooShort",
            RejectionReason::TooLong => "TooLong",
            RejectionReason::EmoteOnly => "EmoteOnly",
            RejectionReason::ContainsLink => "ContainsLink",
            RejectionReason::Blacklisted => "Blacklisted",
            RejectionReason::NotWhitelisted => "NotWhitelisted",
            RejectionReason::RoleNotAllowed => "RoleNotAllowed",
        }
    }
}

/// Some user of the list is `login_lower` once lower-cased.
pub open spec fn lists_user(users: Seq<Seq<char>>, login_lower: Seq<char>) -> bool {
    exists|i: int| 0 <= i < users.len() && text::lowercase(#[trigger] users[i]) == login_lower
}

/// Some non-empty word of the list occurs, lower-cased, in `text_lower`.
pub open spec fn mentions_word(words: Seq<Seq<char>>, text_lower: Seq<char>) -> bool {
    exists|i: int|
        0 <= i < words.len() && (#[trigger] words[i]).len() > 0 && text::contains_seq(
            text_lower,
            text::lowercase(words[i]),
        )
}

/// Some badge equals one of `names`, ignoring ASCII case.
pub open spec fn has_badge(badges: Seq<Seq<char>>, names: Seq<Seq<char>>) -> bool {
    exists|i: int, j: int|
        0 <= i < badges.len() && 0 <= j < names.len() && text::eq_ignore_ascii_case(
            #[trigger] badges[i],
            #[trigger] names[j],
        )
}

/// Every ticked role box is independent: a message passes when no box is
/// ticked, or when it carries the badge of a ticked box.
pub open spec fn role_allowed_spec(badges: Seq<Seq<char>>, roles: RoleFilterConfig) -> bool {
    if !(roles.subscribers_only || roles.vips_only || roles.moderators_only
        || roles.broadcaster_only) {
        true
    } else {
        ||| roles.broadcaster_only && has_badge(badges, seq!["broadcaster"@])
        ||| roles.moderators_only && has_badge(badges, seq!["moderator"@])
        ||| roles.vips_only && has_badge(badges, seq!["vip"@])
        ||| roles.subscribers_only && has_badge(badges, seq!["subscriber"@, "founder"@])
    }
}

/// The verdict of the content filters on a message.
pub open spec fn filter_verdict(m: ChatMessage, c: FiltersConfig) -> FilterVerdict {
    let len = m.text_for_tts@.len();
    let text_lower = text::lowercase(m.text@);
    if lists_user(text::strings_view(c.ignored_users@), text::lowercase(m.username_login@)) {
        FilterVerdict::Rejected(RejectionReason::UserIgnored)
    } else if !role_allowed_spec(text::strings_view(m.badges@), c.roles) {
        FilterVerdict::Rejected(RejectionReason::RoleNotAllowed)
    } else if len < c.min_length {
        FilterVerdict::Rejected(RejectionReason::TooShort)
    } else if c.max_length > 0 && len > c.max_length {
        FilterVerdict::Rejected(RejectionReason::TooLong)
    } else if c.ignore_emote_only_messages && m.is_emote_only {
        FilterVerdict::Rejected(RejectionReason::EmoteOnly)
    } else if c.ignore_links && m.text@ != m.text_for_tts@ {
        FilterVerdict::Rejected(RejectionReason::ContainsLink)
    } else if mentions_word(text::strings_view(c.blacklist_words@), text_lower) {
        FilterVerdict::Rejected(RejectionReason::Blacklisted)
    } else if c.whitelist_mode_enabled && c.whitelist_words@.len() > 0 && !mentions_word(
        text::strings_view(c.whitelist_words@),
        text_lower,
    ) {
        FilterVerdict::Rejected(RejectionReason::NotWhitelisted)
    } else {
        FilterVerdict::Accepted
    }
}

/// Messages of an ignored user are never read, whatever they say: that rule
/// is checked first.
pub proof fn law_ignored_user_is_never_read(m: ChatMessage, c: FiltersConfig)
    requires
        lists_user(text::strings_view(c.ignored_users@), text::lowercase(m.username_login@)),
    ensures
        filter_verdict(m, c) == FilterVerdict::Rejected(RejectionReason::UserIgnored),
{
}

/// A message mentioning a blacklisted word is never read.
pub proof fn law_blacklisted_word_is_never_read(m: ChatMessage, c: FiltersConfig)
    requires
        mentions_word(text::strings_view(c.blacklist_words@), text::lowercase(m.text@)),
    ensures
        filter_verdict(m, c) is Rejected,
{
}

/// A message the filters accept meets every enabled rule: its author is not
/// ignored, its role is allowed, its spoken length lies within the bounds,
/// it is not emote-only or linking when those are refused, it mentions no
/// blacklisted word, and it mentions a whitelisted word when the whitelist
/// is enforced.
pub proof fn law_accepted_message_meets_every_rule(m: ChatMessage, c: FiltersConfig)
    requires
        filter_verdict(m, c) == FilterVerdict::Accepted,
    ensures
        !lists_user(text::strings_view(c.ignored_users@), text::lowercase(m.username_login@)),
        role_allowed_spec(text::strings_view(m.badges@), c.roles),
        c.min_length <= m.text_for_tts@.len(),
        c.max_length == 0 || m.text_for_tts@.len() <= c.max_length,
        !(c.ignore_emote_only_messages && m.is_emote_only),
        !(c.ignore_links && m.text@ != m.text_for_tts@),
        !mentions_word(text::strings_view(c.blacklist_words@), text::lowercase(m.text@)),
        c.whitelist_mode_enabled && c.whitelist_words@.len() > 0 ==> mentions_word(
            text::strings_view(c.whitelist_words@),
            text::lowercase(m.text@),
        ),
{
}

/// One of `badges` is `name`, ASCII case ignored.
pub open spec fn wears(badges: Seq<Seq<char>>, name: Seq<char>) -> bool {
    exists|i: int| 0 <= i < badges.len() && text::eq_ignore_ascii_case(#[trigger] badges[i], name)
}

proof fn lemma_has_badge_one(badges: Seq<Seq<char>>, name: Seq<char>)
    ensures
        has_badge(badges, seq![name]) <==> wears(badges, name),
{
    let names = seq![name];
    assert(names[0] == name);
    if wears(badges, name) {
        let i = choose|i: int| 0 <= i < badges.len() && text::eq_ignore_ascii_case(#[trigger] badges[i], name);
        assert(text::eq_ignore_ascii_case(badges[i], names[0]));
    }
    if has_badge(badges, names) {
        let (i, j) = choose|i: int, j: int|
            0 <= i < badges.len() && 0 <= j < names.len() && text::eq_ignore_ascii_case(
                #[trigger] badges[i],
                #[trigger] names[j],
            );
        assert(j == 0);
        assert(text::eq_ignore_ascii_case(badges[i], name));
    }
}

proof fn lemma_has_badge_two(badges: Seq<Seq<char>>, a: Seq<char>, b: Seq<char>)
    ensures
        has_badge(badges, seq![a, b]) <==> (wears(badges, a) || wears(badges, b)),
{
    let names = seq![a, b];
    assert(names[0] == a && names[1] == b);
    if wears(badges, a) {
        let i = choose|i: int| 0 <= i < badges.len() && text::eq_ignore_ascii_case(#[trigger] badges[i], a);
        assert(text::eq_ignore_ascii_case(badges[i], names[0]));
    }
    if wears(badges, b) {
        let i = choose|i: int| 0 <= i < badges.len() && text::eq_ignore_ascii_case(#[trigger] badges[i], b);
        assert(text::eq_ignore_ascii_case(badges[i], names[1]));
    }
    if has_badge(badges, names) {
        let (i, j) = choose|i: int, j: int|
            0 <= i < badges.len() && 0 <= j < names.len() && text::eq_ignore_ascii_case(
                #[trigger] badges[i],
                #[trigger] names[j],
            );
        if j == 0 {
            assert(text::eq_ignore_ascii_case(badges[i], a));
        } else {
            assert(text::eq_ignore_ascii_case(badges[i], b));
        }
    }
}

/// The role boxes of the filters: with no box ticked the role rule lets
/// every message through; with boxes ticked, wearing the badge of any
/// ticked box is enough (`broadcaster`, `moderator`, `vip`, and
/// `subscriber` or `founder` for the subscribers' box, ASCII case
/// ignored); a message from a user who is not ignored and wears the badge
/// of no ticked box is refused for its role.
pub proof fn law_role_boxes(m: ChatMessage, c: FiltersConfig)
    ensures
        !(c.roles.subscribers_only || c.roles.vips_only || c.roles.moderators_only
            || c.roles.broadcaster_only) ==> filter_verdict(m, c) != FilterVerdict::Rejected(
            RejectionReason::RoleNotAllowed,
        ),
        c.roles.broadcaster_only && wears(text::strings_view(m.badges@), "broadcaster"@)
            ==> filter_verdict(m, c) != FilterVerdict::Rejected(RejectionReason::RoleNotAllowed),
        c.roles.moderators_only && wears(text::strings_view(m.badges@), "moderator"@)
            ==> filter_verdict(m, c) != FilterVerdict::Rejected(RejectionReason::RoleNotAllowed),
        c.roles.vips_only && wears(text::strings_view(m.badges@), "vip"@) ==> filter_verdict(m, c)
            != FilterVerdict::Rejected(RejectionReason::RoleNotAllowed),
        c.roles.subscribers_only && (wears(text::strings_view(m.badges@), "subscriber"@) || wears(
            text::strings_view(m.badges@),
            "founder"@,
        )) ==> filter_verdict(m, c) != FilterVerdict::Rejected(RejectionReason::RoleNotAllowed),
        ({
            &&& !lists_user(text::strings_view(c.ignored_users@), text::lowercase(m.username_login@))
            &&& c.roles.subscribers_only || c.roles.vips_only || c.roles.moderators_only
                || c.roles.broadcaster_only
            &&& !(c.roles.broadcaster_only && wears(text::strings_view(m.badges@), "broadcaster"@))
            &&& !(c.roles.moderators_only && wears(text::strings_view(m.badges@), "moderator"@))
            &&& !(c.roles.vips_only && wears(text::strings_view(m.badges@), "vip"@))
            &&& !(c.roles.subscribers_only && (wears(text::strings_view(m.badges@), "subscriber"@)
                || wears(text::strings_view(m.badges@), "founder"@)))
        }) ==> filter_verdict(m, c) == FilterVerdict::Rejected(RejectionReason::RoleNotAllowed),
{
    let b = text::strings_view(m.badges@);
    lemma_has_badge_one(b, "broadcaster"@);
    lemma_has_badge_one(b, "moderator"@);
    lemma_has_badge_one(b, "vip"@);
    lemma_has_badge_two(b, "subscriber"@, "founder"@);
}

fn any_user_matches(users: &Vec<String>, login_lower: &String) -> (r: bool)
    ensures
        r == lists_user(text::strings_view(users@), login_lower@),
{
    let mut i: usize = 0;
    while i < users.len()
        invariant
            i <= users@.len(),
            forall|j: int| 0 <= j < i ==> text::lowercase(users@[j]@) != login_lower@,
        decreases users@.len() - i,
    {
        let lower = to_lowercase(users[i].as_str());
        if lower == *login_lower {
            assert(text::strings_view(users@)[i as int] == users@[i as int]@);
            return true;
        }
        i = i + 1;
    }
    proof {
        if lists_user(text::strings_view(users@), login_lower@) {
            let j = choose|j: int|
                0 <= j < users@.len() && text::lowercase(
                    #[trigger] text::strings_view(users@)[j],
                ) == login_lower@;
            assert(text::strings_view(users@)[j] == users@[j]@);
        }
    }
    false
}

fn any_word_mentioned(words: &Vec<String>, text_lower: &[char]) -> (r: bool)
    ensures
        r == mentions_word(text::strings_view(words@), text_lower@),
{
    let ghost wv = text::strings_view(words@);
    let mut i: usize = 0;
    while i < words.len()
        invariant
            i <= words@.len(),
            wv == text::strings_view(words@),
            forall|j: int|
                0 <= j < i ==> !((#[trigger] wv[j]).len() > 0 && text::contains_seq(
                    text_lower@,
                    text::lowercase(wv[j]),
                )),
        decreases words@.len() - i,
    {
        assert(wv[i as int] == words@[i as int]@);
        if !words[i].as_str().is_empty() {
            let lower = to_lowercase(words[i].as_str());
            let lower_chars = chars_of(lower.as_str());
            if contains_chars(text_lower, lower_chars.as_slice()) {
                return true;
            }
        }
        i = i + 1;
    }
    false
}

fn has_badge_named(badges: &Vec<String>, names: &Vec<Vec<char>>) -> (r: bool)
    ensures
        r == has_badge(
            text::strings_view(badges@),
            names@.map_values(|n: Vec<char>| n@),
        ),
{
    let ghost bv = text::strings_view(badges@);
    let ghost nv = names@.map_values(|n: Vec<char>| n@);
    let mut i: usize = 0;
    while i < badges.len()
        invariant
            i <= badges@.len(),
            bv == text::strings_view(badges@),
            nv == names@.map_values(|n: Vec<char>| n@),
            forall|a: int, b: int|
                0 <= a < i && 0 <= b < nv.len() ==> !text::eq_ignore_ascii_case(
                    #[trigger] bv[a],
                    #[trigger] nv[b],
                ),
        decreases badges@.len() - i,
    {
        let badge = chars_of(badges[i].as_str());
        assert(badge@ == bv[i as int]);
        let mut j: usize = 0;
        while j < names.len()
            invariant
                i < badges@.len(),
                j <= names@.len(),
                bv == text::strings_view(badges@),
                badge@ == bv[i as int],
                nv == names@.map_values(|n: Vec<char>| n@),
                forall|b: int| 0 <= b < j ==> !text::eq_ignore_ascii_case(bv[i as int], #[trigger] nv[b]),
            decreases names@.len() - j,
        {
            assert(nv[j as int] == names@[j as int]@);
            if eq_ignore_ascii_case_chars(badge.as_slice(), names[j].as_slice()) {
                assert(text::eq_ignore_ascii_case(bv[i as int], nv[j as int]));
                return true;
            }
            j = j + 1;
        }
        i = i + 1;
    }
    false
}

fn name_list1(a: &str) -> (r: Vec<Vec<char>>)
    ensures
        r@.map_values(|n: Vec<char>| n@) == seq![a@],
{
    let mut r: Vec<Vec<char>> = Vec::new();
    r.push(chars_of(a));
    assert(r@.map_values(|n: Vec<char>| n@) =~= seq![a@]);
    r
}

/// Content filters applied to each chat message.
pub struct FilterEngine;

impl FilterEngine {
    /// Verdict of the content filters on `message`.
    pub fn evaluate(message: &ChatMessage, config: &FiltersConfig) -> (v: FilterVerdict)
        ensures
            v == filter_verdict(*message, *config),
    {
        let login_lower = to_lowercase(message.username_login.as_str());
        if any_user_matches(&config.ignored_users, &login_lower) {
            return FilterVerdict::Rejected(RejectionReason::UserIgnored);
        }
        if !Self::role_allowed(message, config) {
            return FilterVerdict::Rejected(RejectionReason::RoleNotAllowed);
        }
        let len = message.text_for_tts.as_str().unicode_len();
        if len < config.min_length {
            return FilterVerdict::Rejected(RejectionReason::TooShort);
        }
        if config.max_length > 0 && len > config.max_length {
            return FilterVerdict::Rejected(RejectionReason::TooLong);
        }
        if config.ignore_emote_only_messages && message.is_emote_only {
            return FilterVerdict::Rejected(RejectionReason::EmoteOnly);
        }
        if config.ignore_links && message.text != message.text_for_tts {
            // the text held a link that `strip_urls` removed
            return FilterVerdict::Rejected(RejectionReason::ContainsLink);
        }
        let text_lower = to_lowercase(message.text.as_str());
        let text_lower_chars = chars_of(text_lower.as_str());
        if any_word_mentioned(&config.blacklist_words, text_lower_chars.as_slice()) {
            return FilterVerdict::Rejected(RejectionReason::Blacklisted);
        }
        if config.whitelist_mode_enabled && config.whitelist_words.len() > 0
            && !any_word_mentioned(&config.whitelist_words, text_lower_chars.as_slice()) {
            return FilterVerdict::Rejected(RejectionReason::NotWhitelisted);
        }
        FilterVerdict::Accepted
    }

    /// Role boxes are independent: the badge of each ticked role is looked
    /// for, rather than the single highest role, since a viewer may be VIP
    /// without being moderator and the other way round.
    pub fn role_allowed(message: &ChatMessage, config: &FiltersConfig) -> (b: bool)
        ensures
            b == role_allowed_spec(text::strings_view(message.badges@), config.roles),
    {
        let roles = &config.roles;
        let any_restriction_active = roles.subscribers_only || roles.vips_only
            || roles.moderators_only || roles.broadcaster_only;
        if !any_restriction_active {
            return true;
        }
        if roles.broadcaster_only && has_badge_named(&message.badges, &name_list1("broadcaster")) {
            return true;
        }
        if roles.moderators_only && has_badge_named(&message.badges, &name_list1("moderator")) {
            return true;
        }
        if roles.vips_only && has_badge_named(&message.badges, &name_list1("vip")) {
            return true;
        }
        if roles.subscribers_only {
            let mut names = name_list1("subscriber");
            let ghost before = names@;
            let founder = chars_of("founder");
            names.push(founder);
            assert(names@.map_values(|n: Vec<char>| n@) =~= before.map_values(|n: Vec<char>| n@).push(
                founder@,
            ));
            assert(names@.map_values(|n: Vec<char>| n@) =~= seq!["subscriber"@, "founder"@]);
            return has_badge_named(&message.badges, &names);
        }
        false
    }
}

} // verus!
