//! Parsing of raw IRC lines sent by `irc-ws.chat.twitch.tv`.
//!
//! Twitch extends IRCv3 with tags (`@badges=...;color=...;...`). Lines are
//! parsed by hand so that the Twitch-specific tags (badges, `display-name`,
//! `emote-only`, `id`, ...) stay under full control.

use vstd::prelude::*;
use crate::text;
use crate::text::{
    chars_eq, chars_of, find_seq, has_prefix, trim_chars, split_char, split_once_char, split_words, string_from_chars,
    trim_end_crlf_chars,
};

verus! {

/// Twitch role deduced from the badges of a message. A user may hold several
/// badges; the highest role is kept for filters and per-role voices.
/// Roles are ordered `Viewer < Subscriber < Vip < Moderator < Broadcaster`.
#[derive(Debug, Clone, Copy, PartialEq, Eq, Structural, PartialOrd, Ord, Hash)]
pub enum TwitchRole {
    Viewer,
    Subscriber,
    Vip,
    Moderator,
    Broadcaster,
}

/// Position of a role in the order `Viewer < Subscriber < Vip < Moderator < Broadcaster`.
pub open spec fn role_rank(r: TwitchRole) -> nat {
    match r {
        TwitchRole::Viewer => 0,
        TwitchRole::Subscriber => 1,
        TwitchRole::Vip => 2,
        TwitchRole::Moderator => 3,
        TwitchRole::Broadcaster => 4,
    }
}

/// Lower-case name of a role, as used for per-role voice assignments.
pub open spec fn role_name(r: TwitchRole) -> Seq<char> {
    match r {
        TwitchRole::Viewer => "viewer"@,
        TwitchRole::Subscriber => "subscriber"@,
        TwitchRole::Vip => "vip"@,
        TwitchRole::Moderator => "moderator"@,
        TwitchRole::Broadcaster => "broadcaster"@,
    }
}

/// The role a single badge name stands for.
pub open spec fn badge_role(name: Seq<char>) -> TwitchRole {
    if name == "broadcaster"@ {
        TwitchRole::Broadcaster
    } else if name == "moderator"@ {
        TwitchRole::Moderator
    } else if name == "vip"@ {
        TwitchRole::Vip
    } else if name == "subscriber"@ || name == "founder"@ {
        TwitchRole::Subscriber
    } else {
        TwitchRole::Viewer
    }
}

/// The higher of two roles.
pub open spec fn max_role(a: TwitchRole, b: TwitchRole) -> TwitchRole {
    if role_rank(b) > role_rank(a) {
        b
    } else {
        a
    }
}

/// Name part of a badge (`"subscriber/12"` -> `"subscriber"`).
pub open spec fn badge_name(piece: Seq<char>) -> Seq<char> {
    match text::split_once(piece, '/') {
        Some((name, _)) => name,
        None => piece,
    }
}

/// Highest role among the badges of a comma-separated list, `Viewer` if none.
pub open spec fn highest_role(pieces: Seq<Seq<char>>) -> TwitchRole
    decreases pieces.len(),
{
    if pieces.len() == 0 {
        TwitchRole::Viewer
    } else {
        max_role(highest_role(pieces.drop_last()), badge_role(badge_name(pieces.last())))
    }
}

/// Role carried by a raw `badges` tag such as `"broadcaster/1,subscriber/12"`.
pub open spec fn role_from_badges(raw: Seq<char>) -> TwitchRole {
    highest_role(text::split_pieces(raw, ','))
}

proof fn lemma_highest_role_prefix(s: Seq<Seq<char>>, k: int)
    requires
        0 <= k <= s.len(),
    ensures
        role_rank(highest_role(s.subrange(0, k))) <= role_rank(highest_role(s)),
    decreases s.len() - k,
{
    if k < s.len() {
        let t = s.drop_last();
        assert(t.subrange(0, k) =~= s.subrange(0, k));
        lemma_highest_role_prefix(t, k);
    } else {
        assert(s.subrange(0, k) =~= s);
    }
}

/// Every badge's role is at most the highest role, and the highest role is
/// `Viewer` or the role of one of the badges.
proof fn lemma_highest_role_is_max(s: Seq<Seq<char>>)
    ensures
        forall|i: int|
            0 <= i < s.len() ==> role_rank(badge_role(badge_name(#[trigger] s[i]))) <= role_rank(
                highest_role(s),
            ),
        highest_role(s) == TwitchRole::Viewer || exists|i: int|
            0 <= i < s.len() && badge_role(badge_name(#[trigger] s[i])) == highest_role(s),
    decreases s.len(),
{
    if s.len() > 0 {
        let t = s.drop_last();
        lemma_highest_role_is_max(t);
        assert forall|i: int| 0 <= i < s.len() implies role_rank(
            badge_role(badge_name(#[trigger] s[i])),
        ) <= role_rank(highest_role(s)) by {
            if i < s.len() - 1 {
                assert(s[i] == t[i]);
            }
        }
        if highest_role(s) != TwitchRole::Viewer {
            if highest_role(s) == badge_role(badge_name(s.last())) {
                assert(badge_role(badge_name(s[s.len() - 1])) == highest_role(s));
            } else {
                let i = choose|i: int|
                    0 <= i < t.len() && badge_role(badge_name(#[trigger] t[i])) == highest_role(t);
                assert(s[i] == t[i]);
            }
        }
    }
}

/// The role of a badge list is the highest role among its badges: no badge
/// outranks it, and it is `Viewer` or the role of one of the badges.
pub proof fn law_from_badges_is_highest(raw: Seq<char>)
    ensures
        forall|i: int|
            0 <= i < text::split_pieces(raw, ',').len() ==> role_rank(
                badge_role(badge_name(#[trigger] text::split_pieces(raw, ',')[i])),
            ) <= role_rank(role_from_badges(raw)),
        role_from_badges(raw) == TwitchRole::Viewer || exists|i: int|
            0 <= i < text::split_pieces(raw, ',').len() && badge_role(
                badge_name(#[trigger] text::split_pieces(raw, ',')[i]),
            ) == role_from_badges(raw),
{
    lemma_highest_role_is_max(text::split_pieces(raw, ','));
}

/// Some badge of a split badge list is named `name`.
pub open spec fn carries_badge(pieces: Seq<Seq<char>>, name: Seq<char>) -> bool {
    exists|i: int| 0 <= i < pieces.len() && badge_name(#[trigger] pieces[i]) == name
}

proof fn lemma_carries_badge_last(pieces: Seq<Seq<char>>, name: Seq<char>)
    requires
        pieces.len() > 0,
    ensures
        carries_badge(pieces, name) <==> (carries_badge(pieces.drop_last(), name) || badge_name(
            pieces.last(),
        ) == name),
{
    let d = pieces.drop_last();
    if carries_badge(pieces, name) {
        let i = choose|i: int| 0 <= i < pieces.len() && badge_name(#[trigger] pieces[i]) == name;
        if i < d.len() {
            assert(d[i] == pieces[i]);
        }
    }
    if carries_badge(d, name) {
        let i = choose|i: int| 0 <= i < d.len() && badge_name(#[trigger] d[i]) == name;
        assert(pieces[i] == d[i]);
    }
    if badge_name(pieces.last()) == name {
        assert(pieces[pieces.len() - 1] == pieces.last());
    }
}

proof fn lemma_highest_role_by_names(pieces: Seq<Seq<char>>)
    ensures
        highest_role(pieces) == (if carries_badge(pieces, "broadcaster"@) {
            TwitchRole::Broadcaster
        } else if carries_badge(pieces, "moderator"@) {
            TwitchRole::Moderator
        } else if carries_badge(pieces, "vip"@) {
            TwitchRole::Vip
        } else if carries_badge(pieces, "subscriber"@) || carries_badge(pieces, "founder"@) {
            TwitchRole::Subscriber
        } else {
            TwitchRole::Viewer
        }),
    decreases pieces.len(),
{
    reveal_strlit("broadcaster");
    reveal_strlit("moderator");
    reveal_strlit("vip");
    reveal_strlit("subscriber");
    reveal_strlit("founder");
    if pieces.len() > 0 {
        lemma_highest_role_by_names(pieces.drop_last());
        lemma_carries_badge_last(pieces, "broadcaster"@);
        lemma_carries_badge_last(pieces, "moderator"@);
        lemma_carries_badge_last(pieces, "vip"@);
        lemma_carries_badge_last(pieces, "subscriber"@);
        lemma_carries_badge_last(pieces, "founder"@);
    }
}

/// The role of a raw `badges` tag in terms of the badge names it lists
/// (the part before `/`): `Broadcaster` when one badge is `broadcaster`;
/// else `Moderator` when one is `moderator`; else `Vip` when one is `vip`;
/// else `Subscriber` when one is `subscriber` or `founder` (a founder is
/// one of the first subscribers of a channel); else `Viewer`.
pub proof fn law_role_from_badge_names(raw: Seq<char>)
    ensures
        role_from_badges(raw) == (if carries_badge(text::split_pieces(raw, ','), "broadcaster"@) {
            TwitchRole::Broadcaster
        } else if carries_badge(text::split_pieces(raw, ','), "moderator"@) {
            TwitchRole::Moderator
        } else if carries_badge(text::split_pieces(raw, ','), "vip"@) {
            TwitchRole::Vip
        } else if carries_badge(text::split_pieces(raw, ','), "subscriber"@) || carries_badge(
            text::split_pieces(raw, ','),
            "founder"@,
        ) {
            TwitchRole::Subscriber
        } else {
            TwitchRole::Viewer
        }),
{
    lemma_highest_role_by_names(text::split_pieces(raw, ','));
}

/// The name of each role is the key its per-role voice is stored under in
/// the settings: `viewer`, `subscriber`, `vip`, `moderator` and
/// `broadcaster`. No two roles share a name, and a badge carrying the name
/// of a role other than `Viewer` gives that role.
pub proof fn law_role_names(r1: TwitchRole, r2: TwitchRole)
    ensures
        role_name(TwitchRole::Viewer) == "viewer"@,
        role_name(TwitchRole::Subscriber) == "subscriber"@,
        role_name(TwitchRole::Vip) == "vip"@,
        role_name(TwitchRole::Moderator) == "moderator"@,
        role_name(TwitchRole::Broadcaster) == "broadcaster"@,
        r1 != r2 ==> role_name(r1) != role_name(r2),
        r1 != TwitchRole::Viewer ==> badge_role(role_name(r1)) == r1,
{
    reveal_strlit("viewer");
    reveal_strlit("broadcaster");
    reveal_strlit("moderator");
    reveal_strlit("vip");
    reveal_strlit("subscriber");
    reveal_strlit("founder");
    assert("viewer"@.len() == 6);
    assert("subscriber"@.len() == 10);
    assert("vip"@.len() == 3);
    assert("moderator"@.len() == 9);
    assert("broadcaster"@.len() == 11);
    assert("founder"@.len() == 7);
}

fn badge_name_of<'a>(piece: &'a [char]) -> (r: &'a [char])
    ensures
        r@ == badge_name(piece@),
{
    match split_once_char(piece, '/') {
        Some((name, _)) => name,
        None => piece,
    }
}

fn badge_role_of(name: &[char]) -> (r: TwitchRole)
    ensures
        r == badge_role(name@),
{
    if chars_eq(name, chars_of("broadcaster").as_slice()) {
        TwitchRole::Broadcaster
    } else if chars_eq(name, chars_of("moderator").as_slice()) {
        TwitchRole::Moderator
    } else if chars_eq(name, chars_of("vip").as_slice()) {
        TwitchRole::Vip
    } else if chars_eq(name, chars_of("subscriber").as_slice()) || chars_eq(
        name,
        chars_of("founder").as_slice(),
    ) {
        TwitchRole::Subscriber
    } else {
        TwitchRole::Viewer
    }
}

impl TwitchRole {
    /// Position in the order `Viewer < Subscriber < Vip < Moderator < Broadcaster`.
    pub fn rank(&self) -> (n: u8)
        ensures
            n == role_rank(*self),
    {
        match self {
            TwitchRole::Viewer => 0,
            TwitchRole::Subscriber => 1,
            TwitchRole::Vip => 2,
            TwitchRole::Moderator => 3,
            TwitchRole::Broadcaster => 4,
        }
    }

    /// Highest role found in the raw `badges` tag
    /// (e.g. `"broadcaster/1,subscriber/12,premium/1"`).
    pub fn from_badges(badges_raw: &str) -> (r: TwitchRole)
        ensures
            r == role_from_badges(badges_raw@),
    {
        let chars = chars_of(badges_raw);
        let pieces = split_char(chars.as_slice(), ',');
        let ghost pv = pieces@.map_values(|p: &[char]| p@);
        let mut role = TwitchRole::Viewer;
        let mut i: usize = 0;
        while i < pieces.len()
            invariant
                i <= pieces@.len(),
                pv == pieces@.map_values(|p: &[char]| p@),
                pv == text::split_pieces(badges_raw@, ','),
                role == highest_role(pv.subrange(0, i as int)),
            decreases pieces@.len() - i,
        {
            let name = badge_name_of(pieces[i]);
            let b = badge_role_of(name);
            proof {
                assert(pv.subrange(0, i + 1).drop_last() =~= pv.subrange(0, i as int));
                assert(pv.subrange(0, i + 1).last() == pv[i as int]);
            }
            if b.rank() == 4 {
                proof {
                    lemma_highest_role_prefix(pv, i + 1);
                    assert(pv.subrange(0, pv.len() as int) =~= pv);
                }
                return TwitchRole::Broadcaster;
            }
            if b.rank() > role.rank() {
                role = b;
            }
            i = i + 1;
        }
        assert(pv.subrange(0, pv.len() as int) =~= pv);
        role
    }

    /// Lower-case name of the role.
    pub fn as_str(&self) -> (s: &'static str)
        ensures
            s@ == role_name(*self),
    {
        match self {
            TwitchRole::Viewer => "viewer",
            TwitchRole::Subscriber => "subscriber",
            TwitchRole::Vip => "vip",
            TwitchRole::Moderator => "moderator",
            TwitchRole::Broadcaster => "broadcaster",
        }
    }
}


// ---------------------------------------------------------------------------
// Raw IRC lines
// ---------------------------------------------------------------------------

/// An IRC line split into tags, command and parameters, before any
/// interpretation. Tags are kept in the order they appear; a key given twice
/// is looked up as its last occurrence.
pub struct RawIrcLine {
    pub tags: Vec<(String, String)>,
    pub command: String,
    pub params: Vec<String>,
}

/// Mathematical model of a raw IRC line.
pub struct RawLineModel {
    pub tags: Seq<(Seq<char>, Seq<char>)>,
    pub command: Seq<char>,
    pub params: Seq<Seq<char>>,
}

impl RawIrcLine {
    pub open spec fn model(&self) -> RawLineModel {
        RawLineModel {
            tags: text::pairs_view(self.tags@),
            command: self.command@,
            params: text::strings_view(self.params@),
        }
    }
}

/// `key=value` pairs of a tag section, pieces without `=` skipped.
pub open spec fn tag_pairs(pieces: Seq<Seq<char>>) -> Seq<(Seq<char>, Seq<char>)>
    decreases pieces.len(),
{
    if pieces.len() == 0 {
        seq![]
    } else {
        let rest = tag_pairs(pieces.drop_last());
        match text::split_once(pieces.last(), '=') {
            Some(kv) => rest.push(kv),
            None => rest,
        }
    }
}

/// Tags of a line starting with `@`, and what follows the tag section.
/// `None` when the tag section is not followed by a space.
pub open spec fn split_tag_section(s: Seq<char>) -> Option<(Seq<(Seq<char>, Seq<char>)>, Seq<char>)> {
    if s.len() > 0 && s[0] == '@' {
        match text::split_once(s.drop_first(), ' ') {
            Some((tag_part, rem)) => Some((tag_pairs(text::split_pieces(tag_part, ';')), rem)),
            None => None,
        }
    } else {
        Some((seq![], s))
    }
}

/// A leading `:nick!user@host` source is dropped up to the first space.
pub open spec fn skip_source(s: Seq<char>) -> Seq<char> {
    if s.len() > 0 && s[0] == ':' {
        match text::split_once(s, ' ') {
            Some((_, rem)) => rem,
            None => s,
        }
    } else {
        s
    }
}

/// The separator of the trailing parameter.
pub open spec fn trailing_sep() -> Seq<char> {
    seq![' ', ':']
}

/// Command and parameters of a line body (after tags and source).
pub open spec fn parse_body(tags: Seq<(Seq<char>, Seq<char>)>, body: Seq<char>) -> Option<RawLineModel> {
    let head = match text::first_occurrence(body, trailing_sep()) {
        Some(i) => body.subrange(0, i),
        None => body,
    };
    let ws = text::words(head);
    if ws.len() == 0 {
        None
    } else {
        let middle = ws.drop_first();
        Some(
            RawLineModel {
                tags,
                command: ws[0],
                params: match text::first_occurrence(body, trailing_sep()) {
                    Some(i) => middle.push(body.subrange(i + 2, body.len() as int)),
                    None => middle,
                },
            },
        )
    }
}

/// Parse of one IRC line: trailing `\r`/`\n` dropped, optional `@tags`,
/// optional `:source`, then the command, its middle parameters and an
/// optional trailing parameter after `" :"`. `None` when there is no command.
pub open spec fn parse_raw_spec(line: Seq<char>) -> Option<RawLineModel> {
    match split_tag_section(text::trim_end_crlf(line)) {
        None => None,
        Some((tags, rest)) => parse_body(tags, skip_source(rest)),
    }
}

/// Value of tag `key`: the last pair with that key.
pub open spec fn tag_lookup(tags: Seq<(Seq<char>, Seq<char>)>, key: Seq<char>) -> Option<Seq<char>> {
    text::lookup_last(tags, key)
}

fn parse_tag_pairs(tag_part: &[char]) -> (r: Vec<(String, String)>)
    ensures
        text::pairs_view(r@) == tag_pairs(text::split_pieces(tag_part@, ';')),
{
    let pieces = split_char(tag_part, ';');
    let ghost pv = pieces@.map_values(|p: &[char]| p@);
    let mut r: Vec<(String, String)> = Vec::new();
    let mut i: usize = 0;
    while i < pieces.len()
        invariant
            i <= pieces@.len(),
            pv == pieces@.map_values(|p: &[char]| p@),
            pv == text::split_pieces(tag_part@, ';'),
            text::pairs_view(r@) == tag_pairs(pv.subrange(0, i as int)),
        decreases pieces@.len() - i,
    {
        proof {
            assert(pv.subrange(0, i + 1).drop_last() =~= pv.subrange(0, i as int));
            assert(pv.subrange(0, i + 1).last() == pv[i as int]);
        }
        match split_once_char(pieces[i], '=') {
            Some((k, v)) => {
                let ghost before = r@;
                r.push((string_from_chars(k), string_from_chars(v)));
                assert(text::pairs_view(r@) =~= text::pairs_view(before).push((k@, v@)));
            },
            None => {},
        }
        i = i + 1;
    }
    assert(pv.subrange(0, pv.len() as int) =~= pv);
    r
}

fn skip_source_chars<'a>(s: &'a [char]) -> (r: &'a [char])
    ensures
        r@ == skip_source(s@),
{
    if s.len() > 0 && s[0] == ':' {
        match split_once_char(s, ' ') {
            Some((_, rem)) => rem,
            None => s,
        }
    } else {
        s
    }
}

fn parse_body_chars(tags: Vec<(String, String)>, body: &[char]) -> (r: Option<RawIrcLine>)
    ensures
        match r {
            Some(raw) => parse_body(text::pairs_view(tags@), body@) == Some(raw.model()),
            None => parse_body(text::pairs_view(tags@), body@) is None,
        },
{
    let sep = vec![' ', ':'];
    assert(sep@ == trailing_sep());
    let found = find_seq(body, sep.as_slice());
    let n = body.len();
    let head: &[char] = match found {
        Some(i) => {
            proof {
                let k = choose|k: int| text::is_first_occurrence(body@, trailing_sep(), k);
                assert(text::occurs_at(body@, trailing_sep(), k));
            }
            &body[0..i]
        },
        None => body,
    };
    let ws = split_words(head);
    let ghost wv = ws@.map_values(|p: &[char]| p@);
    if ws.len() == 0 {
        return None;
    }
    let command = string_from_chars(ws[0]);
    let mut params: Vec<String> = Vec::new();
    let mut k: usize = 1;
    while k < ws.len()
        invariant
            1 <= k <= ws@.len(),
            wv == ws@.map_values(|p: &[char]| p@),
            text::strings_view(params@) == wv.drop_first().subrange(0, k - 1),
        decreases ws@.len() - k,
    {
        let ghost before = params@;
        let piece = string_from_chars(ws[k]);
        params.push(piece);
        assert(piece@ == wv[k as int]);
        assert(text::strings_view(params@) =~= text::strings_view(before).push(wv[k as int]));
        assert(wv.drop_first().subrange(0, k as int) =~= wv.drop_first().subrange(0, k - 1).push(
            wv[k as int],
        ));
        k = k + 1;
    }
    assert(wv.drop_first().subrange(0, ws@.len() - 1) =~= wv.drop_first());
    match found {
        Some(i) => {
            let ghost before = params@;
            params.push(string_from_chars(&body[i + 2..n]));
            assert(text::strings_view(params@) =~= text::strings_view(before).push(body@.subrange(i + 2, n as int)));
        },
        None => {},
    }
    let raw = RawIrcLine { tags, command, params };
    assert(raw.model().params =~= parse_body(text::pairs_view(tags@), body@)->0.params);
    Some(raw)
}

/// Splits an IRC line into tags, command and parameters.
pub fn parse_raw_line(line: &str) -> (r: Option<RawIrcLine>)
    ensures
        match r {
            Some(raw) => parse_raw_spec(line@) == Some(raw.model()),
            None => parse_raw_spec(line@) is None,
        },
{
    let all = chars_of(line);
    let rest0 = trim_end_crlf_chars(all.as_slice());
    let n = rest0.len();
    if n > 0 && rest0[0] == '@' {
        let stripped = &rest0[1..n];
        assert(stripped@ =~= rest0@.drop_first());
        match split_once_char(stripped, ' ') {
            None => None,
            Some((tag_part, rem)) => {
                let tags = parse_tag_pairs(tag_part);
                parse_body_chars(tags, skip_source_chars(rem))
            },
        }
    } else {
        let tags: Vec<(String, String)> = Vec::new();
        assert(text::pairs_view(tags@) =~= Seq::<(Seq<char>, Seq<char>)>::empty());
        parse_body_chars(tags, skip_source_chars(rest0))
    }
}

impl RawIrcLine {
    /// Value of the tag `key` (its last occurrence).
    pub fn tag(&self, key: &str) -> (r: Option<&String>)
        ensures
            match r {
                Some(v) => tag_lookup(self.model().tags, key@) == Some(v@),
                None => tag_lookup(self.model().tags, key@) is None,
            },
    {
        crate::text::find_last_value(&self.tags, key)
    }
}


// ---------------------------------------------------------------------------
// Links
// ---------------------------------------------------------------------------

/// What replacing every match of the regular expression `pattern` in
/// `haystack` by `replacement` gives with the `regex` crate (`Regex::new`
/// followed by `replace_all`); `None` when `pattern` is not a valid regular
/// expression. Its definition is the regex engine itself.
pub uninterp spec fn regex_replaced(
    pattern: Seq<char>,
    haystack: Seq<char>,
    replacement: Seq<char>,
) -> Option<Seq<char>>;

/// Calls `regex::Regex::new(pattern)` and, when it compiles,
/// `Regex::replace_all(haystack, replacement)`. Claimed: the result is
/// `regex_replaced` of the three arguments; and, as `replace_all`
/// documents ("if no match is found, then the haystack is returned
/// unchanged"), a link pattern applied to a text without `://`, which no
/// match of it can lack, gives the text back.
#[verifier::external_body]
fn regex_replace_all(pattern: &str, haystack: &str, replacement: &str) -> (r: Option<String>)
    ensures
        match r {
            Some(out) => {
                &&& regex_replaced(pattern@, haystack@, replacement@) == Some(out@)
                &&& pattern@ == url_pattern() && !text::contains_seq(haystack@, "://"@) ==> out@
                    == haystack@
            },
            None => {
                &&& regex_replaced(pattern@, haystack@, replacement@) is None
                &&& !(pattern@ == url_pattern() && !text::contains_seq(haystack@, "://"@))
            },
        },
{
    match regex::Regex::new(pattern) {
        Ok(re) => Some(re.replace_all(haystack, replacement).into_owned()),
        Err(_) => None,
    }
}

/// The pattern of an `http`/`https` link, with the spaces that follow it,
/// so that removing a link leaves a single gap.
pub open spec fn url_pattern() -> Seq<char> {
    "https?://\\S+\\s*"@
}

/// Text of a chat message with its links removed, as read aloud: the text
/// without the matches of [`url_pattern`], trimmed.
pub open spec fn strip_urls_spec(s: Seq<char>) -> Seq<char> {
    match regex_replaced(url_pattern(), s, ""@) {
        Some(removed) => text::trim(removed),
        None => text::trim(s),
    }
}

fn trimmed_string(s: &str) -> (r: String)
    ensures
        r@ == text::trim(s@),
{
    let cs = chars_of(s);
    string_from_chars(trim_chars(cs.as_slice()))
}

/// Removes `http`/`https` links, and the spaces that follow each, from a
/// text, then trims it (used by the "ignore links" filter and to clean the
/// text sent to the speech engine). A text without a link is only trimmed:
/// its own spacing is kept.
pub fn strip_urls(text: &str) -> (r: String)
    ensures
        r@ == strip_urls_spec(text@),
        !text::contains_seq(text@, "://"@) ==> r@ == text::trim(text@),
        text::trim(r@) == r@,
{
    let r = match regex_replace_all("https?://\\S+\\s*", text, "") {
        Some(removed) => trimmed_string(removed.as_str()),
        None => trimmed_string(text),
    };
    proof {
        match regex_replaced(url_pattern(), text@, ""@) {
            Some(removed) => text::lemma_trim_idempotent(removed),
            None => text::lemma_trim_idempotent(text@),
        }
    }
    r
}

// ---------------------------------------------------------------------------
// Chat messages
// ---------------------------------------------------------------------------

/// A fully decoded chat message, ready to be filtered, queued for speech and
/// shown in the interface.
#[derive(Debug, Clone)]
pub struct ChatMessage {
    pub id: String,
    pub channel: String,
    pub username_login: String,
    pub display_name: String,
    pub color: Option<String>,
    pub role: TwitchRole,
    pub badges: Vec<String>,
    pub text: String,
    /// Text without links, for the speech engine.
    pub text_for_tts: String,
    pub is_emote_only: bool,
    /// `/me` message.
    pub is_action: bool,
    pub timestamp_ms: i64,
}

pub open spec fn is_privmsg(raw: RawLineModel) -> bool {
    raw.command == "PRIVMSG"@ && raw.params.len() > 0
}

/// Marker that opens a `/me` action message.
pub open spec fn action_prefix() -> Seq<char> {
    seq!['\u{1}', 'A', 'C', 'T', 'I', 'O', 'N', ' ']
}

/// Body of a `/me` message (`\u{1}ACTION ...\u{1}`), `None` for a plain message.
pub open spec fn action_body(t: Seq<char>) -> Option<Seq<char>> {
    if text::starts_with(t, action_prefix()) {
        let u = t.subrange(8, t.len() as int);
        if u.len() > 0 && u.last() == '\u{1}' {
            Some(u.drop_last())
        } else {
            None
        }
    } else {
        None
    }
}

pub open spec fn message_text(raw: RawLineModel) -> Seq<char> {
    match action_body(raw.params.last()) {
        Some(b) => b,
        None => raw.params.last(),
    }
}

pub open spec fn badges_tag(raw: RawLineModel) -> Seq<char> {
    match tag_lookup(raw.tags, "badges"@) {
        Some(b) => b,
        None => seq![],
    }
}

/// Badge names of a comma-separated list, empty pieces skipped.
pub open spec fn badge_names(pieces: Seq<Seq<char>>) -> Seq<Seq<char>>
    decreases pieces.len(),
{
    if pieces.len() == 0 {
        seq![]
    } else {
        let rest = badge_names(pieces.drop_last());
        if pieces.last().len() > 0 {
            rest.push(badge_name(pieces.last()))
        } else {
            rest
        }
    }
}

/// `display-name` tag when present and not empty, else the channel name.
pub open spec fn display_name_of(raw: RawLineModel, channel_hint: Seq<char>) -> Seq<char> {
    match tag_lookup(raw.tags, "display-name"@) {
        Some(d) => if d.len() > 0 {
            d
        } else {
            channel_hint
        },
        None => channel_hint,
    }
}

/// `color` tag when present and not empty.
pub open spec fn color_of(raw: RawLineModel) -> Option<Seq<char>> {
    match tag_lookup(raw.tags, "color"@) {
        Some(c) => if c.len() > 0 {
            Some(c)
        } else {
            None
        },
        None => None,
    }
}

/// Every field of `m` is what the `PRIVMSG` line `raw` received on
/// `channel_hint` gives, except `id` when the line has no `id` tag and the
/// reception time `timestamp_ms`.
pub open spec fn message_matches(m: ChatMessage, raw: RawLineModel, channel_hint: Seq<char>) -> bool {
    &&& m.channel@ == channel_hint
    &&& m.display_name@ == display_name_of(raw, channel_hint)
    &&& m.username_login@ == text::lowercase(display_name_of(raw, channel_hint))
    &&& match m.color {
        Some(c) => color_of(raw) == Some(c@),
        None => color_of(raw) is None,
    }
    &&& m.role == role_from_badges(badges_tag(raw))
    &&& text::strings_view(m.badges@) == badge_names(text::split_pieces(badges_tag(raw), ','))
    &&& m.text@ == message_text(raw)
    &&& m.text_for_tts@ == strip_urls_spec(message_text(raw))
    &&& m.is_emote_only == (tag_lookup(raw.tags, "emote-only"@) == Some("1"@))
    &&& m.is_action == (action_body(raw.params.last()) is Some)
    &&& (tag_lookup(raw.tags, "id"@) matches Some(id) ==> m.id@ == id)
}

fn badge_name_list(badges_raw: &[char]) -> (r: Vec<String>)
    ensures
        text::strings_view(r@) == badge_names(text::split_pieces(badges_raw@, ',')),
{
    let pieces = split_char(badges_raw, ',');
    let ghost pv = pieces@.map_values(|p: &[char]| p@);
    let mut r: Vec<String> = Vec::new();
    let mut i: usize = 0;
    while i < pieces.len()
        invariant
            i <= pieces@.len(),
            pv == pieces@.map_values(|p: &[char]| p@),
            pv == text::split_pieces(badges_raw@, ','),
            text::strings_view(r@) == badge_names(pv.subrange(0, i as int)),
        decreases pieces@.len() - i,
    {
        proof {
            assert(pv.subrange(0, i + 1).drop_last() =~= pv.subrange(0, i as int));
            assert(pv.subrange(0, i + 1).last() == pv[i as int]);
        }
        if pieces[i].len() > 0 {
            let ghost before = r@;
            let name = string_from_chars(badge_name_of(pieces[i]));
            r.push(name);
            assert(text::strings_view(r@) =~= text::strings_view(before).push(name@));
        }
        i = i + 1;
    }
    assert(pv.subrange(0, pv.len() as int) =~= pv);
    r
}

fn action_body_chars(t: &[char]) -> (r: Option<&[char]>)
    ensures
        match r {
            Some(b) => action_body(t@) == Some(b@),
            None => action_body(t@) is None,
        },
{
    let prefix = vec!['\u{1}', 'A', 'C', 'T', 'I', 'O', 'N', ' '];
    assert(prefix@ == action_prefix());
    if has_prefix(t, prefix.as_slice()) {
        let n = t.len();
        let u = &t[8..n];
        let m = u.len();
        if m > 0 && u[m - 1] == '\u{1}' {
            assert(u@.subrange(0, m - 1) =~= u@.drop_last());
            return Some(&u[0..m - 1]);
        }
    }
    None
}

fn is_literal(s: &String, lit: &str) -> (r: bool)
    ensures
        r == (s@ == lit@),
{
    let a = chars_of(s.as_str());
    let b = chars_of(lit);
    chars_eq(a.as_slice(), b.as_slice())
}

/// Calls `uuid::Uuid::new_v4()` and formats it. Random: nothing is claimed
/// of the value but its hyphenated length of 36 characters.
#[verifier::external_body]
fn new_message_id() -> (r: String)
    ensures
        r@.len() == 36,
{
    uuid::Uuid::new_v4().to_string()
}

/// Calls `chrono::Utc::now().timestamp_millis()`: the current time, about
/// which nothing is claimed.
#[verifier::external_body]
fn now_unix_millis() -> (r: i64) {
    chrono::Utc::now().timestamp_millis()
}

/// Builds the chat message carried by a parsed `PRIVMSG` line, with
/// `fallback_id` as identifier when the line has no `id` tag and
/// `timestamp_ms` as reception time. `None` for any other command.
pub fn chat_message_from_raw(
    raw: &RawIrcLine,
    channel_hint: &str,
    fallback_id: String,
    timestamp_ms: i64,
) -> (r: Option<ChatMessage>)
    ensures
        r is Some <==> is_privmsg(raw.model()),
        r matches Some(m) ==> {
            &&& message_matches(m, raw.model(), channel_hint@)
            &&& (tag_lookup(raw.model().tags, "id"@) is None ==> m.id@ == fallback_id@)
            &&& m.timestamp_ms == timestamp_ms
        },
{
    let ghost model = raw.model();
    if !is_literal(&raw.command, "PRIVMSG") || raw.params.len() == 0 {
        return None;
    }
    let last = raw.params.len() - 1;
    let text_raw = chars_of(raw.params[last].as_str());
    assert(text_raw@ == model.params.last());
    let (is_action, text) = match action_body_chars(text_raw.as_slice()) {
        Some(inner) => (true, string_from_chars(inner)),
        None => (false, string_from_chars(text_raw.as_slice())),
    };
    let badges_raw: Vec<char> = match raw.tag("badges") {
        Some(b) => chars_of(b.as_str()),
        None => Vec::new(),
    };
    assert(badges_raw@ == badges_tag(model));
    let role = TwitchRole::from_badges(string_from_chars(badges_raw.as_slice()).as_str());
    let badges = badge_name_list(badges_raw.as_slice());
    let display_name = match raw.tag("display-name") {
        Some(d) => if !d.as_str().is_empty() {
            d.clone()
        } else {
            channel_hint.to_owned()
        },
        None => channel_hint.to_owned(),
    };
    let username_login = crate::text::to_lowercase(display_name.as_str());
    let is_emote_only = match raw.tag("emote-only") {
        Some(v) => is_literal(v, "1"),
        None => false,
    };
    let id = match raw.tag("id") {
        Some(v) => v.clone(),
        None => fallback_id,
    };
    let color = match raw.tag("color") {
        Some(c) => if !c.as_str().is_empty() {
            Some(c.clone())
        } else {
            None
        },
        None => None,
    };
    let text_for_tts = strip_urls(text.as_str());
    Some(
        ChatMessage {
            id,
            channel: channel_hint.to_owned(),
            username_login,
            display_name,
            color,
            role,
            badges,
            text,
            text_for_tts,
            is_emote_only,
            is_action,
            timestamp_ms,
        },
    )
}

/// Decodes a `PRIVMSG` line into a [`ChatMessage`]; `None` for any other
/// line (PING, JOIN, NOTICE, ...). The identifier is the `id` tag, or a fresh
/// random identifier; the timestamp is the reception time.
pub fn try_parse_privmsg(line: &str, channel_hint: &str) -> (r: Option<ChatMessage>)
    ensures
        r is Some <==> (parse_raw_spec(line@) matches Some(raw) && is_privmsg(raw)),
        r matches Some(m) ==> message_matches(m, parse_raw_spec(line@)->0, channel_hint@),
        r matches Some(m) ==> (tag_lookup(parse_raw_spec(line@)->0.tags, "id"@) is None ==> m.id@.len()
            == 36),
{
    let raw = match parse_raw_line(line) {
        Some(raw) => raw,
        None => return None,
    };
    if !is_literal(&raw.command, "PRIVMSG") || raw.params.len() == 0 {
        return None;
    }
    let fallback_id = match raw.tag("id") {
        Some(v) => v.clone(),
        None => new_message_id(),
    };
    let timestamp_ms = now_unix_millis();
    chat_message_from_raw(&raw, channel_hint, fallback_id, timestamp_ms)
}

pub open spec fn ping_prefix() -> Seq<char> {
    seq!['P', 'I', 'N', 'G']
}

/// `true` when the line is a server `PING`, which must be answered by `PONG`.
pub fn is_ping(line: &str) -> (b: bool)
    ensures
        b == text::starts_with(line@, ping_prefix()),
{
    let cs = chars_of(line);
    let p = vec!['P', 'I', 'N', 'G'];
    assert(p@ == ping_prefix());
    has_prefix(cs.as_slice(), p.as_slice())
}

} // verus!
