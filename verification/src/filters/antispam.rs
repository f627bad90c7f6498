//! Spam protection: repetition detection, grouping of identical messages and
//! a global messages-per-minute limit.
//!
//! Unlike the content filters, which judge each message alone, the anti-spam
//! engine is a small state machine over the recent history: the acceptance
//! times of the last minute and, per user, the last normalized text with its
//! repetition count and the time it was last seen.

use vstd::prelude::*;
use crate::config::AntiSpamConfig;
use crate::text;
use crate::text::{chars_of, collapse_whitespace, string_from_chars, to_lowercase, trim_chars};
use std::collections::VecDeque;
use std::time::Instant;

verus! {

#[verifier::external_type_specification]
#[verifier::external_body]
pub struct ExInstant(Instant);

/// Calls `std::time::Instant::now()`.
#[verifier::external_body]
fn instant_now() -> (r: Instant) {
    Instant::now()
}

/// Calls `Instant::elapsed` on `origin` and `Duration::as_nanos` on the
/// result: the time since `origin`, about which nothing is claimed.
#[verifier::external_body]
fn nanos_since(origin: &Instant) -> (r: u128) {
    origin.elapsed().as_nanos()
}

/// What the anti-spam engine decides for one message.
#[derive(Debug, Clone, Copy, PartialEq, Eq, Structural)]
pub enum AntiSpamVerdict {
    /// The message is read normally.
    Allow,
    /// Recent duplicate: not read again, a counter ("x3") is shown instead.
    GroupedDuplicate { occurrence_count: u32 },
    /// Too many repetitions (likely spam or raid): not read at all.
    RepetitionThresholdExceeded,
    /// The messages-per-minute limit is reached.
    RateLimited,
}

/// Nanoseconds in one second.
pub open spec fn nanos_per_sec() -> int {
    1_000_000_000
}

/// Length of the rate-limit window: one minute, in nanoseconds.
pub open spec fn rate_window_ns() -> int {
    60 * nanos_per_sec()
}

/// Time from `then` to `now`, zero when `then` is later (as
/// `Instant::duration_since` saturates).
pub open spec fn elapsed_ns(now: u128, then: u128) -> int {
    if now >= then {
        now - then
    } else {
        0
    }
}

/// Text as compared for duplicates: trimmed, lower-cased, runs of
/// whitespace reduced to one space. The text read aloud is not changed.
pub open spec fn normalize_spec(t: Seq<char>) -> Seq<char> {
    text::collapse_ws(text::lowercase(text::trim(t)))
}

/// Acceptance times still inside the one-minute window at `now`: the oldest
/// ones are dropped while they are more than a minute old.
pub open spec fn expire(recent: Seq<u128>, now: u128) -> Seq<u128>
    decreases recent.len(),
{
    if recent.len() > 0 && elapsed_ns(now, recent[0]) > rate_window_ns() {
        expire(recent.drop_first(), now)
    } else {
        recent
    }
}

/// Mathematical state of the engine: acceptance times of the last minute
/// (oldest first) and, per user login, the last normalized text, its
/// repetition count and when it was last seen (nanoseconds).
pub struct AntiSpamModel {
    pub recent: Seq<u128>,
    pub users: Map<Seq<char>, (Seq<char>, u32, u128)>,
}

/// `count + 1`, staying at `u32::MAX`.
pub open spec fn count_after(count: u32) -> u32 {
    if count < u32::MAX {
        (count + 1) as u32
    } else {
        count
    }
}

/// One step of the engine: state and verdict after a message of `user` with
/// text `t` at time `now`.
pub open spec fn antispam_step(
    s: AntiSpamModel,
    user: Seq<char>,
    t: Seq<char>,
    c: AntiSpamConfig,
    now: u128,
) -> (AntiSpamModel, AntiSpamVerdict) {
    if !c.enabled {
        (s, AntiSpamVerdict::Allow)
    } else {
        let norm = normalize_spec(t);
        let window = c.duplicate_grouping_window_secs * nanos_per_sec();
        if s.users.contains_key(user) && s.users[user].0 == norm && elapsed_ns(now, s.users[user].2)
            <= window {
            let count = count_after(s.users[user].1);
            (
                AntiSpamModel { recent: s.recent, users: s.users.insert(user, (norm, count, now)) },
                if count >= c.repetition_threshold {
                    AntiSpamVerdict::RepetitionThresholdExceeded
                } else {
                    AntiSpamVerdict::GroupedDuplicate { occurrence_count: count }
                },
            )
        } else {
            let users = s.users.insert(user, (norm, 1, now));
            let recent = expire(s.recent, now);
            if recent.len() >= c.max_messages_per_minute {
                (AntiSpamModel { recent, users }, AntiSpamVerdict::RateLimited)
            } else {
                (AntiSpamModel { recent: recent.push(now), users }, AntiSpamVerdict::Allow)
            }
        }
    }
}

/// A user who sends the same text again (same once normalized) within the
/// grouping window after it was last seen is not read again: the second
/// message is grouped, or cut when the repetition threshold is reached.
pub proof fn law_duplicate_is_not_reread(
    s: AntiSpamModel,
    user: Seq<char>,
    first: Seq<char>,
    second: Seq<char>,
    c: AntiSpamConfig,
    t1: u128,
    t2: u128,
)
    requires
        c.enabled,
        normalize_spec(first) == normalize_spec(second),
        t1 <= t2,
        t2 - t1 <= c.duplicate_grouping_window_secs * nanos_per_sec(),
    ensures
        ({
            let v = antispam_step(antispam_step(s, user, first, c, t1).0, user, second, c, t2).1;
            v is GroupedDuplicate || v is RepetitionThresholdExceeded
        }),
{
    let s1 = antispam_step(s, user, first, c, t1).0;
    assert(s1.users.contains_key(user));
    assert(s1.users[user].0 == normalize_spec(first));
    assert(s1.users[user].2 == t1);
}

/// When the engine lets a message through, at most
/// `max_messages_per_minute` acceptances (this one included) remain in the
/// one-minute window, and a message it groups or rejects does not count.
pub proof fn law_rate_limit(s: AntiSpamModel, user: Seq<char>, t: Seq<char>, c: AntiSpamConfig, now: u128)
    requires
        c.enabled,
    ensures
        antispam_step(s, user, t, c, now).1 == AntiSpamVerdict::Allow ==> antispam_step(
            s,
            user,
            t,
            c,
            now,
        ).0.recent.len() <= c.max_messages_per_minute && antispam_step(s, user, t, c, now).0.recent.last()
            == now,
        antispam_step(s, user, t, c, now).1 != AntiSpamVerdict::Allow ==> antispam_step(
            s,
            user,
            t,
            c,
            now,
        ).0.recent.len() <= s.recent.len(),
{
    lemma_expire_shrinks(s.recent, now);
}

proof fn lemma_expire_shrinks(recent: Seq<u128>, now: u128)
    ensures
        expire(recent, now).len() <= recent.len(),
    decreases recent.len(),
{
    if recent.len() > 0 && elapsed_ns(now, recent[0]) > rate_window_ns() {
        lemma_expire_shrinks(recent.drop_first(), now);
    }
}

/// Acceptance times in time order, none later than `now`, at most `max`
/// of them.
pub open spec fn window_ok(recent: Seq<u128>, now: u128, max: u32) -> bool {
    &&& forall|i: int, j: int| 0 <= i < j < recent.len() ==> recent[i] <= recent[j]
    &&& forall|i: int| 0 <= i < recent.len() ==> recent[i] <= now
    &&& recent.len() <= max
}

proof fn lemma_expire_keeps_order(recent: Seq<u128>, now: u128)
    requires
        forall|i: int, j: int| 0 <= i < j < recent.len() ==> recent[i] <= recent[j],
        forall|i: int| 0 <= i < recent.len() ==> recent[i] <= now,
    ensures
        expire(recent, now).len() <= recent.len(),
        forall|i: int, j: int|
            0 <= i < j < expire(recent, now).len() ==> expire(recent, now)[i] <= expire(recent, now)[j],
        forall|i: int| 0 <= i < expire(recent, now).len() ==> expire(recent, now)[i] <= now,
        forall|i: int|
            0 <= i < expire(recent, now).len() ==> now - expire(recent, now)[i] <= rate_window_ns(),
    decreases recent.len(),
{
    if recent.len() > 0 && elapsed_ns(now, recent[0]) > rate_window_ns() {
        let d = recent.drop_first();
        assert forall|i: int, j: int| 0 <= i < j < d.len() implies d[i] <= d[j] by {
            assert(d[i] == recent[i + 1] && d[j] == recent[j + 1]);
        }
        assert forall|i: int| 0 <= i < d.len() implies d[i] <= now by {
            assert(d[i] == recent[i + 1]);
        }
        lemma_expire_keeps_order(d, now);
    } else if recent.len() > 0 {
        assert forall|i: int| 0 <= i < recent.len() implies now - recent[i] <= rate_window_ns() by {
            if i > 0 {
                assert(recent[0] <= recent[i]);
            }
        }
    }
}

/// Rate limit over time: when the acceptance times are in time order, no
/// later than the previous message's time `before`, and at most
/// `max_messages_per_minute`, a message at a time `now` not earlier than
/// `before` keeps them so; and after a message that reached the rate check
/// (let through or rate-limited, protection on), every kept acceptance lies within the last
/// minute. So, with the clock never going back, no more than
/// `max_messages_per_minute` messages are let through in any minute.
pub proof fn law_rate_window_kept(
    s: AntiSpamModel,
    user: Seq<char>,
    t: Seq<char>,
    c: AntiSpamConfig,
    before: u128,
    now: u128,
)
    requires
        window_ok(s.recent, before, c.max_messages_per_minute),
        before <= now,
    ensures
        window_ok(antispam_step(s, user, t, c, now).0.recent, now, c.max_messages_per_minute),
        c.enabled && (antispam_step(s, user, t, c, now).1 is Allow || antispam_step(s, user, t, c, now).1
            is RateLimited) ==> forall|i: int|
            0 <= i < antispam_step(s, user, t, c, now).0.recent.len() ==> now - antispam_step(
                s,
                user,
                t,
                c,
                now,
            ).0.recent[i] <= rate_window_ns(),
{
    lemma_expire_keeps_order(s.recent, now);
    let e = expire(s.recent, now);
    let r = antispam_step(s, user, t, c, now).0.recent;
    if c.enabled && r != s.recent {
        if r == e.push(now) {
            assert forall|i: int, j: int| 0 <= i < j < r.len() implies r[i] <= r[j] by {
                if j < e.len() {
                    assert(r[i] == e[i] && r[j] == e[j]);
                } else {
                    assert(r[i] == e[i]);
                }
            }
        }
    }
    let v = antispam_step(s, user, t, c, now).1;
    if c.enabled && (v is Allow || v is RateLimited) {
        assert forall|i: int| 0 <= i < r.len() implies now - r[i] <= rate_window_ns() by {
            if v is Allow {
                assert(r == e.push(now));
                if i < e.len() {
                    assert(r[i] == e[i]);
                }
            } else {
                assert(r == e);
            }
        }
    }
}

// ---------------------------------------------------------------------------
// Per-user table
// ---------------------------------------------------------------------------

struct UserRecord {
    login: String,
    text: String,
    count: u32,
    last_seen_ns: u128,
}

pub open spec fn record_view(r: (Seq<char>, Seq<char>, u32, u128)) -> (Seq<char>, u32, u128) {
    (r.1, r.2, r.3)
}

/// Map of a table of records.
pub open spec fn users_map(s: Seq<(Seq<char>, Seq<char>, u32, u128)>) -> Map<Seq<char>, (Seq<char>, u32, u128)>
    decreases s.len(),
{
    if s.len() == 0 {
        Map::empty()
    } else {
        users_map(s.drop_last()).insert(s.last().0, record_view(s.last()))
    }
}

pub open spec fn unique_logins(s: Seq<(Seq<char>, Seq<char>, u32, u128)>) -> bool {
    forall|i: int, j: int| 0 <= i < j < s.len() ==> (#[trigger] s[i]).0 != (#[trigger] s[j]).0
}

proof fn lemma_users_map_found(s: Seq<(Seq<char>, Seq<char>, u32, u128)>, i: int)
    requires
        unique_logins(s),
        0 <= i < s.len(),
    ensures
        users_map(s).contains_key(s[i].0),
        users_map(s)[s[i].0] == record_view(s[i]),
    decreases s.len(),
{
    if i < s.len() - 1 {
        let t = s.drop_last();
        assert(t[i] == s[i]);
        assert(s[i].0 != s[s.len() - 1].0);
        lemma_users_map_found(t, i);
    }
}

proof fn lemma_users_map_absent(s: Seq<(Seq<char>, Seq<char>, u32, u128)>, k: Seq<char>)
    requires
        forall|i: int| 0 <= i < s.len() ==> (#[trigger] s[i]).0 != k,
    ensures
        !users_map(s).contains_key(k),
    decreases s.len(),
{
    if s.len() > 0 {
        let t = s.drop_last();
        assert forall|i: int| 0 <= i < t.len() implies (#[trigger] t[i]).0 != k by {
            assert(t[i] == s[i]);
        }
        assert(s[s.len() - 1].0 != k);
        lemma_users_map_absent(t, k);
    }
}

proof fn lemma_users_map_update(
    s: Seq<(Seq<char>, Seq<char>, u32, u128)>,
    i: int,
    e: (Seq<char>, Seq<char>, u32, u128),
)
    requires
        unique_logins(s),
        0 <= i < s.len(),
        e.0 == s[i].0,
    ensures
        unique_logins(s.update(i, e)),
        users_map(s.update(i, e)) == users_map(s).insert(e.0, record_view(e)),
    decreases s.len(),
{
    let u = s.update(i, e);
    assert forall|a: int, b: int| 0 <= a < b < u.len() implies (#[trigger] u[a]).0 != (
    #[trigger] u[b]).0 by {
        assert(s[a].0 != s[b].0);
    }
    if i == s.len() - 1 {
        assert(u.drop_last() =~= s.drop_last());
        assert(users_map(u) =~= users_map(s).insert(e.0, record_view(e)));
    } else {
        let t = s.drop_last();
        assert(u.drop_last() =~= t.update(i, e));
        assert(t[i] == s[i]);
        assert(s[i].0 != s[s.len() - 1].0);
        lemma_users_map_update(t, i, e);
        assert(users_map(u) =~= users_map(s).insert(e.0, record_view(e)));
    }
}

proof fn lemma_users_map_push(s: Seq<(Seq<char>, Seq<char>, u32, u128)>, e: (Seq<char>, Seq<char>, u32, u128))
    requires
        unique_logins(s),
        forall|i: int| 0 <= i < s.len() ==> (#[trigger] s[i]).0 != e.0,
    ensures
        unique_logins(s.push(e)),
        users_map(s.push(e)) == users_map(s).insert(e.0, record_view(e)),
{
    let u = s.push(e);
    assert(u.drop_last() =~= s);
    assert forall|a: int, b: int| 0 <= a < b < u.len() implies (#[trigger] u[a]).0 != (
    #[trigger] u[b]).0 by {
        if b == s.len() {
            assert(u[a] == s[a]);
        } else {
            assert(s[a].0 != s[b].0);
        }
    }
}

/// Records seen at most `max_age` before `now`, in order.
pub open spec fn fresh_records(s: Seq<(Seq<char>, Seq<char>, u32, u128)>, now: u128, max_age: u128) -> Seq<(Seq<char>, Seq<char>, u32, u128)>
    decreases s.len(),
{
    if s.len() == 0 {
        seq![]
    } else if elapsed_ns(now, s.last().3) <= max_age {
        fresh_records(s.drop_last(), now, max_age).push(s.last())
    } else {
        fresh_records(s.drop_last(), now, max_age)
    }
}

/// Entries of `m` last seen at most `max_age` before `now`.
pub open spec fn fresh_users(m: Map<Seq<char>, (Seq<char>, u32, u128)>, now: u128, max_age: u128) -> Map<Seq<char>, (Seq<char>, u32, u128)> {
    Map::new(|k: Seq<char>| m.contains_key(k) && elapsed_ns(now, m[k].2) <= max_age, |k: Seq<char>| m[k])
}

proof fn lemma_fresh_records(s: Seq<(Seq<char>, Seq<char>, u32, u128)>, now: u128, max_age: u128)
    requires
        unique_logins(s),
    ensures
        unique_logins(fresh_records(s, now, max_age)),
        forall|i: int|
            0 <= i < fresh_records(s, now, max_age).len() ==> exists|j: int|
                0 <= j < s.len() && #[trigger] fresh_records(s, now, max_age)[i] == s[j],
        users_map(fresh_records(s, now, max_age)) == fresh_users(users_map(s), now, max_age),
    decreases s.len(),
{
    if s.len() > 0 {
        let t = s.drop_last();
        assert forall|a: int, b: int| 0 <= a < b < t.len() implies (#[trigger] t[a]).0 != (
        #[trigger] t[b]).0 by {
            assert(t[a] == s[a] && t[b] == s[b]);
        }
        lemma_fresh_records(t, now, max_age);
        let f = fresh_records(t, now, max_age);
        let e = s.last();
        assert forall|i: int| 0 <= i < f.len() implies (#[trigger] f[i]).0 != e.0 by {
            let j = choose|j: int| 0 <= j < t.len() && f[i] == t[j];
            assert(t[j] == s[j]);
            assert(s[j].0 != s[s.len() - 1].0);
        }
        lemma_users_map_absent(t, e.0);
        if elapsed_ns(now, e.3) <= max_age {
            lemma_users_map_push(f, e);
            let g = fresh_records(s, now, max_age);
            assert forall|i: int| 0 <= i < g.len() implies exists|j: int|
                0 <= j < s.len() && #[trigger] g[i] == s[j] by {
                if i < f.len() {
                    let j = choose|j: int| 0 <= j < t.len() && f[i] == t[j];
                    assert(g[i] == f[i]);
                    assert(s[j] == t[j]);
                } else {
                    assert(g[i] == s[s.len() - 1]);
                }
            }
        } else {
            let g = fresh_records(s, now, max_age);
            assert forall|i: int| 0 <= i < g.len() implies exists|j: int|
                0 <= j < s.len() && #[trigger] g[i] == s[j] by {
                let j = choose|j: int| 0 <= j < t.len() && f[i] == t[j];
                assert(s[j] == t[j]);
            }
        }
        assert(users_map(fresh_records(s, now, max_age)) =~= fresh_users(users_map(s), now, max_age));
    }
}

/// State after a history of messages, each a login, a text and the time
/// it was received, handed in order to the anti-spam step with the same
/// configuration.
pub open spec fn antispam_run(
    s: AntiSpamModel,
    history: Seq<(Seq<char>, Seq<char>, u128)>,
    c: AntiSpamConfig,
) -> AntiSpamModel
    decreases history.len(),
{
    if history.len() == 0 {
        s
    } else {
        let (user, t, now) = history.last();
        antispam_step(antispam_run(s, history.drop_last(), c), user, t, c, now).0
    }
}

/// Time of the last message of a history, `start` for an empty one.
pub open spec fn last_time(history: Seq<(Seq<char>, Seq<char>, u128)>, start: u128) -> u128 {
    if history.len() == 0 {
        start
    } else {
        history.last().2
    }
}

/// Rate limit over a whole history: from a state whose acceptance times
/// are in order, no later than `start` and at most
/// `max_messages_per_minute` (a fresh engine's empty list is such a state,
/// with any `start`), any history with the same configuration whose times
/// never go back and are not earlier than `start` ends with the kept
/// acceptance times in time order, none later than the last message, and
/// at most `max_messages_per_minute` of them. Every prefix of a history is a
/// history, so this holds after each message.
pub proof fn law_rate_window_over_history(
    s: AntiSpamModel,
    history: Seq<(Seq<char>, Seq<char>, u128)>,
    c: AntiSpamConfig,
    start: u128,
)
    requires
        window_ok(s.recent, start, c.max_messages_per_minute),
        forall|i: int| 0 <= i < history.len() ==> start <= #[trigger] history[i].2,
        forall|i: int, j: int| 0 <= i < j < history.len() ==> history[i].2 <= history[j].2,
    ensures
        window_ok(
            antispam_run(s, history, c).recent,
            last_time(history, start),
            c.max_messages_per_minute,
        ),
    decreases history.len(),
{
    if history.len() > 0 {
        let prefix = history.drop_last();
        assert forall|i: int| 0 <= i < prefix.len() implies start <= #[trigger] prefix[i].2 by {
            assert(prefix[i] == history[i]);
        }
        assert forall|i: int, j: int| 0 <= i < j < prefix.len() implies prefix[i].2 <= prefix[j].2 by {
            assert(prefix[i] == history[i] && prefix[j] == history[j]);
        }
        law_rate_window_over_history(s, prefix, c, start);
        let before = last_time(prefix, start);
        let (user, t, now) = history.last();
        assert(before <= now) by {
            if prefix.len() > 0 {
                assert(prefix.last() == history[prefix.len() - 1]);
            } else {
                assert(start <= history[0].2);
            }
        }
        law_rate_window_kept(antispam_run(s, prefix, c), user, t, c, before, now);
    }
}

/// Spam protection state.
pub struct AntiSpamEngine {
    origin: Instant,
    /// Acceptance times of the last minute, oldest first, in nanoseconds
    /// since `origin`.
    recent_accepted: VecDeque<u128>,
    /// Last normalized text per user, with its repetition count and time.
    last_message_by_user: Vec<UserRecord>,
    /// Latest time, in nanoseconds since `origin`, at which the clock was
    /// read for a message.
    clock_ns: u128,
}

spec fn records_view(v: Seq<UserRecord>) -> Seq<(Seq<char>, Seq<char>, u32, u128)> {
    v.map_values(|r: UserRecord| (r.login@, r.text@, r.count, r.last_seen_ns))
}

impl View for AntiSpamEngine {
    type V = AntiSpamModel;

    closed spec fn view(&self) -> AntiSpamModel {
        AntiSpamModel {
            recent: self.recent_accepted@,
            users: users_map(records_view(self.last_message_by_user@)),
        }
    }
}

fn normalize(t: &str) -> (r: Vec<char>)
    ensures
        r@ == normalize_spec(t@),
{
    let cs = chars_of(t);
    let trimmed = string_from_chars(trim_chars(cs.as_slice()));
    let lower = to_lowercase(trimmed.as_str());
    let lower_chars = chars_of(lower.as_str());
    let collapsed = collapse_whitespace(lower_chars.as_slice());
    chars_of(collapsed.as_str())
}

fn elapsed(now: u128, then: u128) -> (r: u128)
    ensures
        r == elapsed_ns(now, then),
{
    if now >= then {
        now - then
    } else {
        0
    }
}

impl AntiSpamEngine {
    /// Latest time (nanoseconds since the engine was created) at which the
    /// clock was read for a message; [`AntiSpamEngine::evaluate`] never
    /// reads a time earlier than it.
    pub closed spec fn clock(&self) -> u128 {
        self.clock_ns
    }

    #[verifier::type_invariant]
    spec fn inv(self) -> bool {
        &&& unique_logins(records_view(self.last_message_by_user@))
        &&& self.recent_accepted@.len() <= u32::MAX
    }

    /// A fresh engine: no history.
    pub fn new() -> (e: AntiSpamEngine)
        ensures
            e.clock() == 0,
            e@.recent.len() == 0,
            e@.users == Map::<Seq<char>, (Seq<char>, u32, u128)>::empty(),
    {
        let e = AntiSpamEngine {
            origin: instant_now(),
            recent_accepted: VecDeque::new(),
            last_message_by_user: Vec::new(),
            clock_ns: 0,
        };
        assert(records_view(e.last_message_by_user@) =~= Seq::<(Seq<char>, Seq<char>, u32, u128)>::empty());
        e
    }

    fn find_user(&self, user_login: &str) -> (r: Option<usize>)
        ensures
            match r {
                Some(i) => i < self.last_message_by_user@.len()
                    && self.last_message_by_user@[i as int].login@ == user_login@,
                None => forall|i: int|
                    0 <= i < self.last_message_by_user@.len()
                        ==> (#[trigger] self.last_message_by_user@[i]).login@ != user_login@,
            },
    {
        let key = user_login.to_owned();
        let mut i: usize = 0;
        while i < self.last_message_by_user.len()
            invariant
                i <= self.last_message_by_user@.len(),
                key@ == user_login@,
                forall|j: int| 0 <= j < i ==> (#[trigger] self.last_message_by_user@[j]).login@ != user_login@,
            decreases self.last_message_by_user@.len() - i,
        {
            if self.last_message_by_user[i].login == key {
                return Some(i);
            }
            i = i + 1;
        }
        None
    }

    /// Decision for a message of `user_login` with text `text` received at
    /// `now_ns` nanoseconds after the engine was created.
    pub fn evaluate_at(
        &mut self,
        user_login: &str,
        text: &str,
        config: &AntiSpamConfig,
        now_ns: u128,
    ) -> (v: AntiSpamVerdict)
        ensures
            (final(self)@, v) == antispam_step(old(self)@, user_login@, text@, *config, now_ns),
            final(self).clock() == old(self).clock(),
    {
        proof {
            use_type_invariant(&*self);
        }
        if !config.enabled {
            return AntiSpamVerdict::Allow;
        }
        let ghost s = self@;
        let ghost rv = records_view(self.last_message_by_user@);
        let normalized = normalize(text);
        let window: u128 = (config.duplicate_grouping_window_secs as u128) * 1_000_000_000;
        let found = self.find_user(user_login);
        let mut users: Vec<UserRecord> = Vec::new();
        std::mem::swap(&mut users, &mut self.last_message_by_user);
        assert(records_view(users@) == rv);
        match found {
            Some(i) => {
                proof {
                    lemma_users_map_found(rv, i as int);
                }
                let same_text = {
                    let stored = chars_of(users[i].text.as_str());
                    crate::text::chars_eq(stored.as_slice(), normalized.as_slice())
                };
                let recent_enough = elapsed(now_ns, users[i].last_seen_ns) <= window;
                if same_text && recent_enough {
                    let count = users[i].count.saturating_add(1);
                    let login = users[i].login.clone();
                    let stored_text = users[i].text.clone();
                    let rec = UserRecord { login, text: stored_text, count, last_seen_ns: now_ns };
                    proof {
                        lemma_users_map_update(rv, i as int, (rec.login@, rec.text@, count, now_ns));
                        assert(records_view(users@.update(i as int, rec)) =~= rv.update(
                            i as int,
                            (rec.login@, rec.text@, count, now_ns),
                        ));
                    }
                    users.set(i, rec);
                    self.last_message_by_user = users;
                    if count >= config.repetition_threshold {
                        return AntiSpamVerdict::RepetitionThresholdExceeded;
                    } else {
                        return AntiSpamVerdict::GroupedDuplicate { occurrence_count: count };
                    }
                }
                let rec = UserRecord {
                    login: user_login.to_owned(),
                    text: string_from_chars(normalized.as_slice()),
                    count: 1,
                    last_seen_ns: now_ns,
                };
                proof {
                    lemma_users_map_update(rv, i as int, (rec.login@, rec.text@, 1, now_ns));
                    assert(records_view(users@.update(i as int, rec)) =~= rv.update(
                        i as int,
                        (rec.login@, rec.text@, 1u32, now_ns),
                    ));
                }
                users.set(i, rec);
            },
            None => {
                proof {
                    lemma_users_map_absent(rv, user_login@);
                }
                let rec = UserRecord {
                    login: user_login.to_owned(),
                    text: string_from_chars(normalized.as_slice()),
                    count: 1,
                    last_seen_ns: now_ns,
                };
                proof {
                    lemma_users_map_push(rv, (rec.login@, rec.text@, 1, now_ns));
                    assert(records_view(users@.push(rec)) =~= rv.push(
                        (rec.login@, rec.text@, 1u32, now_ns),
                    ));
                }
                users.push(rec);
            },
        }
        self.last_message_by_user = users;
        assert(self@.users == s.users.insert(user_login@, (normalize_spec(text@), 1u32, now_ns)));
        // Global rate limit (messages per minute).
        let mut recent: VecDeque<u128> = VecDeque::new();
        std::mem::swap(&mut recent, &mut self.recent_accepted);
        loop
            invariant
                expire(recent@, now_ns) == expire(s.recent, now_ns),
                recent@.len() <= u32::MAX,
            ensures
                recent@ == expire(s.recent, now_ns),
                recent@.len() <= u32::MAX,
            decreases recent@.len(),
        {
            if recent.len() == 0 {
                break;
            }
            let front = recent[0];
            if elapsed(now_ns, front) > 60_000_000_000 {
                recent.pop_front();
            } else {
                break;
            }
        }
        if recent.len() as u32 >= config.max_messages_per_minute {
            self.recent_accepted = recent;
            return AntiSpamVerdict::RateLimited;
        }
        recent.push_back(now_ns);
        self.recent_accepted = recent;
        AntiSpamVerdict::Allow
    }

    /// Decision for a message of `user_login` with text `text` received now.
    /// The time used is the engine's clock, which never goes back (a
    /// reading earlier than the previous one, which `Instant` rules out,
    /// counts as the previous one); so the acceptances of the last minute
    /// stay in time order and within the per-minute limit.
    pub fn evaluate(&mut self, user_login: &str, text: &str, config: &AntiSpamConfig) -> (v: AntiSpamVerdict)
        ensures
            final(self).clock() >= old(self).clock(),
            (final(self)@, v) == antispam_step(old(self)@, user_login@, text@, *config, final(self).clock()),
            window_ok(old(self)@.recent, old(self).clock(), config.max_messages_per_minute) ==> window_ok(
                final(self)@.recent,
                final(self).clock(),
                config.max_messages_per_minute,
            ),
    {
        proof {
            use_type_invariant(&*self);
        }
        let read = nanos_since(&self.origin);
        let now = if read < self.clock_ns {
            self.clock_ns
        } else {
            read
        };
        self.clock_ns = now;
        let ghost before = self@;
        let v = self.evaluate_at(user_login, text, config, now);
        proof {
            if window_ok(old(self)@.recent, old(self).clock(), config.max_messages_per_minute) {
                law_rate_window_kept(before, user_login@, text@, *config, old(self).clock(), now);
            }
        }
        v
    }

    /// Forgets the users last seen more than `max_age_ns` nanoseconds before
    /// `now_ns` (bounds the memory on very busy channels).
    pub fn prune_stale_entries_at(&mut self, now_ns: u128, max_age_ns: u128)
        ensures
            final(self)@.recent == old(self)@.recent,
            final(self)@.users == fresh_users(old(self)@.users, now_ns, max_age_ns),
            final(self).clock() == old(self).clock(),
    {
        proof {
            use_type_invariant(&*self);
        }
        let ghost rv = records_view(self.last_message_by_user@);
        let mut kept: Vec<UserRecord> = Vec::new();
        let mut old_records: Vec<UserRecord> = Vec::new();
        std::mem::swap(&mut old_records, &mut self.last_message_by_user);
        assert(records_view(old_records@) == rv);
        let mut i: usize = 0;
        while i < old_records.len()
            invariant
                i <= old_records@.len(),
                records_view(old_records@) == rv,
                records_view(kept@) == fresh_records(rv.subrange(0, i as int), now_ns, max_age_ns),
            decreases old_records@.len() - i,
        {
            proof {
                assert(rv.subrange(0, i + 1).drop_last() =~= rv.subrange(0, i as int));
                assert(rv.subrange(0, i + 1).last() == rv[i as int]);
            }
            if elapsed(now_ns, old_records[i].last_seen_ns) <= max_age_ns {
                let ghost before = kept@;
                let rec = UserRecord {
                    login: old_records[i].login.clone(),
                    text: old_records[i].text.clone(),
                    count: old_records[i].count,
                    last_seen_ns: old_records[i].last_seen_ns,
                };
                kept.push(rec);
                assert(records_view(kept@) =~= records_view(before).push(rv[i as int]));
            }
            i = i + 1;
        }
        proof {
            assert(rv.subrange(0, rv.len() as int) =~= rv);
            lemma_fresh_records(rv, now_ns, max_age_ns);
        }
        self.last_message_by_user = kept;
    }

    /// Forgets the users last seen more than `max_age_ns` nanoseconds ago.
    /// "Now" is read on the engine's clock, as in
    /// [`AntiSpamEngine::evaluate`], so it is never earlier than the time of
    /// a message already seen.
    pub fn prune_stale_entries(&mut self, max_age_ns: u128)
        ensures
            final(self).clock() >= old(self).clock(),
            final(self)@.recent == old(self)@.recent,
            final(self)@.users == fresh_users(old(self)@.users, final(self).clock(), max_age_ns),
            forall|max: u32|
                window_ok(old(self)@.recent, old(self).clock(), max) ==> window_ok(
                    final(self)@.recent,
                    final(self).clock(),
                    max,
                ),
    {
        proof {
            use_type_invariant(&*self);
        }
        let read = nanos_since(&self.origin);
        let now = if read < self.clock_ns {
            self.clock_ns
        } else {
            read
        };
        self.clock_ns = now;
        self.prune_stale_entries_at(now, max_age_ns);
    }
}

impl Default for AntiSpamEngine {
    fn default() -> (e: Self)
        ensures
            e.clock() == 0,
            e@.recent.len() == 0,
            e@.users == Map::<Seq<char>, (Seq<char>, u32, u128)>::empty(),
    {
        AntiSpamEngine::new()
    }
}

} // verus!
