//! The central decision for each incoming chat message: content filters
//! first, then spam protection, and what is recorded in the history.

use vstd::prelude::*;
use crate::config::{AntiSpamConfig, FiltersConfig};
use crate::filters::antispam::{antispam_step, window_ok, AntiSpamEngine, AntiSpamModel, AntiSpamVerdict};
use crate::filters::rules::{filter_verdict, reason_name, FilterEngine, FilterVerdict, RejectionReason};
use crate::twitch::message::{role_name, ChatMessage};

verus! {

/// Whether a message is read aloud, why not when the filters reject it, and
/// how many grouped occurrences it stands for.
#[derive(Debug, Clone, Copy)]
pub struct MessageDecision {
    pub should_read: bool,
    pub rejection_reason: Option<RejectionReason>,
    pub occurrence_count: u32,
}

/// Decision for a message the filters accepted, from the anti-spam verdict.
pub open spec fn decision_for_verdict(v: AntiSpamVerdict) -> MessageDecision {
    match v {
        AntiSpamVerdict::Allow => MessageDecision {
            should_read: true,
            rejection_reason: None,
            occurrence_count: 1,
        },
        AntiSpamVerdict::GroupedDuplicate { occurrence_count } => MessageDecision {
            should_read: true,
            rejection_reason: None,
            occurrence_count,
        },
        AntiSpamVerdict::RepetitionThresholdExceeded => MessageDecision {
            should_read: false,
            rejection_reason: None,
            occurrence_count: 1,
        },
        AntiSpamVerdict::RateLimited => MessageDecision {
            should_read: false,
            rejection_reason: None,
            occurrence_count: 1,
        },
    }
}

/// The filters decide first; only a message they accept reaches the
/// anti-spam engine (state `s` at time `now`).
pub open spec fn pipeline_step(
    m: ChatMessage,
    fc: FiltersConfig,
    s: AntiSpamModel,
    ac: AntiSpamConfig,
    now: u128,
) -> (AntiSpamModel, MessageDecision) {
    match filter_verdict(m, fc) {
        FilterVerdict::Rejected(reason) => (
            s,
            MessageDecision { should_read: false, rejection_reason: Some(reason), occurrence_count: 1 },
        ),
        FilterVerdict::Accepted => {
            let (s2, v) = antispam_step(s, m.username_login@, m.text_for_tts@, ac, now);
            (s2, decision_for_verdict(v))
        },
    }
}

fn decision_from_verdict(v: AntiSpamVerdict) -> (d: MessageDecision)
    ensures
        d == decision_for_verdict(v),
{
    match v {
        AntiSpamVerdict::Allow => MessageDecision {
            should_read: true,
            rejection_reason: None,
            occurrence_count: 1,
        },
        AntiSpamVerdict::GroupedDuplicate { occurrence_count } => MessageDecision {
            should_read: true,
            rejection_reason: None,
            occurrence_count,
        },
        AntiSpamVerdict::RepetitionThresholdExceeded | AntiSpamVerdict::RateLimited => {
            MessageDecision { should_read: false, rejection_reason: None, occurrence_count: 1 }
        },
    }
}

/// Decision for `message` received `now_ns` nanoseconds after the engine
/// was created.
pub fn decide_at(
    message: &ChatMessage,
    filters: &FiltersConfig,
    engine: &mut AntiSpamEngine,
    anti_spam: &AntiSpamConfig,
    now_ns: u128,
) -> (d: MessageDecision)
    ensures
        (final(engine)@, d) == pipeline_step(*message, *filters, old(engine)@, *anti_spam, now_ns),
{
    match FilterEngine::evaluate(message, filters) {
        FilterVerdict::Rejected(reason) => MessageDecision {
            should_read: false,
            rejection_reason: Some(reason),
            occurrence_count: 1,
        },
        FilterVerdict::Accepted => {
            let v = engine.evaluate_at(
                message.username_login.as_str(),
                message.text_for_tts.as_str(),
                anti_spam,
                now_ns,
            );
            decision_from_verdict(v)
        },
    }
}

/// Decision for `message`, received now.
pub fn decide(
    message: &ChatMessage,
    filters: &FiltersConfig,
    engine: &mut AntiSpamEngine,
    anti_spam: &AntiSpamConfig,
) -> (d: MessageDecision)
    ensures
        final(engine).clock() >= old(engine).clock(),
        (final(engine)@, d) == pipeline_step(
            *message,
            *filters,
            old(engine)@,
            *anti_spam,
            final(engine).clock(),
        ),
        window_ok(old(engine)@.recent, old(engine).clock(), anti_spam.max_messages_per_minute)
            ==> window_ok(final(engine)@.recent, final(engine).clock(), anti_spam.max_messages_per_minute),
{
    match FilterEngine::evaluate(message, filters) {
        FilterVerdict::Rejected(reason) => {
            MessageDecision { should_read: false, rejection_reason: Some(reason), occurrence_count: 1 }
        },
        FilterVerdict::Accepted => {
            let v = engine.evaluate(
                message.username_login.as_str(),
                message.text_for_tts.as_str(),
                anti_spam,
            );
            decision_from_verdict(v)
        },
    }
}

/// A message the filters reject is not read, carries the filter's reason,
/// and leaves the anti-spam state untouched: it neither counts toward the
/// rate limit nor toward a user's repetitions.
pub proof fn law_rejected_message_skips_antispam(
    m: ChatMessage,
    fc: FiltersConfig,
    s: AntiSpamModel,
    ac: AntiSpamConfig,
    now: u128,
    reason: RejectionReason,
)
    requires
        filter_verdict(m, fc) == FilterVerdict::Rejected(reason),
    ensures
        pipeline_step(m, fc, s, ac, now).0 == s,
        !pipeline_step(m, fc, s, ac, now).1.should_read,
        pipeline_step(m, fc, s, ac, now).1.rejection_reason == Some(reason),
{
}

/// A message is read exactly when the filters accept it and the anti-spam
/// engine either lets it through or groups it as a duplicate; a rejection
/// reason is only ever given by the filters.
pub proof fn law_read_only_when_both_agree(
    m: ChatMessage,
    fc: FiltersConfig,
    s: AntiSpamModel,
    ac: AntiSpamConfig,
    now: u128,
)
    ensures
        pipeline_step(m, fc, s, ac, now).1.should_read <==> (filter_verdict(m, fc)
            == FilterVerdict::Accepted && ({
            let v = antispam_step(s, m.username_login@, m.text_for_tts@, ac, now).1;
            v is Allow || v is GroupedDuplicate
        })),
        pipeline_step(m, fc, s, ac, now).1.rejection_reason is Some ==> filter_verdict(m, fc)
            is Rejected,
        pipeline_step(m, fc, s, ac, now).1.should_read ==> pipeline_step(m, fc, s, ac, now).1.rejection_reason
            is None,
{
}

/// With the anti-spam protection off, a message is read exactly when the
/// filters accept it, and nothing is remembered of it.
pub proof fn law_without_antispam_filters_alone_decide(
    m: ChatMessage,
    fc: FiltersConfig,
    s: AntiSpamModel,
    ac: AntiSpamConfig,
    now: u128,
)
    requires
        !ac.enabled,
    ensures
        pipeline_step(m, fc, s, ac, now).1.should_read <==> filter_verdict(m, fc)
            == FilterVerdict::Accepted,
        pipeline_step(m, fc, s, ac, now).0 == s,
        pipeline_step(m, fc, s, ac, now).1.should_read ==> pipeline_step(m, fc, s, ac, now).1.occurrence_count
            == 1,
{
}

/// One row of the message history.
#[derive(Debug, Clone)]
pub struct HistoryEntry {
    pub id: String,
    pub channel: String,
    pub username_login: String,
    pub display_name: String,
    /// Lower-case role name.
    pub role: String,
    pub text: String,
    pub was_read_aloud: bool,
    /// Name of the filter that rejected the message.
    pub rejection_reason: Option<String>,
    pub created_at_ms: i64,
}

/// Messages read and ignored and reading time of one day (`YYYY-MM-DD`).
#[derive(Debug, Clone)]
pub struct DailyStats {
    pub day: String,
    pub messages_read: i64,
    pub messages_ignored: i64,
    pub reading_time_ms: i64,
}

impl Default for DailyStats {
    fn default() -> (s: Self)
        ensures
            s.day@.len() == 0,
            s.messages_read == 0 && s.messages_ignored == 0 && s.reading_time_ms == 0,
    {
        DailyStats { day: String::new(), messages_read: 0, messages_ignored: 0, reading_time_ms: 0 }
    }
}

/// Long-term statistics shown by the dashboard.
#[derive(Debug, Clone)]
pub struct StatsSummary {
    pub total_messages_read: i64,
    pub total_messages_ignored: i64,
    pub total_reading_time_ms: i64,
    pub active_users_last_30_days: i64,
    pub daily_breakdown: Vec<DailyStats>,
}

impl Default for StatsSummary {
    fn default() -> (s: Self)
        ensures
            s.total_messages_read == 0 && s.total_messages_ignored == 0
                && s.total_reading_time_ms == 0 && s.active_users_last_30_days == 0,
            s.daily_breakdown@.len() == 0,
    {
        StatsSummary {
            total_messages_read: 0,
            total_messages_ignored: 0,
            total_reading_time_ms: 0,
            active_users_last_30_days: 0,
            daily_breakdown: Vec::new(),
        }
    }
}

impl HistoryEntry {
    /// The history row for `message` and the decision taken on it.
    pub fn for_message(message: &ChatMessage, decision: &MessageDecision) -> (e: HistoryEntry)
        ensures
            e.id@ == message.id@,
            e.channel@ == message.channel@,
            e.username_login@ == message.username_login@,
            e.display_name@ == message.display_name@,
            e.role@ == role_name(message.role),
            e.text@ == message.text@,
            e.was_read_aloud == decision.should_read,
            match decision.rejection_reason {
                Some(r) => e.rejection_reason matches Some(s) && s@ == reason_name(r),
                None => e.rejection_reason is None,
            },
            e.created_at_ms == message.timestamp_ms,
    {
        let rejection_reason = match decision.rejection_reason {
            Some(r) => Some(r.name().to_owned()),
            None => None,
        };
        HistoryEntry {
            id: message.id.clone(),
            channel: message.channel.clone(),
            username_login: message.username_login.clone(),
            display_name: message.display_name.clone(),
            role: message.role.as_str().to_owned(),
            text: message.text.clone(),
            was_read_aloud: should_read_of(decision),
            rejection_reason,
            created_at_ms: message.timestamp_ms,
        }
    }

    /// Increments of the day's read and ignored counters for this row.
    pub fn daily_deltas(&self) -> (r: (i64, i64))
        ensures
            r == (if self.was_read_aloud { (1i64, 0i64) } else { (0i64, 1i64) }),
    {
        if self.was_read_aloud {
            (1, 0)
        } else {
            (0, 1)
        }
    }
}

/// Milliseconds in a day.
pub const MILLIS_PER_DAY: i64 = 86_400_000;

/// Time (milliseconds since the epoch) before which history rows are
/// purged, `retention_days` days before `now_ms`.
pub fn retention_cutoff_ms(now_ms: i64, retention_days: u32) -> (c: i64)
    requires
        i64::MIN <= now_ms - retention_days * MILLIS_PER_DAY,
    ensures
        c == now_ms - retention_days * MILLIS_PER_DAY,
{
    now_ms - (retention_days as i64) * MILLIS_PER_DAY
}

fn should_read_of(d: &MessageDecision) -> (b: bool)
    ensures
        b == d.should_read,
{
    d.should_read
}

} // verus!
