//! Decisions of the multi-channel connection manager.
//!
//! Each channel has its own supervisor, with its own exponential backoff,
//! that reconnects it after every loss of connection until it is stopped;
//! the status of every known channel is kept in one [`StatusBoard`], updated
//! at the same place that announces the change, so that the live events and
//! the listing never disagree.

use vstd::prelude::*;
use crate::config::ChannelConfig;
use crate::string_map::{lemma_without_key, lemma_without_key_unique, map_of, unique_keys, without_key};
use crate::text;
use crate::text::to_lowercase;
use crate::twitch::irc::ChannelEvent;
use crate::twitch::message::ChatMessage;

verus! {

/// Connection status of a channel.
#[derive(Debug, Clone, Copy, PartialEq, Eq, Structural)]
pub enum ConnectionStatus {
    Connecting,
    Connected,
    Reconnecting,
    Disconnected,
}

/// Event sent to the application by the connection manager.
#[derive(Debug, Clone)]
pub enum ManagerEvent {
    StatusChanged { channel: String, status: ConnectionStatus },
    ChatMessage(ChatMessage),
    Notice { channel: String, text: String },
}

// ---------------------------------------------------------------------------
// Status board
// ---------------------------------------------------------------------------

pub open spec fn status_pairs(v: Seq<(String, ConnectionStatus)>) -> Seq<(Seq<char>, ConnectionStatus)> {
    v.map_values(|p: (String, ConnectionStatus)| (p.0@, p.1))
}

/// Status of every known channel, disconnected ones included.
pub struct StatusBoard {
    entries: Vec<(String, ConnectionStatus)>,
}

impl View for StatusBoard {
    type V = Map<Seq<char>, ConnectionStatus>;

    closed spec fn view(&self) -> Map<Seq<char>, ConnectionStatus> {
        map_of(status_pairs(self.entries@))
    }
}

impl StatusBoard {
    #[verifier::type_invariant]
    spec fn inv(self) -> bool {
        unique_keys(status_pairs(self.entries@))
    }

    /// No channel known yet.
    pub fn new() -> (b: StatusBoard)
        ensures
            b@ == Map::<Seq<char>, ConnectionStatus>::empty(),
    {
        let b = StatusBoard { entries: Vec::new() };
        assert(status_pairs(b.entries@) =~= Seq::<(Seq<char>, ConnectionStatus)>::empty());
        b
    }

    /// Records the status of `channel` and returns the event announcing it.
    pub fn set(&mut self, channel: &str, status: ConnectionStatus) -> (e: ManagerEvent)
        ensures
            final(self)@ == old(self)@.insert(channel@, status),
            e matches ManagerEvent::StatusChanged { channel: c, status: s } && c@ == channel@ && s
                == status,
    {
        proof {
            use_type_invariant(&*self);
        }
        let key = channel.to_owned();
        let mut old_entries: Vec<(String, ConnectionStatus)> = Vec::new();
        std::mem::swap(&mut old_entries, &mut self.entries);
        let ghost ov = status_pairs(old_entries@);
        let mut kept: Vec<(String, ConnectionStatus)> = Vec::new();
        let mut i: usize = 0;
        while i < old_entries.len()
            invariant
                i <= old_entries@.len(),
                ov == status_pairs(old_entries@),
                key@ == channel@,
                status_pairs(kept@) == without_key(ov.subrange(0, i as int), channel@),
            decreases old_entries@.len() - i,
        {
            proof {
                assert(ov.subrange(0, i + 1).drop_last() =~= ov.subrange(0, i as int));
                assert(ov.subrange(0, i + 1).last() == ov[i as int]);
            }
            if old_entries[i].0 != key {
                let ghost before = kept@;
                let pair = (old_entries[i].0.clone(), old_entries[i].1);
                kept.push(pair);
                assert(status_pairs(kept@) =~= status_pairs(before).push(ov[i as int]));
            }
            i = i + 1;
        }
        proof {
            assert(ov.subrange(0, ov.len() as int) =~= ov);
            lemma_without_key(ov, channel@);
            lemma_without_key_unique(ov, channel@);
        }
        let ghost w = status_pairs(kept@);
        kept.push((key, status));
        proof {
            let t = status_pairs(kept@);
            assert(t =~= w.push((channel@, status)));
            assert(t.drop_last() =~= w);
            assert forall|a: int, b: int| 0 <= a < b < t.len() implies (#[trigger] t[a]).0 != (
            #[trigger] t[b]).0 by {
                if b < w.len() {
                    assert(t[a] == w[a] && t[b] == w[b]);
                } else {
                    assert(t[a] == w[a]);
                }
            }
            assert(map_of(t) =~= map_of(ov).remove(channel@).insert(channel@, status));
            assert(map_of(ov).remove(channel@).insert(channel@, status) =~= map_of(ov).insert(
                channel@,
                status,
            ));
        }
        self.entries = kept;
        ManagerEvent::StatusChanged { channel: channel.to_owned(), status }
    }

    /// Every known channel with its status, each channel once.
    pub fn entries(&self) -> (r: Vec<(String, ConnectionStatus)>)
        ensures
            unique_keys(status_pairs(r@)),
            map_of(status_pairs(r@)) == self@,
    {
        proof {
            use_type_invariant(self);
        }
        let mut r: Vec<(String, ConnectionStatus)> = Vec::new();
        let mut i: usize = 0;
        while i < self.entries.len()
            invariant
                i <= self.entries@.len(),
                status_pairs(r@) == status_pairs(self.entries@).subrange(0, i as int),
            decreases self.entries@.len() - i,
        {
            let ghost before = r@;
            let pair = (self.entries[i].0.clone(), self.entries[i].1);
            r.push(pair);
            assert(status_pairs(r@) =~= status_pairs(before).push(status_pairs(self.entries@)[i as int]));
            assert(status_pairs(r@) =~= status_pairs(self.entries@).subrange(0, i + 1));
            i = i + 1;
        }
        assert(status_pairs(r@) =~= status_pairs(self.entries@));
        r
    }
}

/// Status of each configured channel before any connection: disconnected.
pub open spec fn configured_pairs(cs: Seq<ChannelConfig>) -> Seq<(Seq<char>, ConnectionStatus)> {
    cs.map_values(|c: ChannelConfig| (c.login@, ConnectionStatus::Disconnected))
}

/// The channels to list: every configured channel (saved across restarts)
/// with the live status of the connection manager when it has one,
/// `Disconnected` otherwise, plus the live channels that are not
/// configured. Each channel appears once.
pub fn merge_connection_statuses(
    configured: &Vec<ChannelConfig>,
    live: &Vec<(String, ConnectionStatus)>,
) -> (r: Vec<(String, ConnectionStatus)>)
    ensures
        unique_keys(status_pairs(r@)),
        map_of(status_pairs(r@)) == map_of(configured_pairs(configured@)).union_prefer_right(
            map_of(status_pairs(live@)),
        ),
{
    let mut board = StatusBoard::new();
    let ghost cp = configured_pairs(configured@);
    let mut i: usize = 0;
    while i < configured.len()
        invariant
            i <= configured@.len(),
            cp == configured_pairs(configured@),
            board@ == map_of(cp.subrange(0, i as int)),
        decreases configured@.len() - i,
    {
        proof {
            assert(cp.subrange(0, i + 1).drop_last() =~= cp.subrange(0, i as int));
            assert(cp.subrange(0, i + 1).last() == cp[i as int]);
        }
        let _ = board.set(configured[i].login.as_str(), ConnectionStatus::Disconnected);
        i = i + 1;
    }
    assert(cp.subrange(0, cp.len() as int) =~= cp);
    let ghost lp = status_pairs(live@);
    let mut j: usize = 0;
    while j < live.len()
        invariant
            j <= live@.len(),
            lp == status_pairs(live@),
            board@ == map_of(cp).union_prefer_right(map_of(lp.subrange(0, j as int))),
        decreases live@.len() - j,
    {
        proof {
            assert(lp.subrange(0, j + 1).drop_last() =~= lp.subrange(0, j as int));
            assert(lp.subrange(0, j + 1).last() == lp[j as int]);
        }
        let _ = board.set(live[j].0.as_str(), live[j].1);
        proof {
            assert(board@ =~= map_of(cp).union_prefer_right(map_of(lp.subrange(0, j + 1))));
        }
        j = j + 1;
    }
    assert(lp.subrange(0, lp.len() as int) =~= lp);
    board.entries()
}

// ---------------------------------------------------------------------------
// Configured channels
// ---------------------------------------------------------------------------

pub open spec fn channels_view(v: Seq<ChannelConfig>) -> Seq<(Seq<char>, bool, bool)> {
    v.map_values(|c: ChannelConfig| (c.login@, c.enabled, c.auto_reconnect))
}

/// Logins of the enabled channels, in order.
pub open spec fn enabled_logins(cs: Seq<(Seq<char>, bool, bool)>) -> Seq<Seq<char>>
    decreases cs.len(),
{
    if cs.len() == 0 {
        seq![]
    } else if cs.last().1 {
        enabled_logins(cs.drop_last()).push(cs.last().0)
    } else {
        enabled_logins(cs.drop_last())
    }
}

/// The logins of the enabled channels, in order: the channels to connect
/// to at start-up and after logging in.
pub fn enabled_channel_logins(channels: &Vec<ChannelConfig>) -> (v: Vec<String>)
    ensures
        text::strings_view(v@) == enabled_logins(channels_view(channels@)),
{
    let ghost cv = channels_view(channels@);
    let mut v: Vec<String> = Vec::new();
    let mut i: usize = 0;
    while i < channels.len()
        invariant
            i <= channels@.len(),
            cv == channels_view(channels@),
            text::strings_view(v@) == enabled_logins(cv.subrange(0, i as int)),
        decreases channels@.len() - i,
    {
        proof {
            assert(cv.subrange(0, i + 1).drop_last() =~= cv.subrange(0, i as int));
            assert(cv.subrange(0, i + 1).last() == cv[i as int]);
        }
        if channels[i].enabled {
            let ghost before = v@;
            v.push(channels[i].login.clone());
            assert(text::strings_view(v@) =~= text::strings_view(before).push(cv[i as int].0));
        }
        i = i + 1;
    }
    assert(cv.subrange(0, cv.len() as int) =~= cv);
    v
}

/// Position of the first configured channel named `login`.
pub open spec fn first_channel(cs: Seq<(Seq<char>, bool, bool)>, login: Seq<char>) -> Option<int> {
    if exists|i: int| 0 <= i < cs.len() && cs[i].0 == login && forall|j: int| 0 <= j < i ==> cs[j].0 != login {
        Some(choose|i: int| 0 <= i < cs.len() && cs[i].0 == login && forall|j: int| 0 <= j < i ==> cs[j].0 != login)
    } else {
        None
    }
}

proof fn lemma_first_channel(cs: Seq<(Seq<char>, bool, bool)>, login: Seq<char>, i: int)
    requires
        0 <= i < cs.len(),
        cs[i].0 == login,
        forall|j: int| 0 <= j < i ==> cs[j].0 != login,
    ensures
        first_channel(cs, login) == Some(i),
{
    let k = choose|k: int| 0 <= k < cs.len() && cs[k].0 == login && forall|j: int| 0 <= j < k ==> cs[j].0 != login;
    assert(0 <= k < cs.len() && cs[k].0 == login && forall|j: int| 0 <= j < k ==> cs[j].0 != login);
    if k < i {
        assert(cs[k].0 != login);
    }
    if i < k {
        assert(cs[i].0 != login);
    }
}

fn find_channel(channels: &Vec<ChannelConfig>, login: &str) -> (r: Option<usize>)
    ensures
        match r {
            Some(i) => first_channel(channels_view(channels@), login@) == Some(i as int) && i
                < channels@.len(),
            None => first_channel(channels_view(channels@), login@) is None,
        },
{
    let key = login.to_owned();
    let ghost cv = channels_view(channels@);
    let mut i: usize = 0;
    while i < channels.len()
        invariant
            i <= channels@.len(),
            cv == channels_view(channels@),
            key@ == login@,
            forall|j: int| 0 <= j < i ==> cv[j].0 != login@,
        decreases channels@.len() - i,
    {
        if channels[i].login == key {
            proof {
                lemma_first_channel(cv, login@, i as int);
            }
            return Some(i);
        }
        i = i + 1;
    }
    None
}

/// Sets whether the channel at position `i` is enabled.
fn set_enabled(channels: &mut Vec<ChannelConfig>, i: usize, enabled: bool)
    requires
        i < old(channels)@.len(),
    ensures
        channels_view(final(channels)@) == channels_view(old(channels)@).update(
            i as int,
            (channels_view(old(channels)@)[i as int].0, enabled, channels_view(old(channels)@)[i as int].2),
        ),
{
    let updated = ChannelConfig {
        login: channels[i].login.clone(),
        enabled,
        auto_reconnect: channels[i].auto_reconnect,
    };
    channels.set(i, updated);
    assert(channels_view(channels@) =~= channels_view(old(channels)@).update(
        i as int,
        (channels_view(old(channels)@)[i as int].0, enabled, channels_view(old(channels)@)[i as int].2),
    ));
}

/// Channel list after connecting to `login`: the channel is added, enabled
/// with automatic reconnection, when it is not configured yet; otherwise
/// its first entry is enabled.
pub open spec fn after_connect(cs: Seq<(Seq<char>, bool, bool)>, login: Seq<char>) -> Seq<(Seq<char>, bool, bool)> {
    match first_channel(cs, login) {
        Some(i) => cs.update(i, (cs[i].0, true, cs[i].2)),
        None => cs.push((login, true, true)),
    }
}

/// Channel list after disconnecting from `login`: its first entry is
/// disabled; the list is otherwise unchanged.
pub open spec fn after_disconnect(cs: Seq<(Seq<char>, bool, bool)>, login: Seq<char>) -> Seq<(Seq<char>, bool, bool)> {
    match first_channel(cs, login) {
        Some(i) => cs.update(i, (cs[i].0, false, cs[i].2)),
        None => cs,
    }
}

/// Records that the user connects to `login` (lower-cased).
pub fn enable_channel(channels: &mut Vec<ChannelConfig>, login: &str)
    ensures
        channels_view(final(channels)@) == after_connect(channels_view(old(channels)@), text::lowercase(login@)),
{
    let lower = to_lowercase(login);
    match find_channel(channels, lower.as_str()) {
        Some(i) => set_enabled(channels, i, true),
        None => {
            let ghost before = channels_view(channels@);
            channels.push(ChannelConfig { login: lower, enabled: true, auto_reconnect: true });
            assert(channels_view(channels@) =~= before.push((text::lowercase(login@), true, true)));
        },
    }
}

/// Records that the user disconnects from `login` (lower-cased); the
/// channel stays listed.
pub fn disable_channel(channels: &mut Vec<ChannelConfig>, login: &str)
    ensures
        channels_view(final(channels)@) == after_disconnect(channels_view(old(channels)@), text::lowercase(login@)),
{
    let lower = to_lowercase(login);
    match find_channel(channels, lower.as_str()) {
        Some(i) => set_enabled(channels, i, false),
        None => {},
    }
}

// ---------------------------------------------------------------------------
// Per-channel supervisor
// ---------------------------------------------------------------------------

/// Longest wait between two connection attempts.
pub const MAX_BACKOFF_SECS: u64 = 60;

/// Silence after which a connection is considered dead and reopened (Twitch
/// sends a `PING` about every five minutes).
pub const IDLE_TIMEOUT_SECS: u64 = 360;

/// Wait after `b` seconds: doubled, at most [`MAX_BACKOFF_SECS`].
pub open spec fn next_backoff(b: u64) -> u64 {
    if 2 * b < MAX_BACKOFF_SECS {
        (2 * b) as u64
    } else {
        MAX_BACKOFF_SECS
    }
}

/// Wait before the reconnection that follows `k` failed attempts.
pub open spec fn backoff_after(k: nat) -> u64
    decreases k,
{
    if k == 0 {
        1
    } else {
        next_backoff(backoff_after((k - 1) as nat))
    }
}

/// The waits between reconnections double from one second up to one
/// minute, and stay at one minute: the wait after `k` attempts is
/// `min(2^k, 60)` seconds.
pub proof fn law_backoff_doubles_up_to_a_minute(k: nat)
    ensures
        backoff_after(k) == (if vstd::arithmetic::power2::pow2(k) < 60 {
            vstd::arithmetic::power2::pow2(k)
        } else {
            60
        }),
        1 <= backoff_after(k) <= MAX_BACKOFF_SECS,
    decreases k,
{
    vstd::arithmetic::power2::lemma_pow2_pos(k);
    if k == 0 {
        vstd::arithmetic::power2::lemma2_to64();
    } else {
        law_backoff_doubles_up_to_a_minute((k - 1) as nat);
        vstd::arithmetic::power2::lemma_pow2_unfold(k);
    }
}

/// Idle-connection notice.
pub open spec fn idle_notice() -> Seq<char> {
    "Connexion inactive depuis plus de 6 minutes, reconnexion forcée"@
}

/// What the supervisor of a channel learns.
#[derive(Debug, Clone)]
pub enum SupervisorInput {
    /// A fresh OAuth token was asked for; whether one is available.
    TokenChecked { available: bool },
    /// The open connection reported an event.
    Bridge(ChannelEvent),
    /// The connection ended, by itself or after [`IDLE_TIMEOUT_SECS`] of
    /// silence.
    SessionEnded { idle_timeout: bool },
    /// The user disconnected the channel.
    StopRequested,
    /// The wait before reconnecting is over.
    BackoffElapsed,
}

/// What the supervisor does next.
#[derive(Debug, Clone, Copy, PartialEq, Eq, Structural)]
pub enum NextStep {
    /// Ask for a fresh token.
    FetchToken,
    /// Open a connection with the token.
    OpenSession,
    /// Keep relaying the open connection.
    KeepRunning,
    /// Wait this many seconds (or until stopped) before reconnecting.
    Wait { secs: u64 },
    /// Stop supervising; `deregister` when the supervisor must remove its
    /// channel from the active channels itself (nobody else will).
    Exit { deregister: bool },
}

/// Result of one supervisor step: events to send first, then the status to
/// record (which announces itself), then the next step.
pub struct SupervisorOutput {
    pub events: Vec<ManagerEvent>,
    pub status: Option<ConnectionStatus>,
    pub next: NextStep,
}

/// Reconnection state of one channel.
pub struct ChannelSupervisor {
    channel: String,
    backoff_secs: u64,
}

impl ChannelSupervisor {
    #[verifier::type_invariant]
    spec fn inv(self) -> bool {
        1 <= self.backoff_secs <= MAX_BACKOFF_SECS
    }

    pub closed spec fn channel(&self) -> Seq<char> {
        self.channel@
    }

    /// Current wait before the next reconnection, in seconds.
    pub closed spec fn backoff(&self) -> u64 {
        self.backoff_secs
    }

    /// Supervisor of `channel`, before its first attempt.
    pub fn new(channel: String) -> (s: ChannelSupervisor)
        ensures
            s.channel() == channel@,
            s.backoff() == backoff_after(0),
    {
        ChannelSupervisor { channel, backoff_secs: 1 }
    }

    fn notice(&self, text: String) -> (e: ManagerEvent)
        ensures
            e matches ManagerEvent::Notice { channel: c, text: t } && c@ == self.channel() && t@ == text@,
    {
        ManagerEvent::Notice { channel: self.channel.clone(), text }
    }

    /// One step of the reconnection loop.
    pub fn step(&mut self, input: SupervisorInput) -> (o: SupervisorOutput)
        ensures
            final(self).channel() == old(self).channel(),
            1 <= final(self).backoff() <= MAX_BACKOFF_SECS,
            input is BackoffElapsed ==> final(self).backoff() == next_backoff(old(self).backoff()),
            !(input is BackoffElapsed) ==> final(self).backoff() == old(self).backoff(),
            match input {
                SupervisorInput::TokenChecked { available } => o.events@.len() == 0 && if available {
                    o.status == Some(ConnectionStatus::Connecting) && o.next == NextStep::OpenSession
                } else {
                    o.status == Some(ConnectionStatus::Disconnected) && o.next == (NextStep::Exit {
                        deregister: true,
                    })
                },
                SupervisorInput::Bridge(evt) => o.next == NextStep::KeepRunning && match evt {
                    ChannelEvent::Connected => o.events@.len() == 0 && o.status == Some(
                        ConnectionStatus::Connected,
                    ),
                    ChannelEvent::Disconnected { reason } => o.status is None && o.events@.len() == 1
                        && (o.events@[0] matches ManagerEvent::Notice { channel: c, text: t } && c@
                        == old(self).channel() && t@ == reason@),
                    ChannelEvent::Message(m) => o.status is None && o.events@.len() == 1
                        && (o.events@[0] matches ManagerEvent::ChatMessage(m2) && m2 == m),
                    ChannelEvent::Notice(text) => o.status is None && o.events@.len() == 1
                        && (o.events@[0] matches ManagerEvent::Notice { channel: c, text: t } && c@
                        == old(self).channel() && t@ == text@),
                },
                SupervisorInput::SessionEnded { idle_timeout } => {
                    &&& o.status == Some(ConnectionStatus::Reconnecting)
                    &&& o.next == (NextStep::Wait { secs: old(self).backoff() })
                    &&& o.events@.len() == (if idle_timeout { 1int } else { 0int })
                    &&& idle_timeout ==> (o.events@[0] matches ManagerEvent::Notice { channel: c, text: t }
                        && c@ == old(self).channel() && t@ == idle_notice())
                },
                SupervisorInput::StopRequested => o.events@.len() == 0 && o.status is None && o.next
                    == (NextStep::Exit { deregister: false }),
                SupervisorInput::BackoffElapsed => o.events@.len() == 0 && o.status is None && o.next
                    == NextStep::FetchToken,
            },
    {
        proof {
            use_type_invariant(&*self);
        }
        let mut events: Vec<ManagerEvent> = Vec::new();
        match input {
            SupervisorInput::TokenChecked { available } => {
                if available {
                    SupervisorOutput {
                        events,
                        status: Some(ConnectionStatus::Connecting),
                        next: NextStep::OpenSession,
                    }
                } else {
                    SupervisorOutput {
                        events,
                        status: Some(ConnectionStatus::Disconnected),
                        next: NextStep::Exit { deregister: true },
                    }
                }
            },
            SupervisorInput::Bridge(evt) => match evt {
                ChannelEvent::Connected => SupervisorOutput {
                    events,
                    status: Some(ConnectionStatus::Connected),
                    next: NextStep::KeepRunning,
                },
                ChannelEvent::Disconnected { reason } => {
                    events.push(self.notice(reason));
                    SupervisorOutput { events, status: None, next: NextStep::KeepRunning }
                },
                ChannelEvent::Message(m) => {
                    events.push(ManagerEvent::ChatMessage(m));
                    SupervisorOutput { events, status: None, next: NextStep::KeepRunning }
                },
                ChannelEvent::Notice(text) => {
                    events.push(self.notice(text));
                    SupervisorOutput { events, status: None, next: NextStep::KeepRunning }
                },
            },
            SupervisorInput::SessionEnded { idle_timeout } => {
                if idle_timeout {
                    let text = "Connexion inactive depuis plus de 6 minutes, reconnexion forcée".to_owned();
                    events.push(self.notice(text));
                }
                SupervisorOutput {
                    events,
                    status: Some(ConnectionStatus::Reconnecting),
                    next: NextStep::Wait { secs: self.backoff_secs },
                }
            },
            SupervisorInput::StopRequested => SupervisorOutput {
                events,
                status: None,
                next: NextStep::Exit { deregister: false },
            },
            SupervisorInput::BackoffElapsed => {
                let doubled = self.backoff_secs * 2;
                self.backoff_secs = if doubled < MAX_BACKOFF_SECS {
                    doubled
                } else {
                    MAX_BACKOFF_SECS
                };
                SupervisorOutput { events, status: None, next: NextStep::FetchToken }
            },
        }
    }
}

} // verus!
