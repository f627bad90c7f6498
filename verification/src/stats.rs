//! Statistics of the current session, kept in memory so the dashboard can
//! read them at once (long-term statistics live in the history database).

use vstd::prelude::*;
use crate::text;

verus! {

/// Counters shown by the dashboard for the current session.
#[derive(Debug, Clone, Copy)]
pub struct SessionStatsSnapshot {
    pub messages_read: u64,
    pub messages_ignored: u64,
    pub active_users_count: usize,
    pub total_reading_time_ms: u64,
}

impl Default for SessionStatsSnapshot {
    fn default() -> (s: Self)
        ensures
            s.messages_read == 0 && s.messages_ignored == 0 && s.active_users_count == 0
                && s.total_reading_time_ms == 0,
    {
        SessionStatsSnapshot {
            messages_read: 0,
            messages_ignored: 0,
            active_users_count: 0,
            total_reading_time_ms: 0,
        }
    }
}

/// Mathematical state of the session statistics. The counters wrap around
/// at `u64::MAX`, as atomic additions do.
pub struct SessionModel {
    pub messages_read: u64,
    pub messages_ignored: u64,
    pub total_reading_time_ms: u64,
    /// Logins of the users who sent a message, read or not.
    pub active_users: Set<Seq<char>>,
}

/// Session statistics: messages read and ignored, reading time and the
/// users seen.
pub struct SessionStats {
    messages_read: u64,
    messages_ignored: u64,
    total_reading_time_ms: u64,
    /// Each login once.
    active_users: Vec<String>,
}

impl View for SessionStats {
    type V = SessionModel;

    closed spec fn view(&self) -> SessionModel {
        SessionModel {
            messages_read: self.messages_read,
            messages_ignored: self.messages_ignored,
            total_reading_time_ms: self.total_reading_time_ms,
            active_users: text::strings_view(self.active_users@).to_set(),
        }
    }
}

impl SessionStats {
    #[verifier::type_invariant]
    spec fn inv(self) -> bool {
        text::strings_view(self.active_users@).no_duplicates()
    }

    /// Statistics of a session that has just started.
    pub fn new() -> (s: SessionStats)
        ensures
            s@.messages_read == 0,
            s@.messages_ignored == 0,
            s@.total_reading_time_ms == 0,
            s@.active_users == Set::<Seq<char>>::empty(),
    {
        let s = SessionStats {
            messages_read: 0,
            messages_ignored: 0,
            total_reading_time_ms: 0,
            active_users: Vec::new(),
        };
        assert(text::strings_view(s.active_users@) =~= Seq::<Seq<char>>::empty());
        assert(text::strings_view(s.active_users@).to_set() =~= Set::<Seq<char>>::empty());
        s
    }

    /// Adds `login` to the users seen.
    fn note_user(&mut self, login: &str)
        ensures
            final(self)@.messages_read == old(self)@.messages_read,
            final(self)@.messages_ignored == old(self)@.messages_ignored,
            final(self)@.total_reading_time_ms == old(self)@.total_reading_time_ms,
            final(self)@.active_users == old(self)@.active_users.insert(login@),
    {
        proof {
            use_type_invariant(&*self);
        }
        let key = login.to_owned();
        let mut users: Vec<String> = Vec::new();
        std::mem::swap(&mut users, &mut self.active_users);
        let ghost sv = text::strings_view(users@);
        let mut i: usize = 0;
        while i < users.len()
            invariant
                i <= users@.len(),
                sv == text::strings_view(users@),
                key@ == login@,
                forall|j: int| 0 <= j < i ==> sv[j] != login@,
                sv == text::strings_view(old(self).active_users@),
                sv.no_duplicates(),
                self.messages_read == old(self).messages_read,
                self.messages_ignored == old(self).messages_ignored,
                self.total_reading_time_ms == old(self).total_reading_time_ms,
            decreases users@.len() - i,
        {
            if users[i] == key {
                proof {
                    assert(sv.to_set().contains(login@)) by {
                        assert(sv[i as int] == login@);
                    }
                    assert(sv.to_set().insert(login@) =~= sv.to_set());
                }
                self.active_users = users;
                return;
            }
            i = i + 1;
        }
        users.push(key);
        proof {
            assert(text::strings_view(users@) =~= sv.push(login@));
            assert(sv.push(login@) =~= sv + seq![login@]);
            Seq::<Seq<char>>::lemma_to_set_insert_commutes(sv, login@);
            assert(!sv.contains(login@));
            assert(text::strings_view(users@).no_duplicates()) by {
                let t = text::strings_view(users@);
                assert forall|a: int, b: int| 0 <= a < t.len() && 0 <= b < t.len() && a != b implies t[a]
                    != t[b] by {
                    if a < sv.len() && b < sv.len() {
                        assert(t[a] == sv[a] && t[b] == sv[b]);
                    } else if a < sv.len() {
                        assert(t[a] == sv[a]);
                    } else {
                        assert(t[b] == sv[b]);
                    }
                }
            }
        }
        self.active_users = users;
    }

    /// Counts a message read aloud from `user_login`.
    pub fn record_read(&mut self, user_login: &str)
        ensures
            final(self)@.messages_read == old(self)@.messages_read.wrapping_add(1),
            final(self)@.messages_ignored == old(self)@.messages_ignored,
            final(self)@.total_reading_time_ms == old(self)@.total_reading_time_ms,
            final(self)@.active_users == old(self)@.active_users.insert(user_login@),
    {
        proof {
            use_type_invariant(&*self);
        }
        self.messages_read = self.messages_read.wrapping_add(1);
        self.note_user(user_login);
    }

    /// Counts a message from `user_login` that was not read.
    pub fn record_ignored(&mut self, user_login: &str)
        ensures
            final(self)@.messages_read == old(self)@.messages_read,
            final(self)@.messages_ignored == old(self)@.messages_ignored.wrapping_add(1),
            final(self)@.total_reading_time_ms == old(self)@.total_reading_time_ms,
            final(self)@.active_users == old(self)@.active_users.insert(user_login@),
    {
        proof {
            use_type_invariant(&*self);
        }
        self.messages_ignored = self.messages_ignored.wrapping_add(1);
        self.note_user(user_login);
    }

    /// Counts a message from `user_login` after the decision on it: read
    /// when it was to be read and the speech queue did not turn it away
    /// for being full, ignored otherwise (a full queue drops the message
    /// rather than blocking the chat, and it counts as ignored).
    pub fn record_decision(&mut self, user_login: &str, should_read: bool, queue_full: bool)
        ensures
            should_read && !queue_full ==> final(self)@.messages_read == old(self)@.messages_read.wrapping_add(1)
                && final(self)@.messages_ignored == old(self)@.messages_ignored,
            !(should_read && !queue_full) ==> final(self)@.messages_read == old(self)@.messages_read
                && final(self)@.messages_ignored == old(self)@.messages_ignored.wrapping_add(1),
            final(self)@.total_reading_time_ms == old(self)@.total_reading_time_ms,
            final(self)@.active_users == old(self)@.active_users.insert(user_login@),
    {
        if should_read && !queue_full {
            self.record_read(user_login);
        } else {
            self.record_ignored(user_login);
        }
    }

    /// Adds the duration of one reading.
    pub fn record_reading_time(&mut self, duration_ms: u64)
        ensures
            final(self)@.messages_read == old(self)@.messages_read,
            final(self)@.messages_ignored == old(self)@.messages_ignored,
            final(self)@.total_reading_time_ms == old(self)@.total_reading_time_ms.wrapping_add(
                duration_ms,
            ),
            final(self)@.active_users == old(self)@.active_users,
    {
        proof {
            use_type_invariant(&*self);
        }
        self.total_reading_time_ms = self.total_reading_time_ms.wrapping_add(duration_ms);
    }

    /// The current counters; the user count is the number of distinct
    /// logins seen.
    pub fn snapshot(&self) -> (s: SessionStatsSnapshot)
        ensures
            s.messages_read == self@.messages_read,
            s.messages_ignored == self@.messages_ignored,
            s.total_reading_time_ms == self@.total_reading_time_ms,
            s.active_users_count == self@.active_users.len(),
    {
        proof {
            use_type_invariant(self);
            text::strings_view(self.active_users@).unique_seq_to_set();
        }
        SessionStatsSnapshot {
            messages_read: self.messages_read,
            messages_ignored: self.messages_ignored,
            active_users_count: self.active_users.len(),
            total_reading_time_ms: self.total_reading_time_ms,
        }
    }
}

impl Default for SessionStats {
    fn default() -> (s: Self)
        ensures
            s@.messages_read == 0,
            s@.messages_ignored == 0,
            s@.total_reading_time_ms == 0,
            s@.active_users == Set::<Seq<char>>::empty(),
    {
        SessionStats::new()
    }
}

} // verus!
