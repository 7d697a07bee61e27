//! Counts of active sessions per user.
use vstd::prelude::*;
use crate::assoc::{lookup, distinct_keys, find_last, lemma_lookup_push, lemma_lookup_update};

verus! {

/// `c + 1`, wrapping at `u32::MAX` as an atomic add does.
pub open spec fn inc_wrapping(c: u32) -> u32 {
    if c == u32::MAX {
        0
    } else {
        (c + 1) as u32
    }
}

/// `c - 1`, held at zero: a count never underflows.
pub open spec fn dec_saturating(c: u32) -> u32 {
    if c == 0 {
        0
    } else {
        (c - 1) as u32
    }
}

/// A user's entry after one more login: a user with no entry starts at one.
pub open spec fn after_login(c: Option<u32>) -> Option<u32> {
    Some(
        match c {
            Some(n) => inc_wrapping(n),
            None => 1u32,
        },
    )
}

/// A user's entry after one logout: a user with no entry keeps none.
pub open spec fn after_logout(c: Option<u32>) -> Option<u32> {
    match c {
        Some(n) => Some(dec_saturating(n)),
        None => None,
    }
}

/// A user's session count, zero for a user with no entry.
pub open spec fn count_of(c: Option<u32>) -> u32 {
    match c {
        Some(n) => n,
        None => 0u32,
    }
}

/// A logout undoes a login: the user's count is what it was before, and a user who
/// had no entry is left with an entry of zero (a count already at `u32::MAX` wraps on
/// the login, and is left out).
pub proof fn lemma_logout_undoes_login(c: Option<u32>)
    requires
        count_of(c) < u32::MAX,
    ensures
        after_logout(after_login(c)) == Some(count_of(c)),
{
}

/// A count never underflows: a logout leaves a count at zero, or one less.
pub proof fn lemma_logout_never_underflows(c: Option<u32>)
    ensures
        count_of(after_logout(c)) == if count_of(c) == 0 {
            0
        } else {
            count_of(c) - 1
        },
{
}

/// The entries with at least one session, in table order.
pub open spec fn positive_entries(s: Seq<(String, u32)>) -> Seq<(Seq<char>, u32)>
    decreases s.len(),
{
    if s.len() == 0 {
        Seq::empty()
    } else if s.last().1 > 0 {
        positive_entries(s.drop_last()).push((s.last().0@, s.last().1))
    } else {
        positive_entries(s.drop_last())
    }
}

/// Tracks active sessions per user.
#[derive(Debug)]
pub struct SessionTracker {
    sessions: Vec<(String, u32)>,
}

impl SessionTracker {
    #[verifier::type_invariant]
    spec fn inv(self) -> bool {
        distinct_keys(self.sessions@)
    }

    /// The table, one entry per user ever seen.
    pub closed spec fn entries(&self) -> Seq<(String, u32)> {
        self.sessions@
    }

    /// The session count of a user, if the user has an entry.
    pub open spec fn logins(&self, name: Seq<char>) -> Option<u32> {
        lookup(self.entries(), name)
    }

    /// An empty tracker.
    pub fn new() -> (t: SessionTracker)
        ensures
            forall|k: Seq<char>| #[trigger] t.logins(k) is None,
            t.entries().len() == 0,
    {
        SessionTracker { sessions: Vec::new() }
    }

    /// Whether the user is under `max_logins` sessions (a user with no entry is).
    pub fn can_login(&self, username: &str, max_logins: u32) -> (r: bool)
        ensures
            r == match self.logins(username@) {
                Some(c) => c < max_logins,
                None => true,
            },
    {
        match find_last(&self.sessions, username) {
            Some(i) => self.sessions[i].1 < max_logins,
            None => true,
        }
    }

    /// Counts one more session for the user (wrapping at `u32::MAX`).
    pub fn increment_login(&mut self, username: &str)
        ensures
            forall|k: Seq<char>| #[trigger] final(self).logins(k) == if k == username@ {
                after_login(old(self).logins(k))
            } else {
                old(self).logins(k)
            },
    {
        proof {
            use_type_invariant(&*self);
        }
        let mut entries: Vec<(String, u32)> = Vec::new();
        std::mem::swap(&mut entries, &mut self.sessions);
        let ghost pre = entries@;
        match find_last(&entries, username) {
            Some(i) => {
                let c = entries[i].1;
                let n: u32 = if c == u32::MAX {
                    0
                } else {
                    c + 1
                };
                let name = entries[i].0.clone();
                entries.set(i, (name, n));
                proof {
                    assert forall|k: Seq<char>| #[trigger] lookup(entries@, k) == if k == username@ {
                        Some(inc_wrapping(lookup(pre, k)->0))
                    } else {
                        lookup(pre, k)
                    } by {
                        lemma_lookup_update(pre, i as int, (name, n), k);
                    }
                    assert(distinct_keys(entries@)) by {
                        assert forall|a: int, b: int| 0 <= a < b < entries@.len() implies #[trigger] entries@[a].0@
                            != #[trigger] entries@[b].0@ by {
                            assert(entries@[a].0@ == pre[a].0@);
                            assert(entries@[b].0@ == pre[b].0@);
                        }
                    }
                }
            },
            None => {
                let e = (username.to_owned(), 1u32);
                entries.push(e);
                proof {
                    assert forall|k: Seq<char>| #[trigger] lookup(entries@, k) == if k == username@ {
                        Some(1u32)
                    } else {
                        lookup(pre, k)
                    } by {
                        lemma_lookup_push(pre, e, k);
                    }
                    assert(distinct_keys(entries@)) by {
                        assert forall|a: int, b: int| 0 <= a < b < entries@.len() implies #[trigger] entries@[a].0@
                            != #[trigger] entries@[b].0@ by {
                            if b == pre.len() {
                                assert(pre[a].0@ != username@);
                            } else {
                                assert(entries@[a] == pre[a]);
                                assert(entries@[b] == pre[b]);
                            }
                        }
                    }
                }
            },
        }
        self.sessions = entries;
    }

    /// Counts one session less for the user (staying at zero); a user with no entry
    /// is left alone.
    pub fn decrement_login(&mut self, username: &str)
        ensures
            forall|k: Seq<char>| #[trigger] final(self).logins(k) == if k == username@ {
                after_logout(old(self).logins(k))
            } else {
                old(self).logins(k)
            },
    {
        proof {
            use_type_invariant(&*self);
        }
        let mut entries: Vec<(String, u32)> = Vec::new();
        std::mem::swap(&mut entries, &mut self.sessions);
        let ghost pre = entries@;
        match find_last(&entries, username) {
            Some(i) => {
                let c = entries[i].1;
                let n: u32 = if c == 0 {
                    0
                } else {
                    c - 1
                };
                let name = entries[i].0.clone();
                entries.set(i, (name, n));
                proof {
                    assert forall|k: Seq<char>| #[trigger] lookup(entries@, k) == if k == username@ {
                        Some(dec_saturating(lookup(pre, k)->0))
                    } else {
                        lookup(pre, k)
                    } by {
                        lemma_lookup_update(pre, i as int, (name, n), k);
                    }
                    assert(distinct_keys(entries@)) by {
                        assert forall|a: int, b: int| 0 <= a < b < entries@.len() implies #[trigger] entries@[a].0@
                            != #[trigger] entries@[b].0@ by {
                            assert(entries@[a].0@ == pre[a].0@);
                            assert(entries@[b].0@ == pre[b].0@);
                        }
                    }
                }
            },
            None => {},
        }
        self.sessions = entries;
    }

    /// The user's session count, zero without an entry.
    pub fn active_logins(&self, username: &str) -> (r: u32)
        ensures
            r == match self.logins(username@) {
                Some(c) => c,
                None => 0,
            },
    {
        match find_last(&self.sessions, username) {
            Some(i) => self.sessions[i].1,
            None => 0,
        }
    }

    /// The users with at least one session and their counts.
    pub fn all_sessions(&self) -> (r: Vec<(String, u32)>)
        ensures
            r@.map_values(|e: (String, u32)| (e.0@, e.1)) == positive_entries(self.entries()),
    {
        let mut out: Vec<(String, u32)> = Vec::new();
        let mut i: usize = 0;
        while i < self.sessions.len()
            invariant
                i <= self.sessions@.len(),
                out@.map_values(|e: (String, u32)| (e.0@, e.1)) == positive_entries(
                    self.sessions@.subrange(0, i as int),
                ),
            decreases self.sessions@.len() - i,
        {
            let ghost sub = self.sessions@.subrange(0, i + 1);
            proof {
                assert(sub.drop_last() =~= self.sessions@.subrange(0, i as int));
                assert(sub.last() == self.sessions@[i as int]);
            }
            let count = self.sessions[i].1;
            if count > 0 {
                let ghost prev = out@;
                out.push((self.sessions[i].0.clone(), count));
                proof {
                    assert(out@.map_values(|e: (String, u32)| (e.0@, e.1)) =~= prev.map_values(
                        |e: (String, u32)| (e.0@, e.1),
                    ).push((self.sessions@[i as int].0@, count)));
                }
            }
            i = i + 1;
        }
        assert(self.sessions@.subrange(0, self.sessions@.len() as int) =~= self.sessions@);
        out
    }

    /// Sets the user's count to zero and returns what it was (zero without an entry).
    pub fn force_disconnect(&mut self, username: &str) -> (r: u32)
        ensures
            r == match old(self).logins(username@) {
                Some(c) => c,
                None => 0,
            },
            forall|k: Seq<char>| #[trigger] final(self).logins(k) == if k == username@ {
                match old(self).logins(k) {
                    Some(c) => Some(0u32),
                    None => None,
                }
            } else {
                old(self).logins(k)
            },
    {
        proof {
            use_type_invariant(&*self);
        }
        let mut entries: Vec<(String, u32)> = Vec::new();
        std::mem::swap(&mut entries, &mut self.sessions);
        let ghost pre = entries@;
        let prev = match find_last(&entries, username) {
            Some(i) => {
                let c = entries[i].1;
                let name = entries[i].0.clone();
                entries.set(i, (name, 0u32));
                proof {
                    assert forall|k: Seq<char>| #[trigger] lookup(entries@, k) == if k == username@ {
                        Some(0u32)
                    } else {
                        lookup(pre, k)
                    } by {
                        lemma_lookup_update(pre, i as int, (name, 0u32), k);
                    }
                    assert(distinct_keys(entries@)) by {
                        assert forall|a: int, b: int| 0 <= a < b < entries@.len() implies #[trigger] entries@[a].0@
                            != #[trigger] entries@[b].0@ by {
                            assert(entries@[a].0@ == pre[a].0@);
                            assert(entries@[b].0@ == pre[b].0@);
                        }
                    }
                }
                c
            },
            None => 0,
        };
        self.sessions = entries;
        prev
    }
}

} // verus!
