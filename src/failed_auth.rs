use vstd::prelude::*;

use crate::models::{compute_expiry, expiry};
use crate::text::{lower_of, to_lowercase};

verus! {

/// One counter of failed logins, keyed by a normalized identifier.
#[derive(Debug, Clone)]
pub struct FailedAuthEntry {
    pub key: String,
    pub count: u64,
    pub expires_at: u64,
}

/// Counts failed logins per user name or email address. Each failure pushes
/// the counter's expiry `ttl` seconds into the future, so that pressure decays
/// by itself once attempts stop.
#[derive(Debug, Clone)]
pub struct FailedAuthCountService {
    pub ttl: u64,
    pub entries: Vec<FailedAuthEntry>,
}

/// Whether the entry at `i` is the one for `key`.
pub open spec fn entry_has_key(entries: Seq<FailedAuthEntry>, i: int, key: Seq<char>) -> bool {
    0 <= i < entries.len() && entries[i].key@ == key
}

/// The live count stored for `key` at time `now` (zero once expired or absent).
pub open spec fn count_in(entries: Seq<FailedAuthEntry>, key: Seq<char>, now: u64) -> nat {
    if exists|i: int| entry_has_key(entries, i, key) {
        let i = choose|i: int| entry_has_key(entries, i, key);
        if entries[i].expires_at > now {
            entries[i].count as nat
        } else {
            0
        }
    } else {
        0
    }
}

/// The count after one more failure at `now`: the live count plus one, held at
/// the largest `u64`.
pub open spec fn incremented(count: nat) -> nat {
    if count >= u64::MAX {
        u64::MAX as nat
    } else {
        count + 1
    }
}

/// `after` is `before` with one more failure recorded for `key` at `now`.
pub open spec fn bumped(
    before: FailedAuthCountService,
    after: FailedAuthCountService,
    key: Seq<char>,
    now: u64,
) -> bool {
    &&& after.ttl == before.ttl
    &&& after.count(key, now) == (if expiry(now, before.ttl) > now {
        incremented(before.count(key, now))
    } else {
        0
    })
    &&& forall|k: Seq<char>, t: u64| k != key ==> after.count(k, t) == before.count(k, t)
}

/// `after` is `before` with the failures recorded for `key` cleared.
pub open spec fn cleared(before: FailedAuthCountService, after: FailedAuthCountService, key: Seq<char>) -> bool {
    &&& after.ttl == before.ttl
    &&& forall|t: u64| after.count(key, t) == 0
    &&& forall|k: Seq<char>, t: u64| k != key ==> after.count(k, t) == before.count(k, t)
}

impl FailedAuthCountService {
    /// At most one entry per key.
    pub open spec fn wf(&self) -> bool {
        forall|i: int, j: int|
            0 <= i < self.entries@.len() && 0 <= j < self.entries@.len() && i != j
                ==> self.entries@[i].key@ != self.entries@[j].key@
    }

    /// The live count for an already normalized key.
    pub open spec fn count(&self, key: Seq<char>, now: u64) -> nat {
        count_in(self.entries@, key, now)
    }

    /// The live count for an identifier as typed.
    pub open spec fn count_for(&self, identifier: Seq<char>, now: u64) -> nat {
        self.count(lower_of(identifier), now)
    }

    pub fn new(ttl: u64) -> (r: Self)
        ensures
            r.wf(),
            r.ttl == ttl,
            forall|key: Seq<char>, now: u64| r.count(key, now) == 0,
    {
        FailedAuthCountService { ttl, entries: Vec::new() }
    }

    fn find(&self, key: &String) -> (r: Option<usize>)
        requires
            self.wf(),
        ensures
            r matches Some(i) ==> entry_has_key(self.entries@, i as int, key@),
            r is None ==> !exists|i: int| entry_has_key(self.entries@, i, key@),
    {
        let mut i: usize = 0;
        while i < self.entries.len()
            invariant
                i <= self.entries@.len(),
                forall|j: int| 0 <= j < i ==> self.entries@[j].key@ != key@,
            decreases self.entries@.len() - i,
        {
            if self.entries[i].key == *key {
                return Some(i);
            }
            i = i + 1;
        }
        None
    }

    proof fn lemma_count_at(&self, i: int, key: Seq<char>, now: u64)
        requires
            self.wf(),
            entry_has_key(self.entries@, i, key),
        ensures
            self.count(key, now) == (if self.entries@[i].expires_at > now {
                self.entries@[i].count as nat
            } else {
                0
            }),
    {
        let j = choose|j: int| entry_has_key(self.entries@, j, key);
        assert(j == i);
    }

    /// The number of recent failed logins for `identifier`.
    pub fn get(&self, identifier: &str, now: u64) -> (r: u64)
        requires
            self.wf(),
        ensures
            r as nat == self.count_for(identifier@, now),
    {
        let key = to_lowercase(identifier);
        match self.find(&key) {
            Some(i) => {
                proof {
                    self.lemma_count_at(i as int, key@, now);
                }
                if self.entries[i].expires_at > now {
                    self.entries[i].count
                } else {
                    0
                }
            },
            None => 0,
        }
    }

    /// Records one more failed login for `identifier` at `now`.
    pub fn increment(&mut self, identifier: &str, now: u64)
        requires
            old(self).wf(),
        ensures
            final(self).wf(),
            bumped(*old(self), *final(self), lower_of(identifier@), now),
    {
        let key = to_lowercase(identifier);
        let expires_at = compute_expiry(now, self.ttl);
        let ghost before = self.entries@;
        match self.find(&key) {
            Some(i) => {
                proof {
                    self.lemma_count_at(i as int, key@, now);
                }
                let live = if self.entries[i].expires_at > now {
                    self.entries[i].count
                } else {
                    0
                };
                let count = if live == u64::MAX {
                    live
                } else {
                    live + 1
                };
                let entry = FailedAuthEntry { key: key.clone(), count, expires_at };
                self.entries.set(i, entry);
                proof {
                    assert(entry_has_key(self.entries@, i as int, key@));
                    self.lemma_count_at(i as int, key@, now);
                    assert forall|k: Seq<char>, t: u64| k != key@ implies self.count(k, t)
                        == count_in(before, k, t) by {
                        if exists|j: int| entry_has_key(before, j, k) {
                            let j = choose|j: int| entry_has_key(before, j, k);
                            assert(entry_has_key(self.entries@, j, k));
                            self.lemma_count_at(j, k, t);
                        } else {
                            assert forall|j: int| !entry_has_key(self.entries@, j, k) by {
                                if entry_has_key(self.entries@, j, k) {
                                    assert(entry_has_key(before, j, k));
                                }
                            }
                        }
                    }
                }
            },
            None => {
                let entry = FailedAuthEntry { key: key.clone(), count: 1, expires_at };
                self.entries.push(entry);
                proof {
                    let n = before.len() as int;
                    assert forall|j: int| 0 <= j < n implies before[j].key@ != key@ by {
                        if before[j].key@ == key@ {
                            assert(entry_has_key(before, j, key@));
                        }
                    }
                    assert(self.wf());
                    assert(entry_has_key(self.entries@, n, key@));
                    self.lemma_count_at(n, key@, now);
                    assert forall|k: Seq<char>, t: u64| k != key@ implies self.count(k, t)
                        == count_in(before, k, t) by {
                        if exists|j: int| entry_has_key(before, j, k) {
                            let j = choose|j: int| entry_has_key(before, j, k);
                            assert(entry_has_key(self.entries@, j, k));
                            self.lemma_count_at(j, k, t);
                        } else {
                            assert forall|j: int| !entry_has_key(self.entries@, j, k) by {
                                if entry_has_key(self.entries@, j, k) && j < n {
                                    assert(entry_has_key(before, j, k));
                                }
                            }
                        }
                    }
                }
            },
        }
    }

    /// Clears the failed logins of `identifier`.
    pub fn reset(&mut self, identifier: &str)
        requires
            old(self).wf(),
        ensures
            final(self).wf(),
            cleared(*old(self), *final(self), lower_of(identifier@)),
    {
        let key = to_lowercase(identifier);
        let ghost before = self.entries@;
        match self.find(&key) {
            Some(i) => {
                let expires_at = self.entries[i].expires_at;
                let entry = FailedAuthEntry { key: key.clone(), count: 0, expires_at };
                self.entries.set(i, entry);
                proof {
                    assert forall|t: u64| self.count(key@, t) == 0 by {
                        self.lemma_count_at(i as int, key@, t);
                    }
                    assert forall|k: Seq<char>, t: u64| k != key@ implies self.count(k, t)
                        == count_in(before, k, t) by {
                        if exists|j: int| entry_has_key(before, j, k) {
                            let j = choose|j: int| entry_has_key(before, j, k);
                            assert(entry_has_key(self.entries@, j, k));
                            self.lemma_count_at(j, k, t);
                        } else {
                            assert forall|j: int| !entry_has_key(self.entries@, j, k) by {
                                if entry_has_key(self.entries@, j, k) {
                                    assert(entry_has_key(before, j, k));
                                }
                            }
                        }
                    }
                }
            },
            None => {},
        }
    }
}

/// Failures pile up: when every step from one state to the next records a
/// failure for `key` at the same moment `now`, while counters live at `now`,
/// then after `n` steps the count is at least `n` (short of the largest `u64`),
/// whatever it was before.
pub proof fn lemma_failures_accumulate(states: Seq<FailedAuthCountService>, key: Seq<char>, now: u64)
    requires
        states.len() >= 1,
        expiry(now, states[0].ttl) > now,
        forall|i: int| 0 <= i < states.len() - 1 ==> bumped(#[trigger] states[i], states[i + 1], key, now),
    ensures
        states.last().count(key, now) >= states[0].count(key, now),
        states.last().count(key, now) >= (if states.len() - 1 < u64::MAX {
            (states.len() - 1) as nat
        } else {
            u64::MAX as nat
        }),
        states.last().ttl == states[0].ttl,
    decreases states.len(),
{
    if states.len() > 1 {
        let prefix = states.drop_last();
        assert forall|i: int| 0 <= i < prefix.len() - 1 implies bumped(#[trigger] prefix[i], prefix[i + 1], key, now) by {
            assert(prefix[i] == states[i] && prefix[i + 1] == states[i + 1]);
        }
        lemma_failures_accumulate(prefix, key, now);
        let n = states.len() - 2;
        assert(bumped(states[n], states[n + 1], key, now));
    }
}

/// Recording a failure never lowers a count: while counters live at `now`,
/// every count at `now` after a failure is at least what it was before.
pub proof fn lemma_bump_never_lowers(
    before: FailedAuthCountService,
    after: FailedAuthCountService,
    key: Seq<char>,
    now: u64,
)
    requires
        bumped(before, after, key, now),
        expiry(now, before.ttl) > now,
    ensures
        forall|k: Seq<char>| #[trigger] after.count(k, now) >= before.count(k, now),
        after.ttl == before.ttl,
{
    assert forall|k: Seq<char>| #[trigger] after.count(k, now) >= before.count(k, now) by {
        if k != key {
            assert(after.count(k, now) == before.count(k, now));
        }
    }
}

} // verus!
