//! Presence registry: per-user expiry deadlines and timeout eviction.
//!
//! Every received announce refreshes the user's deadline to `now` plus the
//! presence timeout; a sweep removes every entry whose deadline has passed,
//! together with the user's online entry, and reports when to wake next.
//! Peers are expected to re-announce before their timeout lapses; absence of
//! re-announcement is the only leave signal besides an explicit leave.

use vstd::prelude::*;

use crate::users::OnlineUsers;

verus! {

/// How long a user stays online after an announce, in milliseconds.
pub const PRESENCE_TIMEOUT_MS: u64 = 10_000;

/// Fallback sweep interval, in milliseconds: with no pending deadline the
/// sweep wakes again after this long instead of computing a minimum of
/// nothing.
pub const SWEEP_POLL_MS: u64 = 10_000;

/// Whether the name list holds the given name.
pub open spec fn name_listed(names: Seq<String>, n: Seq<char>) -> bool {
    exists|k: int| 0 <= k < names.len() && names[k]@ == n
}

/// Whether some entry of the sequence carries the given name.
pub open spec fn entries_have(s: Seq<(Seq<char>, u64)>, n: Seq<char>) -> bool {
    exists|i: int| 0 <= i < s.len() && s[i].0 == n
}

/// The deadline the sequence holds for the given name (meaningful only
/// where [`entries_have`] holds and names are unique).
pub open spec fn entries_deadline(s: Seq<(Seq<char>, u64)>, n: Seq<char>) -> u64 {
    s[choose|i: int| 0 <= i < s.len() && s[i].0 == n].1
}

/// The presence registry: one expiry deadline per announced user.
pub struct PresenceRegistry {
    entries: Vec<(String, u64)>,
}

impl View for PresenceRegistry {
    type V = Seq<(Seq<char>, u64)>;

    closed spec fn view(&self) -> Seq<(Seq<char>, u64)> {
        self.entries@.map_values(|e: (String, u64)| (e.0@, e.1))
    }
}

impl PresenceRegistry {
    /// No username occurs twice.
    pub open spec fn wf(self) -> bool {
        forall|i: int, j: int| 0 <= i < j < self@.len() ==> self@[i].0 != self@[j].0
    }

    /// Whether the user has an entry.
    pub open spec fn has(self, n: Seq<char>) -> bool {
        entries_have(self@, n)
    }

    /// The user's deadline (meaningful only where [`PresenceRegistry::has`]
    /// holds).
    pub open spec fn deadline_of(self, n: Seq<char>) -> u64 {
        entries_deadline(self@, n)
    }

    /// Number of entries.
    pub open spec fn count(self) -> nat {
        self@.len()
    }

    /// In a well-formed registry an entry at `i` fixes the deadline of its
    /// name: there is exactly one entry for it.
    pub proof fn lemma_deadline_at(self, i: int)
        requires
            self.wf(),
            0 <= i < self@.len(),
        ensures
            self.has(self@[i].0),
            self.deadline_of(self@[i].0) == self@[i].1,
    {
        let n = self@[i].0;
        assert(entries_have(self@, n));
        let j = choose|j: int| 0 <= j < self@.len() && self@[j].0 == n;
        if i < j {
            assert(self@[i].0 != self@[j].0);
        } else if j < i {
            assert(self@[j].0 != self@[i].0);
        }
    }

    /// Creates the empty registry.
    pub fn new() -> (r: PresenceRegistry)
        ensures
            r.wf(),
            r.count() == 0,
            forall|n: Seq<char>| !r.has(n),
    {
        PresenceRegistry { entries: Vec::new() }
    }

    /// Number of entries, as an executable value.
    pub fn len(&self) -> (r: usize)
        ensures
            r == self.count(),
    {
        self.entries.len()
    }

    /// The deadline registered for `name`, if any.
    pub fn deadline_ms(&self, name: &String) -> (r: Option<u64>)
        requires
            self.wf(),
        ensures
            match r {
                Some(d) => self.has(name@) && d == self.deadline_of(name@),
                None => !self.has(name@),
            },
    {
        let n = self.entries.len();
        let mut i: usize = 0;
        while i < n
            invariant
                i <= n,
                n == self.entries@.len(),
                self.wf(),
                forall|k: int| 0 <= k < i ==> self@[k].0 != name@,
            decreases n - i,
        {
            if self.entries[i].0.eq(name) {
                proof {
                    assert(self@[i as int].0 == name@);
                    self.lemma_deadline_at(i as int);
                }
                return Some(self.entries[i].1);
            }
            i += 1;
        }
        None
    }

    /// Inserts or refreshes the entry for `name` with deadline
    /// `now + PRESENCE_TIMEOUT_MS`.
    pub fn touch(&mut self, name: &String, now: u64)
        requires
            old(self).wf(),
            now + PRESENCE_TIMEOUT_MS <= u64::MAX,
        ensures
            final(self).wf(),
            final(self).has(name@),
            final(self).deadline_of(name@) == now + PRESENCE_TIMEOUT_MS,
            forall|n: Seq<char>|
                n != name@ ==> (#[trigger] final(self).has(n) <==> old(self).has(n)),
            forall|n: Seq<char>|
                n != name@ && old(self).has(n) ==> #[trigger] final(self).deadline_of(n) == old(
                    self,
                ).deadline_of(n),
            final(self).count() == if old(self).has(name@) {
                old(self).count()
            } else {
                old(self).count() + 1
            },
    {
        let deadline = now + PRESENCE_TIMEOUT_MS;
        let n = self.entries.len();
        let mut i: usize = 0;
        while i < n
            invariant
                i <= n,
                n == self.entries@.len(),
                *self == *old(self),
                old(self).wf(),
                deadline == now + PRESENCE_TIMEOUT_MS,
                forall|k: int| 0 <= k < i ==> self@[k].0 != name@,
            decreases n - i,
        {
            if self.entries[i].0.eq(name) {
                let ghost pre = self@;
                let ghost ii = i as int;
                assert(pre[ii].0 == name@);
                self.entries[i] = (name.clone(), deadline);
                proof {
                    assert(self@ =~= pre.update(ii, (name@, deadline)));
                    assert forall|a: int, b: int|
                        0 <= a < b < self@.len() implies self@[a].0 != self@[b].0 by {
                        assert(pre[a].0 != pre[b].0);
                    }
                    assert(self@[ii].0 == name@);
                    self.lemma_deadline_at(ii);
                    assert forall|n2: Seq<char>|
                        n2 != name@ implies (#[trigger] self.has(n2) <==> old(self).has(
                        n2,
                    )) by {
                        if self.has(n2) {
                            let k = choose|k: int|
                                0 <= k < self@.len() && self@[k].0 == n2;
                            assert(pre[k].0 == n2);
                        }
                        if old(self).has(n2) {
                            let k = choose|k: int| 0 <= k < pre.len() && pre[k].0 == n2;
                            assert(self@[k].0 == n2);
                        }
                    }
                    assert forall|n2: Seq<char>|
                        n2 != name@ && old(self).has(n2) implies #[trigger] self.deadline_of(
                        n2,
                    ) == old(self).deadline_of(n2) by {
                        let k = choose|k: int| 0 <= k < pre.len() && pre[k].0 == n2;
                        assert(self@[k].0 == n2);
                        self.lemma_deadline_at(k);
                        old(self).lemma_deadline_at(k);
                    }
                }
                return ;
            }
            i += 1;
        }
        let ghost pre = self@;
        self.entries.push((name.clone(), deadline));
        proof {
            assert(self@ =~= pre.push((name@, deadline)));
            assert(forall|k: int| 0 <= k < pre.len() ==> pre[k].0 != name@);
            assert forall|a: int, b: int|
                0 <= a < b < self@.len() implies self@[a].0 != self@[b].0 by {
                if b < pre.len() {
                    assert(pre[a].0 != pre[b].0);
                } else {
                    assert(self@[b].0 == name@);
                    assert(self@[a].0 == pre[a].0);
                }
            }
            assert(self@[pre.len() as int].0 == name@);
            self.lemma_deadline_at(pre.len() as int);
            assert forall|n2: Seq<char>|
                n2 != name@ implies (#[trigger] self.has(n2) <==> old(self).has(n2)) by {
                if self.has(n2) {
                    let k = choose|k: int| 0 <= k < self@.len() && self@[k].0 == n2;
                    assert(k < pre.len());
                    assert(pre[k].0 == n2);
                }
                if old(self).has(n2) {
                    let k = choose|k: int| 0 <= k < pre.len() && pre[k].0 == n2;
                    assert(self@[k].0 == n2);
                }
            }
            assert forall|n2: Seq<char>|
                n2 != name@ && old(self).has(n2) implies #[trigger] self.deadline_of(n2)
                == old(self).deadline_of(n2) by {
                let k = choose|k: int| 0 <= k < pre.len() && pre[k].0 == n2;
                assert(self@[k].0 == n2);
                self.lemma_deadline_at(k);
                old(self).lemma_deadline_at(k);
            }
            assert(!old(self).has(name@));
        }
    }

    /// Deletes the entry for `name`, if any.
    pub fn remove(&mut self, name: &String)
        requires
            old(self).wf(),
        ensures
            final(self).wf(),
            forall|n: Seq<char>|
                #[trigger] final(self).has(n) <==> (old(self).has(n) && n != name@),
            forall|n: Seq<char>|
                n != name@ && old(self).has(n) ==> #[trigger] final(self).deadline_of(n) == old(
                    self,
                ).deadline_of(n),
    {
        let n = self.entries.len();
        let mut i: usize = 0;
        while i < n
            invariant
                i <= n,
                n == self.entries@.len(),
                *self == *old(self),
                old(self).wf(),
                forall|k: int| 0 <= k < i ==> self@[k].0 != name@,
            decreases n - i,
        {
            if self.entries[i].0.eq(name) {
                let ghost pre = self@;
                let ghost ii = i as int;
                assert(pre[ii].0 == name@);
                self.entries.remove(i);
                proof {
                    assert(self@ =~= pre.remove(ii));
                    pre.remove_ensures(ii);
                    assert forall|a: int, b: int|
                        0 <= a < b < self@.len() implies self@[a].0 != self@[b].0 by {
                        if a < ii {
                            assert(self@[a] == pre[a]);
                        } else {
                            assert(self@[a] == pre[a + 1]);
                        }
                        if b < ii {
                            assert(self@[b] == pre[b]);
                        } else {
                            assert(self@[b] == pre[b + 1]);
                        }
                    }
                    assert forall|k: int|
                        0 <= k < pre.len() && k != ii implies pre[k].0 != name@ by {
                        if k < ii {
                            assert(pre[k].0 != pre[ii].0);
                        } else {
                            assert(pre[ii].0 != pre[k].0);
                        }
                    }
                    assert forall|n2: Seq<char>| #[trigger]
                        self.has(n2) <==> (old(self).has(n2) && n2 != name@) by {
                        if self.has(n2) {
                            let k = choose|k: int|
                                0 <= k < self@.len() && self@[k].0 == n2;
                            if k < ii {
                                assert(pre[k].0 == n2);
                            } else {
                                assert(pre[k + 1].0 == n2);
                            }
                        }
                        if old(self).has(n2) && n2 != name@ {
                            let k = choose|k: int| 0 <= k < pre.len() && pre[k].0 == n2;
                            if k < ii {
                                assert(self@[k].0 == n2);
                            } else {
                                assert(self@[k - 1].0 == n2);
                            }
                        }
                    }
                    assert forall|n2: Seq<char>|
                        n2 != name@ && old(self).has(n2) implies #[trigger] self.deadline_of(
                        n2,
                    ) == old(self).deadline_of(n2) by {
                        let k = choose|k: int| 0 <= k < pre.len() && pre[k].0 == n2;
                        old(self).lemma_deadline_at(k);
                        if k < ii {
                            assert(self@[k] == pre[k]);
                            self.lemma_deadline_at(k);
                        } else {
                            assert(self@[k - 1] == pre[k]);
                            self.lemma_deadline_at(k - 1);
                        }
                    }
                }
                return ;
            }
            i += 1;
        }
        proof {
            assert(!old(self).has(name@));
        }
    }

    /// The names whose deadline lies before `now`.
    #[verifier::rlimit(100)]
    fn expired_names(&self, now: u64) -> (r: Vec<String>)
        requires
            self.wf(),
        ensures
            forall|n: Seq<char>|
                #[trigger] name_listed(r@, n) <==> (self.has(n) && self.deadline_of(n) < now),
    {
        let n = self.entries.len();
        let mut r: Vec<String> = Vec::new();
        let mut i: usize = 0;
        while i < n
            invariant
                i <= n,
                n == self.entries@.len(),
                self.wf(),
                forall|n2: Seq<char>|
                    #[trigger] name_listed(r@, n2) <==> (exists|j: int|
                        0 <= j < i && self@[j].0 == n2 && self@[j].1 < now),
            decreases n - i,
        {
            let d = self.entries[i].1;
            proof {
                assert(self@[i as int].1 == d);
            }
            let ghost orr = r@;
            let ghost ii = i as int;
            if d < now {
                let name = self.entries[i].0.clone();
                proof {
                    assert(name@ == self@[ii].0);
                }
                r.push(name);
                proof {
                    assert(r@[orr.len() as int]@ == self@[ii].0);
                    assert forall|n2: Seq<char>|
                        #[trigger] name_listed(r@, n2) <==> (exists|j: int|
                            0 <= j < i + 1 && self@[j].0 == n2 && self@[j].1 < now) by {
                        if name_listed(r@, n2) {
                            let k = choose|k: int| 0 <= k < r@.len() && r@[k]@ == n2;
                            if k < orr.len() {
                                assert(r@[k] == orr[k]);
                                assert(name_listed(orr, n2));
                                let j = choose|j: int|
                                    0 <= j < i && self@[j].0 == n2 && self@[j].1 < now;
                                assert(0 <= j < i + 1 && self@[j].0 == n2 && self@[j].1
                                    < now);
                            } else {
                                assert(n2 == self@[ii].0);
                                assert(0 <= ii < i + 1 && self@[ii].0 == n2 && self@[ii].1
                                    < now);
                            }
                        }
                        if exists|j: int| 0 <= j < i + 1 && self@[j].0 == n2 && self@[j].1
                            < now {
                            let j = choose|j: int|
                                0 <= j < i + 1 && self@[j].0 == n2 && self@[j].1 < now;
                            if j < ii {
                                assert(name_listed(orr, n2));
                                let k = choose|k: int|
                                    0 <= k < orr.len() && orr[k]@ == n2;
                                assert(r@[k]@ == n2);
                                assert(name_listed(r@, n2));
                            } else {
                                assert(r@[orr.len() as int]@ == n2);
                                assert(name_listed(r@, n2));
                            }
                        }
                    }
                }
            } else {
                proof {
                    assert forall|n2: Seq<char>|
                        #[trigger] name_listed(r@, n2) <==> (exists|j: int|
                            0 <= j < i + 1 && self@[j].0 == n2 && self@[j].1 < now) by {
                        if name_listed(r@, n2) {
                            let j = choose|j: int|
                                0 <= j < i && self@[j].0 == n2 && self@[j].1 < now;
                            assert(0 <= j < i + 1 && self@[j].0 == n2 && self@[j].1 < now);
                        }
                        if exists|j: int| 0 <= j < i + 1 && self@[j].0 == n2 && self@[j].1
                            < now {
                            let j = choose|j: int|
                                0 <= j < i + 1 && self@[j].0 == n2 && self@[j].1 < now;
                            assert(j < i);
                            assert(name_listed(r@, n2));
                        }
                    }
                }
            }
            i += 1;
        }
        proof {
            assert forall|n2: Seq<char>|
                #[trigger] name_listed(r@, n2) <==> (self.has(n2) && self.deadline_of(n2)
                    < now) by {
                if name_listed(r@, n2) {
                    let j = choose|j: int|
                        0 <= j < self@.len() && self@[j].0 == n2 && self@[j].1 < now;
                    self.lemma_deadline_at(j);
                }
                if self.has(n2) && self.deadline_of(n2) < now {
                    let j = choose|j: int| 0 <= j < self@.len() && self@[j].0 == n2;
                    self.lemma_deadline_at(j);
                    assert(0 <= j < n && self@[j].0 == n2 && self@[j].1 < now);
                    assert(name_listed(r@, n2));
                }
            }
        }
        r
    }

    /// Deletes the entry of each listed name.
    fn remove_names(&mut self, names: &Vec<String>)
        requires
            old(self).wf(),
        ensures
            final(self).wf(),
            forall|n: Seq<char>|
                #[trigger] final(self).has(n) <==> (old(self).has(n) && !name_listed(names@, n)),
            forall|n: Seq<char>|
                final(self).has(n) ==> #[trigger] final(self).deadline_of(n) == old(
                    self,
                ).deadline_of(n),
    {
        let n = names.len();
        let mut i: usize = 0;
        while i < n
            invariant
                i <= n,
                n == names@.len(),
                self.wf(),
                forall|n2: Seq<char>|
                    #[trigger] self.has(n2) <==> (old(self).has(n2) && !(exists|k: int|
                        0 <= k < i && names@[k]@ == n2)),
                forall|n2: Seq<char>|
                    self.has(n2) ==> #[trigger] self.deadline_of(n2) == old(self).deadline_of(
                        n2,
                    ),
            decreases n - i,
        {
            self.remove(&names[i]);
            i += 1;
        }
    }

    /// The next wake instant: the earliest deadline still registered,
    /// capped at `now + SWEEP_POLL_MS`; the bare cap where the registry is
    /// empty, so an empty registry never makes this fail.
    pub fn next_deadline(&self, now: u64) -> (next: u64)
        requires
            self.wf(),
            now + SWEEP_POLL_MS <= u64::MAX,
        ensures
            next <= now + SWEEP_POLL_MS,
            forall|n: Seq<char>| #[trigger] self.has(n) ==> next <= self.deadline_of(n),
            next == now + SWEEP_POLL_MS || exists|n: Seq<char>|
                self.has(n) && self.deadline_of(n) == next,
            self.count() == 0 ==> next == now + SWEEP_POLL_MS,
    {
        let n = self.entries.len();
        let mut next: u64 = now + SWEEP_POLL_MS;
        let mut i: usize = 0;
        while i < n
            invariant
                i <= n,
                n == self.entries@.len(),
                self.wf(),
                next <= now + SWEEP_POLL_MS,
                forall|j: int| 0 <= j < i ==> next <= #[trigger] self@[j].1,
                next == now + SWEEP_POLL_MS || exists|j: int|
                    0 <= j < i && #[trigger] self@[j].1 == next,
            decreases n - i,
        {
            let d = self.entries[i].1;
            proof {
                assert(self@[i as int].1 == d);
            }
            if d < next {
                next = d;
            }
            i += 1;
        }
        proof {
            assert forall|n2: Seq<char>| #[trigger]
                self.has(n2) implies next <= self.deadline_of(n2) by {
                let j = choose|j: int| 0 <= j < self@.len() && self@[j].0 == n2;
                self.lemma_deadline_at(j);
            }
            if next != now + SWEEP_POLL_MS {
                let j = choose|j: int| 0 <= j < self@.len() && self@[j].1 == next;
                self.lemma_deadline_at(j);
                assert(self.has(self@[j].0) && self.deadline_of(self@[j].0) == next);
            }
        }
        next
    }

    /// Evicts every entry whose deadline lies before `now` and returns the
    /// evicted names together with the next wake instant: the earliest
    /// remaining deadline, capped at `now + SWEEP_POLL_MS`.
    pub fn sweep_registry(&mut self, now: u64) -> (r: (Vec<String>, u64))
        requires
            old(self).wf(),
            now + SWEEP_POLL_MS <= u64::MAX,
        ensures
            final(self).wf(),
            forall|n: Seq<char>|
                #[trigger] final(self).has(n) <==> (old(self).has(n) && old(self).deadline_of(n)
                    >= now),
            forall|n: Seq<char>|
                final(self).has(n) ==> #[trigger] final(self).deadline_of(n) == old(
                    self,
                ).deadline_of(n),
            forall|n: Seq<char>|
                #[trigger] name_listed(r.0@, n) <==> (old(self).has(n) && old(self).deadline_of(
                    n,
                ) < now),
            r.1 <= now + SWEEP_POLL_MS,
            forall|n: Seq<char>|
                #[trigger] final(self).has(n) ==> r.1 <= final(self).deadline_of(n),
            r.1 == now + SWEEP_POLL_MS || exists|n: Seq<char>|
                final(self).has(n) && final(self).deadline_of(n) == r.1,
            old(self).count() == 0 ==> r.1 == now + SWEEP_POLL_MS,
    {
        let expired = self.expired_names(now);
        self.remove_names(&expired);
        let next = self.next_deadline(now);
        proof {
            if old(self).count() == 0 {
                if self.count() > 0 {
                    self.lemma_deadline_at(0);
                    assert(old(self).has(self@[0].0));
                    assert(false);
                }
            }
        }
        (expired, next)
    }
}

/// One full sweep: evicts every expired entry from the registry and the
/// online set, and returns the next wake instant (the earliest remaining
/// deadline, capped at `now + SWEEP_POLL_MS`).  An empty registry is no
/// error: the sweep then reports the bare poll interval.
pub fn sweep(reg: &mut PresenceRegistry, users: &mut OnlineUsers, now: u64) -> (next: u64)
    requires
        old(reg).wf(),
        old(users).wf(),
        now + SWEEP_POLL_MS <= u64::MAX,
    ensures
        final(reg).wf(),
        final(users).wf(),
        forall|n: Seq<char>|
            #[trigger] final(reg).has(n) <==> (old(reg).has(n) && old(reg).deadline_of(n)
                >= now),
        forall|n: Seq<char>|
            final(reg).has(n) ==> #[trigger] final(reg).deadline_of(n) == old(reg).deadline_of(
                n,
            ),
        forall|n: Seq<char>|
            #[trigger] final(users).contains_name(n) <==> (old(users).contains_name(n) && !(old(
                reg,
            ).has(n) && old(reg).deadline_of(n) < now)),
        next <= now + SWEEP_POLL_MS,
        forall|n: Seq<char>|
            #[trigger] final(reg).has(n) ==> next <= final(reg).deadline_of(n),
        next == now + SWEEP_POLL_MS || exists|n: Seq<char>|
            final(reg).has(n) && final(reg).deadline_of(n) == next,
        old(reg).count() == 0 ==> next == now + SWEEP_POLL_MS,
{
    let r = reg.sweep_registry(now);
    remove_all(users, &r.0);
    r.1
}

/// Presence timeout: after an announce for `u` applied at time `t`, with no
/// further announce or leave for `u`, a sweep that runs strictly before
/// `t` plus the timeout keeps `u` online, and one that runs strictly after
/// it evicts `u` from both the registry and the online set.  The `requires`
/// restate what [`PresenceRegistry::touch`], [`OnlineUsers::insert`] and
/// [`sweep`] ensure.
pub proof fn lemma_presence_timeout(
    reg: PresenceRegistry,
    users: OnlineUsers,
    reg1: PresenceRegistry,
    users1: OnlineUsers,
    u: Seq<char>,
    t: u64,
    now: u64,
)
    requires
        t + PRESENCE_TIMEOUT_MS <= u64::MAX,
        reg.has(u),
        reg.deadline_of(u) == t + PRESENCE_TIMEOUT_MS,
        users.contains_name(u),
        forall|n: Seq<char>|
            #[trigger] reg1.has(n) <==> (reg.has(n) && reg.deadline_of(n) >= now),
        forall|n: Seq<char>|
            #[trigger] users1.contains_name(n) <==> (users.contains_name(n) && !(reg.has(n)
                && reg.deadline_of(n) < now)),
    ensures
        now < t + PRESENCE_TIMEOUT_MS ==> reg1.has(u) && users1.contains_name(u),
        now > t + PRESENCE_TIMEOUT_MS ==> !reg1.has(u) && !users1.contains_name(u),
{
}

/// Explicit leave: removing `u` takes `u` out of the online set whatever
/// deadline the registry still holds for `u`.  The `requires` restates what
/// [`OnlineUsers::remove`] ensures.
pub proof fn lemma_explicit_leave(users: OnlineUsers, users1: OnlineUsers, u: Seq<char>)
    requires
        forall|n: Seq<char>|
            #[trigger] users1.contains_name(n) <==> (users.contains_name(n) && n != u),
    ensures
        !users1.contains_name(u),
{
}

/// Idempotent re-announce: a repeated announce for a user who is still
/// registered and online keeps exactly one entry for the user, extends its
/// deadline to `now` plus the timeout, and leaves both the entry count and
/// the online-set size unchanged.  The `requires` restate what
/// [`PresenceRegistry::touch`] and [`OnlineUsers::insert`] ensure.
pub proof fn lemma_reannounce_idempotent(
    reg: PresenceRegistry,
    users: OnlineUsers,
    reg1: PresenceRegistry,
    users1: OnlineUsers,
    u: Seq<char>,
    now: u64,
)
    requires
        reg1.wf(),
        reg.has(u),
        users.contains_name(u),
        reg1.deadline_of(u) == now + PRESENCE_TIMEOUT_MS,
        reg1.count() == if reg.has(u) {
            reg.count()
        } else {
            reg.count() + 1
        },
        users1.count() == if users.contains_name(u) {
            users.count()
        } else {
            users.count() + 1
        },
    ensures
        reg1.count() == reg.count(),
        users1.count() == users.count(),
        reg1.deadline_of(u) == now + PRESENCE_TIMEOUT_MS,
        forall|i: int, j: int|
            0 <= i < reg1@.len() && 0 <= j < reg1@.len() && reg1@[i].0 == u && reg1@[j].0 == u
                ==> i == j,
{
    assert forall|i: int, j: int|
        0 <= i < reg1@.len() && 0 <= j < reg1@.len() && reg1@[i].0 == u && reg1@[j].0 == u
            implies i == j by {
        if i < j {
            assert(reg1@[i].0 != reg1@[j].0);
        } else if j < i {
            assert(reg1@[j].0 != reg1@[i].0);
        }
    }
}

/// Removes each listed name from the online-user set.
pub fn remove_all(users: &mut OnlineUsers, names: &Vec<String>)
    requires
        old(users).wf(),
    ensures
        final(users).wf(),
        forall|n: Seq<char>|
            #[trigger] final(users).contains_name(n) <==> (old(users).contains_name(n)
                && !name_listed(names@, n)),
{
    let n = names.len();
    let mut i: usize = 0;
    while i < n
        invariant
            i <= n,
            n == names@.len(),
            users.wf(),
            forall|n2: Seq<char>|
                #[trigger] users.contains_name(n2) <==> (old(users).contains_name(n2) && !(
                exists|k: int| 0 <= k < i && names@[k]@ == n2)),
        decreases n - i,
    {
        users.remove(&names[i]);
        i += 1;
    }
}

} // verus!
