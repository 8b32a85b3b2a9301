//! The set of users currently seen as online.
//!
//! Backed by a vector of unique names; viewed in specifications as the
//! sequence of their character strings.

use vstd::prelude::*;

verus! {

/// The online-user set of the shared room state.  Each username occurs at
/// most once.
pub struct OnlineUsers {
    names: Vec<String>,
}

impl View for OnlineUsers {
    type V = Seq<Seq<char>>;

    closed spec fn view(&self) -> Seq<Seq<char>> {
        self.names@.map_values(|s: String| s@)
    }
}

impl OnlineUsers {
    /// No username occurs twice.
    pub open spec fn wf(self) -> bool {
        forall|i: int, j: int| 0 <= i < j < self@.len() ==> self@[i] != self@[j]
    }

    /// Whether the user is in the set.
    pub open spec fn contains_name(self, n: Seq<char>) -> bool {
        exists|i: int| 0 <= i < self@.len() && self@[i] == n
    }

    /// Number of online users.
    pub open spec fn count(self) -> nat {
        self@.len()
    }

    /// Creates the empty set.
    pub fn new() -> (r: OnlineUsers)
        ensures
            r.wf(),
            r.count() == 0,
            forall|n: Seq<char>| !r.contains_name(n),
    {
        OnlineUsers { names: Vec::new() }
    }

    /// Number of online users, as an executable value.
    pub fn len(&self) -> (r: usize)
        ensures
            r == self.count(),
    {
        self.names.len()
    }

    /// Whether `name` is in the set.
    pub fn contains(&self, name: &String) -> (r: bool)
        ensures
            r == self.contains_name(name@),
    {
        let n = self.names.len();
        let mut i: usize = 0;
        while i < n
            invariant
                i <= n,
                n == self.names@.len(),
                forall|k: int| 0 <= k < i ==> self@[k] != name@,
            decreases n - i,
        {
            if self.names[i].eq(name) {
                proof {
                    assert(self@[i as int] == name@);
                }
                return true;
            }
            i += 1;
        }
        false
    }

    /// Adds a user; a user already present stays present once.
    pub fn insert(&mut self, name: String)
        requires
            old(self).wf(),
        ensures
            final(self).wf(),
            final(self).contains_name(name@),
            forall|n: Seq<char>|
                #[trigger] final(self).contains_name(n) <==> (old(self).contains_name(n) || n
                    == name@),
            final(self).count() == if old(self).contains_name(name@) {
                old(self).count()
            } else {
                old(self).count() + 1
            },
    {
        if !self.contains(&name) {
            let ghost pre = self@;
            self.names.push(name);
            proof {
                assert(self@ =~= pre.push(name@));
                assert(self@[pre.len() as int] == name@);
                assert forall|n: Seq<char>| #[trigger]
                    self.contains_name(n) <==> (old(self).contains_name(n) || n == name@) by {
                    if self.contains_name(n) {
                        let i = choose|i: int| 0 <= i < self@.len() && self@[i] == n;
                        if i < pre.len() {
                            assert(old(self)@[i] == n);
                        }
                    }
                    if old(self).contains_name(n) {
                        let i = choose|i: int| 0 <= i < pre.len() && pre[i] == n;
                        assert(self@[i] == n);
                    }
                    if n == name@ {
                        assert(self@[pre.len() as int] == n);
                    }
                }
            }
        }
    }

    /// Removes a user; absent users are unaffected.
    pub fn remove(&mut self, name: &String)
        requires
            old(self).wf(),
        ensures
            final(self).wf(),
            forall|n: Seq<char>|
                #[trigger] final(self).contains_name(n) <==> (old(self).contains_name(n) && n
                    != name@),
            final(self).count() == if old(self).contains_name(name@) {
                (old(self).count() - 1) as nat
            } else {
                old(self).count()
            },
    {
        let n = self.names.len();
        let mut i: usize = 0;
        while i < n
            invariant
                i <= n,
                n == self.names@.len(),
                *self == *old(self),
                old(self).wf(),
                forall|k: int| 0 <= k < i ==> self@[k] != name@,
            decreases n - i,
        {
            if self.names[i].eq(name) {
                let ghost pre = self@;
                let ghost ii = i as int;
                assert(pre[ii] == name@);
                self.names.remove(i);
                proof {
                    assert(self@ =~= pre.remove(ii));
                    pre.remove_ensures(ii);
                    assert forall|x: int, y: int| 0 <= x < y < pre.len() implies pre[x]
                        != pre[y] by {
                        assert(old(self)@[x] != old(self)@[y]);
                    }
                    assert forall|a: int, b: int|
                        0 <= a < b < self@.len() implies self@[a] != self@[b] by {
                        if a < ii {
                            assert(self@[a] == pre[a]);
                        } else {
                            assert(self@[a] == pre[a + 1]);
                        }
                        if b < ii {
                            assert(self@[b] == pre[b]);
                        } else {
                            assert(self@[b] == pre[b + 1]);
                        }
                    }
                    assert forall|k: int|
                        0 <= k < pre.len() && k != ii implies pre[k] != name@ by {
                        if k < ii {
                            assert(pre[k] != pre[ii]);
                        } else {
                            assert(pre[ii] != pre[k]);
                        }
                    }
                    assert forall|n2: Seq<char>| #[trigger]
                        self.contains_name(n2) <==> (old(self).contains_name(n2) && n2
                            != name@) by {
                        lemma_remove_contains(pre, ii, n2);
                    }
                }
                return ;
            }
            i += 1;
        }
        proof {
            assert(!old(self).contains_name(name@));
        }
    }

    /// Copies the names out, in their stored order.
    pub fn to_vec(&self) -> (r: Vec<String>)
        ensures
            r@.len() == self@.len(),
            forall|i: int| 0 <= i < r@.len() ==> r@[i]@ == self@[i],
    {
        let n = self.names.len();
        let mut r: Vec<String> = Vec::new();
        let mut i: usize = 0;
        while i < n
            invariant
                i <= n,
                n == self.names@.len(),
                r@.len() == i,
                forall|k: int| 0 <= k < i ==> r@[k]@ == self@[k],
            decreases n - i,
        {
            r.push(self.names[i].clone());
            i += 1;
        }
        r
    }
}

/// Membership in a sequence with one element removed: every name but the
/// removed index's survives at a shifted position.
proof fn lemma_remove_contains(s: Seq<Seq<char>>, i: int, n: Seq<char>)
    requires
        0 <= i < s.len(),
    ensures
        (exists|k: int| 0 <= k < s.remove(i).len() && s.remove(i)[k] == n) <==> (exists|k: int|
            0 <= k < s.len() && k != i && s[k] == n),
{
    let r = s.remove(i);
    if exists|k: int| 0 <= k < r.len() && r[k] == n {
        let k = choose|k: int| 0 <= k < r.len() && r[k] == n;
        if k < i {
            assert(s[k] == n);
        } else {
            assert(s[k + 1] == n);
        }
    }
    if exists|k: int| 0 <= k < s.len() && k != i && s[k] == n {
        let k = choose|k: int| 0 <= k < s.len() && k != i && s[k] == n;
        if k < i {
            assert(r[k] == n);
        } else {
            assert(r[k - 1] == n);
        }
    }
}

} // verus!
