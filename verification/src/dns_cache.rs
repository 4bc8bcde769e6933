//! The address cache of the DNS helper: entries per host name, each with
//! the time it was stored, fresh until the time to live has passed.
use vstd::prelude::*;
use crate::text::str_eq;

verus! {

broadcast use vstd::string::group_string_axioms;

/// Whether an entry stored at `stored` has expired at `now` (strictly more
/// than `ttl` has passed; a clock that went back counts as no time passed).
pub open spec fn expired(stored: u128, now: u128, ttl: u128) -> bool {
    now > stored && now - stored > ttl
}

/// Index of the entry for `host`.
pub open spec fn host_pos<V>(s: Seq<(Seq<char>, V, u128)>, host: Seq<char>) -> Option<int> {
    if exists|i: int| 0 <= i < s.len() && #[trigger] s[i].0 == host {
        Some(choose|i: int| 0 <= i < s.len() && #[trigger] s[i].0 == host)
    } else {
        None
    }
}

/// Number of entries expired at `now`.
pub open spec fn expired_count<V>(s: Seq<(Seq<char>, V, u128)>, now: u128, ttl: u128) -> nat
    decreases s.len(),
{
    if s.len() == 0 {
        0
    } else {
        expired_count(s.drop_last(), now, ttl) + if expired(s.last().2, now, ttl) {
            1nat
        } else {
            0nat
        }
    }
}

/// The entries not expired at `now`, in order.
pub open spec fn fresh_entries<V>(s: Seq<(Seq<char>, V, u128)>, now: u128, ttl: u128) -> Seq<(Seq<char>, V, u128)> {
    s.filter(|e: (Seq<char>, V, u128)| !expired(e.2, now, ttl))
}

/// Cache of values per host name with a time to live, in nanoseconds.
pub struct DnsCache<V> {
    entries: Vec<(String, V, u128)>,
    ttl: u128,
}

impl<V> DnsCache<V> {
    /// The entries: host, value and the time they were stored.
    pub closed spec fn view_entries(&self) -> Seq<(Seq<char>, V, u128)> {
        Seq::new(self.entries@.len(), |i: int| (self.entries@[i].0@, self.entries@[i].1, self.entries@[i].2))
    }

    /// Time to live, in nanoseconds.
    pub closed spec fn ttl_nanos(&self) -> u128 {
        self.ttl
    }

    /// Each host occurs once.
    pub open spec fn wf(&self) -> bool {
        forall|i: int, j: int| 0 <= i < j < self.view_entries().len() ==> #[trigger] self.view_entries()[i].0
            != #[trigger] self.view_entries()[j].0
    }

    /// An empty cache.
    pub fn new(ttl_nanos: u128) -> (r: Self)
        ensures
            r.wf(),
            r.view_entries().len() == 0,
            r.ttl_nanos() == ttl_nanos,
    {
        DnsCache { entries: Vec::new(), ttl: ttl_nanos }
    }

    /// Index of the entry for `host`.
    fn find(&self, host: &str) -> (r: Option<usize>)
        requires
            self.wf(),
        ensures
            r matches Some(i) ==> i < self.view_entries().len() && self.view_entries()[i as int].0 == host@,
            r is Some <==> host_pos(self.view_entries(), host@) is Some,
            r matches Some(i) ==> host_pos(self.view_entries(), host@) == Some(i as int),
    {
        let ghost s = self.view_entries();
        let mut i: usize = 0;
        while i < self.entries.len()
            invariant
                s == self.view_entries(),
                self.wf(),
                i <= s.len(),
                forall|k: int| 0 <= k < i ==> #[trigger] s[k].0 != host@,
            decreases s.len() - i,
        {
            if str_eq(self.entries[i].0.as_str(), host) {
                assert(s[i as int].0 == host@);
                let ghost c = choose|k: int| 0 <= k < s.len() && #[trigger] s[k].0 == host@;
                assert(c == i) by {
                    if c != i as int {
                        if c < i {
                            assert(s[c].0 != host@);
                        } else {
                            assert(s[i as int].0 != s[c].0);
                        }
                    }
                }
                return Some(i);
            }
            i = i + 1;
        }
        None
    }

    /// The value for `host` while it is fresh at `now`.
    pub fn get(&self, host: &str, now: u128) -> (r: Option<&V>)
        requires
            self.wf(),
        ensures
            match host_pos(self.view_entries(), host@) {
                Some(i) => if expired(self.view_entries()[i].2, now, self.ttl_nanos()) {
                    r is None
                } else {
                    r == Some(&self.view_entries()[i].1)
                },
                None => r is None,
            },
    {
        match self.find(host) {
            Some(i) => {
                let stored: u128 = self.entries[i].2;
                if now > stored && now - stored > self.ttl {
                    None
                } else {
                    Some(&self.entries[i].1)
                }
            },
            None => None,
        }
    }

    /// Stores the value for `host` at `now`, replacing an older entry.
    pub fn put(&mut self, host: &str, value: V, now: u128)
        requires
            old(self).wf(),
        ensures
            final(self).wf(),
            final(self).ttl_nanos() == old(self).ttl_nanos(),
            match host_pos(old(self).view_entries(), host@) {
                Some(i) => final(self).view_entries() == old(self).view_entries().update(i, (host@, value, now)),
                None => final(self).view_entries() == old(self).view_entries().push((host@, value, now)),
            },
    {
        let ghost s = self.view_entries();
        match self.find(host) {
            Some(i) => {
                self.entries.set(i, (String::from_str(host), value, now));
                assert(self.view_entries() =~= s.update(i as int, (host@, value, now)));
                assert forall|a: int, b: int| 0 <= a < b < self.view_entries().len() implies #[trigger] self.view_entries()[a].0
                    != #[trigger] self.view_entries()[b].0 by {
                    assert(self.view_entries()[a].0 == s[a].0 && self.view_entries()[b].0 == s[b].0);
                }
            },
            None => {
                self.entries.push((String::from_str(host), value, now));
                assert(self.view_entries() =~= s.push((host@, value, now)));
                assert forall|a: int, b: int| 0 <= a < b < self.view_entries().len() implies #[trigger] self.view_entries()[a].0
                    != #[trigger] self.view_entries()[b].0 by {
                    if b < s.len() {
                        assert(self.view_entries()[a].0 == s[a].0 && self.view_entries()[b].0 == s[b].0);
                    } else {
                        assert(self.view_entries()[a].0 == s[a].0);
                    }
                }
            },
        }
    }

    /// Drops the entry for `host`, if any.
    pub fn invalidate(&mut self, host: &str)
        requires
            old(self).wf(),
        ensures
            final(self).wf(),
            final(self).ttl_nanos() == old(self).ttl_nanos(),
            match host_pos(old(self).view_entries(), host@) {
                Some(i) => final(self).view_entries() == old(self).view_entries().remove(i),
                None => final(self).view_entries() == old(self).view_entries(),
            },
    {
        let ghost s = self.view_entries();
        match self.find(host) {
            Some(i) => {
                self.entries.remove(i);
                assert(self.view_entries() =~= s.remove(i as int));
                assert forall|a: int, b: int| 0 <= a < b < self.view_entries().len() implies #[trigger] self.view_entries()[a].0
                    != #[trigger] self.view_entries()[b].0 by {
                    let ia = if a < i { a } else { a + 1 };
                    let ib = if b < i { b } else { b + 1 };
                    assert(self.view_entries()[a] == s[ia] && self.view_entries()[b] == s[ib]);
                }
            },
            None => {},
        }
    }

    /// Drops every entry.
    pub fn clear(&mut self)
        ensures
            final(self).wf(),
            final(self).ttl_nanos() == old(self).ttl_nanos(),
            final(self).view_entries().len() == 0,
    {
        self.entries.clear();
    }

    /// Number of entries, and how many of them have expired at `now`.
    pub fn stats(&self, now: u128) -> (r: (usize, usize))
        ensures
            r.0 == self.view_entries().len(),
            r.1 == expired_count(self.view_entries(), now, self.ttl_nanos()),
    {
        let ghost s = self.view_entries();
        let mut expired_n: usize = 0;
        let mut i: usize = 0;
        while i < self.entries.len()
            invariant
                s == self.view_entries(),
                i <= s.len(),
                expired_n == expired_count(s.take(i as int), now, self.ttl),
                expired_n <= i,
            decreases s.len() - i,
        {
            assert(s.take(i + 1).drop_last() =~= s.take(i as int));
            let stored: u128 = self.entries[i].2;
            if now > stored && now - stored > self.ttl {
                expired_n = expired_n + 1;
            }
            i = i + 1;
        }
        assert(s.take(i as int) =~= s);
        (self.entries.len(), expired_n)
    }

    /// Drops the entries expired at `now` and says how many there were.
    pub fn cleanup_expired(&mut self, now: u128) -> (r: usize)
        requires
            old(self).wf(),
        ensures
            final(self).wf(),
            final(self).ttl_nanos() == old(self).ttl_nanos(),
            final(self).view_entries() == fresh_entries(old(self).view_entries(), now, old(self).ttl_nanos()),
            r == expired_count(old(self).view_entries(), now, old(self).ttl_nanos()),
    {
        let ghost s = self.view_entries();
        let mut rest: Vec<(String, V, u128)> = Vec::new();
        std::mem::swap(&mut rest, &mut self.entries);
        let mut removed: usize = 0;
        let mut kept: Vec<(String, V, u128)> = Vec::new();
        let ghost n = s.len();
        let total: usize = rest.len();
        assert(total == n);
        let mut i: usize = 0;
        assert(Seq::new(rest@.len(), |k: int| (rest@[k].0@, rest@[k].1, rest@[k].2)) =~= s.skip(0));
        while rest.len() > 0
            invariant
                n == s.len(),
                i + rest@.len() == n,
                Seq::new(rest@.len(), |k: int| (rest@[k].0@, rest@[k].1, rest@[k].2)) == s.skip(i as int),
                Seq::new(kept@.len(), |k: int| (kept@[k].0@, kept@[k].1, kept@[k].2)) == fresh_entries(
                    s.take(i as int),
                    now,
                    self.ttl,
                ),
                removed == expired_count(s.take(i as int), now, self.ttl),
                removed <= i,
                n <= usize::MAX,
                forall|a: int, b: int| 0 <= a < b < n ==> #[trigger] s[a].0 != #[trigger] s[b].0,
                forall|a: int, b: int| 0 <= a < b < kept@.len() ==> #[trigger] kept@[a].0@ != #[trigger] kept@[b].0@,
                forall|a: int| 0 <= a < kept@.len() ==> exists|m: int| 0 <= m < i && #[trigger] s[m].0 == (#[trigger] kept@[a]).0@,
            decreases rest@.len(),
        {
            let ghost rv = Seq::new(rest@.len(), |k: int| (rest@[k].0@, rest@[k].1, rest@[k].2));
            assert(rv[0] == s[i as int]);
            let e = rest.remove(0);
            assert(Seq::new(rest@.len(), |k: int| (rest@[k].0@, rest@[k].1, rest@[k].2)) =~= s.skip(i + 1)) by {
                assert forall|k: int| 0 <= k < rest@.len() implies (rest@[k].0@, rest@[k].1, rest@[k].2) == s.skip(i + 1)[k] by {
                    assert(rv[k + 1] == s.skip(i as int)[k + 1]);
                }
            }
            assert(s.take(i + 1).drop_last() =~= s.take(i as int));
            assert(s.take(i + 1).last() == s[i as int]);
            proof { reveal(Seq::filter); }
            assert(e.0@ == s[i as int].0);
            if now > e.2 && now - e.2 > self.ttl {
                removed = removed + 1;
            } else {
                let ghost kb = kept@;
                kept.push(e);
                assert forall|a: int, b: int| 0 <= a < b < kept@.len() implies #[trigger] kept@[a].0@ != #[trigger] kept@[b].0@ by {
                    if b == kept@.len() - 1 {
                        assert(kept@[a] == kb[a]);
                        let m = choose|m: int| 0 <= m < i && #[trigger] s[m].0 == (#[trigger] kb[a]).0@;
                        assert(s[m].0 != s[i as int].0);
                    } else {
                        assert(kept@[a] == kb[a] && kept@[b] == kb[b]);
                    }
                }
                assert forall|a: int| 0 <= a < kept@.len() implies exists|m: int| 0 <= m < i + 1 && #[trigger] s[m].0 == (#[trigger] kept@[a]).0@ by {
                    if a == kept@.len() - 1 {
                        assert(s[i as int].0 == kept@[a].0@);
                    } else {
                        assert(kept@[a] == kb[a]);
                        let m = choose|m: int| 0 <= m < i && #[trigger] s[m].0 == (#[trigger] kb[a]).0@;
                        assert(s[m].0 == kept@[a].0@);
                    }
                }
            }
            i = i + 1;
            assert(Seq::new(kept@.len(), |k: int| (kept@[k].0@, kept@[k].1, kept@[k].2)) =~= fresh_entries(
                s.take(i as int),
                now,
                self.ttl,
            ));
        }
        assert(s.take(n as int) =~= s);
        self.entries = kept;
        assert forall|a: int, b: int| 0 <= a < b < self.view_entries().len() implies #[trigger] self.view_entries()[a].0
            != #[trigger] self.view_entries()[b].0 by {
            assert(self.view_entries()[a].0 == self.entries@[a].0@ && self.view_entries()[b].0 == self.entries@[b].0@);
        }
        removed
    }
}

} // verus!
