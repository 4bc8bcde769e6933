//! Sessions kept per host for reuse (HTTP/2 and HTTP/3 connections), and the
//! decisions of getting one: reuse a live session, wait while another caller
//! creates it, or create it. The caller runs the connection work and reports
//! back with `created` or `creation_failed`.
use vstd::prelude::*;
use crate::dns_cache::host_pos;
use crate::text::str_eq;

verus! {

broadcast use vstd::string::group_string_axioms;

/// Time a session is kept after its last use, in nanoseconds (5 minutes).
pub const DEFAULT_SESSION_TIMEOUT_NANOS: u128 = 300_000_000_000;

/// Whether a session last used at `last` is still live at `now`: less than
/// `timeout` has passed (a clock that went back counts as no time passed).
pub open spec fn session_live(last: u128, now: u128, timeout: u128) -> bool {
    (if now >= last { now - last } else { 0 }) < timeout
}

/// The sessions live at `now`, in order.
pub open spec fn live_sessions<S>(s: Seq<(Seq<char>, S, u128)>, now: u128, timeout: u128) -> Seq<(Seq<char>, S, u128)> {
    s.filter(|e: (Seq<char>, S, u128)| session_live(e.2, now, timeout))
}

/// What a caller asking for a session does next.
#[derive(Debug, Clone, Copy, PartialEq, Eq, Structural)]
pub enum SessionStep {
    /// Use the live session (see `get`); it was marked used now.
    Reuse,
    /// Another caller is creating the session: wait, then ask again.
    Wait,
    /// Create the session, then report `created` or `creation_failed`.
    Create,
}

/// The outcome of asking for a session for `key` at `now`: expired sessions
/// are dropped; a live one is reused (and marked used now); otherwise the
/// caller waits when the key is being created, or becomes its creator.
pub open spec fn acquire_outcome<S>(
    sessions: Seq<(Seq<char>, S, u128)>,
    pending: Seq<Seq<char>>,
    key: Seq<char>,
    now: u128,
    timeout: u128,
) -> (SessionStep, Seq<(Seq<char>, S, u128)>, Seq<Seq<char>>) {
    let live = live_sessions(sessions, now, timeout);
    match host_pos(live, key) {
        Some(i) => (SessionStep::Reuse, live.update(i, (key, live[i].1, now)), pending),
        None => if pending.contains(key) {
            (SessionStep::Wait, live, pending)
        } else {
            (SessionStep::Create, live, pending.push(key))
        },
    }
}

/// Whether a host differs from `key`.
pub open spec fn other_than(key: Seq<char>) -> spec_fn(Seq<char>) -> bool {
    |k: Seq<char>| k != key
}

/// `s` without the occurrences of `key`.
pub open spec fn without_key(s: Seq<Seq<char>>, key: Seq<char>) -> Seq<Seq<char>> {
    s.filter(other_than(key))
}

/// Sessions per host, and the hosts whose session is being created.
pub struct SessionPool<S> {
    sessions: Vec<(String, S, u128)>,
    pending: Vec<String>,
    timeout: u128,
}

impl<S> SessionPool<S> {
    /// The sessions: host, session and the time of last use.
    pub closed spec fn view_sessions(&self) -> Seq<(Seq<char>, S, u128)> {
        Seq::new(self.sessions@.len(), |i: int| (self.sessions@[i].0@, self.sessions@[i].1, self.sessions@[i].2))
    }

    /// The hosts whose session is being created.
    pub closed spec fn pending_keys(&self) -> Seq<Seq<char>> {
        Seq::new(self.pending@.len(), |i: int| self.pending@[i]@)
    }

    /// Time a session is kept after its last use, in nanoseconds.
    pub closed spec fn timeout_nanos(&self) -> u128 {
        self.timeout
    }

    /// Each host has one session at most and is pending once at most.
    pub open spec fn wf(&self) -> bool {
        &&& forall|i: int, j: int| 0 <= i < j < self.view_sessions().len() ==> #[trigger] self.view_sessions()[i].0
            != #[trigger] self.view_sessions()[j].0
        &&& self.pending_keys().no_duplicates()
    }

    /// An empty pool keeping sessions `timeout_nanos` after their last use.
    pub fn new(timeout_nanos: u128) -> (r: Self)
        ensures
            r.wf(),
            r.view_sessions().len() == 0,
            r.pending_keys().len() == 0,
            r.timeout_nanos() == timeout_nanos,
    {
        SessionPool { sessions: Vec::new(), pending: Vec::new(), timeout: timeout_nanos }
    }

    /// Index of the session for `key`.
    fn find(&self, key: &str) -> (r: Option<usize>)
        requires
            self.wf(),
        ensures
            r matches Some(i) ==> i < self.view_sessions().len() && self.view_sessions()[i as int].0 == key@,
            r is Some <==> host_pos(self.view_sessions(), key@) is Some,
            r matches Some(i) ==> host_pos(self.view_sessions(), key@) == Some(i as int),
    {
        let ghost s = self.view_sessions();
        let mut i: usize = 0;
        while i < self.sessions.len()
            invariant
                s == self.view_sessions(),
                self.wf(),
                i <= s.len(),
                forall|k: int| 0 <= k < i ==> #[trigger] s[k].0 != key@,
            decreases s.len() - i,
        {
            if str_eq(self.sessions[i].0.as_str(), key) {
                assert(s[i as int].0 == key@);
                let ghost c = choose|k: int| 0 <= k < s.len() && #[trigger] s[k].0 == key@;
                assert(c == i) by {
                    if c != i as int {
                        if c < i {
                            assert(s[c].0 != key@);
                        } else {
                            assert(s[i as int].0 != s[c].0);
                        }
                    }
                }
                return Some(i);
            }
            i = i + 1;
        }
        None
    }

    /// Index of `key` among the pending hosts.
    fn find_pending(&self, key: &str) -> (r: Option<usize>)
        ensures
            r matches Some(i) ==> i < self.pending_keys().len() && self.pending_keys()[i as int] == key@,
            r is None ==> !self.pending_keys().contains(key@),
    {
        let ghost p = self.pending_keys();
        let mut i: usize = 0;
        while i < self.pending.len()
            invariant
                p == self.pending_keys(),
                i <= p.len(),
                forall|k: int| 0 <= k < i ==> #[trigger] p[k] != key@,
            decreases p.len() - i,
        {
            if str_eq(self.pending[i].as_str(), key) {
                return Some(i);
            }
            i = i + 1;
        }
        None
    }

    /// The session for `key`, whether live or not.
    pub fn get(&self, key: &str) -> (r: Option<&S>)
        requires
            self.wf(),
        ensures
            match host_pos(self.view_sessions(), key@) {
                Some(i) => r == Some(&self.view_sessions()[i].1),
                None => r is None,
            },
    {
        match self.find(key) {
            Some(i) => Some(&self.sessions[i].1),
            None => None,
        }
    }

    /// Drops the sessions not live at `now`.
    pub fn cleanup_expired_sessions(&mut self, now: u128)
        requires
            old(self).wf(),
        ensures
            final(self).wf(),
            final(self).timeout_nanos() == old(self).timeout_nanos(),
            final(self).pending_keys() == old(self).pending_keys(),
            final(self).view_sessions() == live_sessions(old(self).view_sessions(), now, old(self).timeout_nanos()),
    {
        let ghost s = self.view_sessions();
        let mut rest: Vec<(String, S, u128)> = Vec::new();
        std::mem::swap(&mut rest, &mut self.sessions);
        let mut kept: Vec<(String, S, u128)> = Vec::new();
        let ghost n = s.len();
        let total: usize = rest.len();
        assert(total == n);
        let mut i: usize = 0;
        assert(Seq::new(rest@.len(), |k: int| (rest@[k].0@, rest@[k].1, rest@[k].2)) =~= s.skip(0));
        while rest.len() > 0
            invariant
                n == s.len(),
                n <= usize::MAX,
                i + rest@.len() == n,
                Seq::new(rest@.len(), |k: int| (rest@[k].0@, rest@[k].1, rest@[k].2)) == s.skip(i as int),
                Seq::new(kept@.len(), |k: int| (kept@[k].0@, kept@[k].1, kept@[k].2)) == live_sessions(
                    s.take(i as int),
                    now,
                    self.timeout,
                ),
                forall|a: int, b: int| 0 <= a < b < n ==> #[trigger] s[a].0 != #[trigger] s[b].0,
                forall|a: int, b: int| 0 <= a < b < kept@.len() ==> #[trigger] kept@[a].0@ != #[trigger] kept@[b].0@,
                forall|a: int| 0 <= a < kept@.len() ==> exists|m: int| 0 <= m < i && #[trigger] s[m].0 == (#[trigger] kept@[a]).0@,
            decreases rest@.len(),
        {
            let ghost rv = Seq::new(rest@.len(), |k: int| (rest@[k].0@, rest@[k].1, rest@[k].2));
            assert(rv[0] == s[i as int]);
            let e = rest.remove(0);
            assert(Seq::new(rest@.len(), |k: int| (rest@[k].0@, rest@[k].1, rest@[k].2)) =~= s.skip(i + 1)) by {
                assert forall|k: int| 0 <= k < rest@.len() implies (rest@[k].0@, rest@[k].1, rest@[k].2) == s.skip(i + 1)[k] by {
                    assert(rv[k + 1] == s.skip(i as int)[k + 1]);
                }
            }
            assert(s.take(i + 1).drop_last() =~= s.take(i as int));
            assert(s.take(i + 1).last() == s[i as int]);
            proof { reveal(Seq::filter); }
            assert(e.0@ == s[i as int].0);
            let elapsed: u128 = if now >= e.2 { now - e.2 } else { 0 };
            if elapsed < self.timeout {
                let ghost kb = kept@;
                kept.push(e);
                assert forall|a: int, b: int| 0 <= a < b < kept@.len() implies #[trigger] kept@[a].0@ != #[trigger] kept@[b].0@ by {
                    if b == kept@.len() - 1 {
                        assert(kept@[a] == kb[a]);
                        let m = choose|m: int| 0 <= m < i && #[trigger] s[m].0 == (#[trigger] kb[a]).0@;
                        assert(s[m].0 != s[i as int].0);
                    } else {
                        assert(kept@[a] == kb[a] && kept@[b] == kb[b]);
                    }
                }
                assert forall|a: int| 0 <= a < kept@.len() implies exists|m: int| 0 <= m < i + 1 && #[trigger] s[m].0 == (#[trigger] kept@[a]).0@ by {
                    if a == kept@.len() - 1 {
                        assert(s[i as int].0 == kept@[a].0@);
                    } else {
                        assert(kept@[a] == kb[a]);
                        let m = choose|m: int| 0 <= m < i && #[trigger] s[m].0 == (#[trigger] kb[a]).0@;
                        assert(s[m].0 == kept@[a].0@);
                    }
                }
            }
            i = i + 1;
            assert(Seq::new(kept@.len(), |k: int| (kept@[k].0@, kept@[k].1, kept@[k].2)) =~= live_sessions(
                s.take(i as int),
                now,
                self.timeout,
            ));
        }
        assert(s.take(n as int) =~= s);
        self.sessions = kept;
        assert forall|a: int, b: int| 0 <= a < b < self.view_sessions().len() implies #[trigger] self.view_sessions()[a].0
            != #[trigger] self.view_sessions()[b].0 by {
            assert(self.view_sessions()[a].0 == self.sessions@[a].0@ && self.view_sessions()[b].0 == self.sessions@[b].0@);
        }
    }
    /// Marks session `i` used at `now`.
    fn touch(&mut self, i: usize, now: u128)
        requires
            old(self).wf(),
            i < old(self).view_sessions().len(),
        ensures
            final(self).wf(),
            final(self).timeout_nanos() == old(self).timeout_nanos(),
            final(self).pending_keys() == old(self).pending_keys(),
            final(self).view_sessions() == old(self).view_sessions().update(
                i as int,
                (old(self).view_sessions()[i as int].0, old(self).view_sessions()[i as int].1, now),
            ),
    {
        let ghost s = self.view_sessions();
        let (k, v, _last) = self.sessions.remove(i);
        self.sessions.insert(i, (k, v, now));
        assert(self.view_sessions() =~= s.update(i as int, (s[i as int].0, s[i as int].1, now)));
        assert forall|a: int, b: int| 0 <= a < b < self.view_sessions().len() implies #[trigger] self.view_sessions()[a].0
            != #[trigger] self.view_sessions()[b].0 by {
            assert(self.view_sessions()[a].0 == s[a].0 && self.view_sessions()[b].0 == s[b].0);
        }
    }

    /// Asks for a session for `key` at `now`, as [`acquire_outcome`] states:
    /// `Reuse` a live session, `Wait` while another caller creates it, or
    /// `Create` it (the key is then pending until `created` or
    /// `creation_failed`).
    pub fn acquire(&mut self, key: &str, now: u128) -> (r: SessionStep)
        requires
            old(self).wf(),
        ensures
            final(self).wf(),
            final(self).timeout_nanos() == old(self).timeout_nanos(),
            (r, final(self).view_sessions(), final(self).pending_keys()) == acquire_outcome(
                old(self).view_sessions(),
                old(self).pending_keys(),
                key@,
                now,
                old(self).timeout_nanos(),
            ),
    {
        self.cleanup_expired_sessions(now);
        match self.find(key) {
            Some(i) => {
                self.touch(i, now);
                return SessionStep::Reuse;
            },
            None => {},
        }
        match self.find_pending(key) {
            Some(_) => SessionStep::Wait,
            None => {
                let ghost p = self.pending_keys();
                self.pending.push(String::from_str(key));
                assert(self.pending_keys() =~= p.push(key@));
                proof {
                    let q = self.pending_keys();
                    assert forall|a: int, b: int| 0 <= a < q.len() && 0 <= b < q.len() && a != b implies q[a] != q[b] by {
                        if a < p.len() && b < p.len() {
                            assert(q[a] == p[a] && q[b] == p[b]);
                        } else if a == p.len() {
                            assert(q[b] == p[b]);
                        } else {
                            assert(q[a] == p[a]);
                        }
                    }
                }
                SessionStep::Create
            },
        }
    }

    /// Drops `key` from the pending hosts.
    fn unpend(&mut self, key: &str)
        requires
            old(self).wf(),
        ensures
            final(self).wf(),
            final(self).timeout_nanos() == old(self).timeout_nanos(),
            final(self).view_sessions() == old(self).view_sessions(),
            final(self).pending_keys() == without_key(old(self).pending_keys(), key@),
    {
        let ghost p = self.pending_keys();
        match self.find_pending(key) {
            Some(i) => {
                self.pending.remove(i);
                assert(self.pending_keys() =~= p.remove(i as int));
                proof {
                    reveal(Seq::filter);
                    assert(p =~= p.take(i as int) + seq![key@] + p.skip(i + 1));
                    assert(!p.take(i as int).contains(key@)) by {
                        if p.take(i as int).contains(key@) {
                            let k = choose|k: int| 0 <= k < i && #[trigger] p.take(i as int)[k] == key@;
                            assert(p[k] == p[i as int]);
                        }
                    }
                    assert(!p.skip(i + 1).contains(key@)) by {
                        if p.skip(i + 1).contains(key@) {
                            let k = choose|k: int| 0 <= k < p.len() - i - 1 && #[trigger] p.skip(i + 1)[k] == key@;
                            assert(p[i + 1 + k] == p[i as int]);
                        }
                    }
                    Seq::filter_distributes_over_add(p.take(i as int) + seq![key@], p.skip(i + 1), other_than(key@));
                    Seq::filter_distributes_over_add(p.take(i as int), seq![key@], other_than(key@));
                    lemma_filter_absent(p.take(i as int), key@);
                    lemma_filter_absent(p.skip(i + 1), key@);
                    assert(seq![key@].drop_last() =~= Seq::<Seq<char>>::empty());
                    assert(seq![key@].last() == key@);
                    assert(!other_than(key@)(key@));
                    assert(seq![key@].drop_last().filter(other_than(key@)) =~= Seq::<Seq<char>>::empty());
                    assert(seq![key@].filter(other_than(key@)) =~= Seq::<Seq<char>>::empty());
                    assert(p.remove(i as int) =~= p.take(i as int) + p.skip(i + 1));
                    let q = self.pending_keys();
                    assert forall|a: int, b: int| 0 <= a < q.len() && 0 <= b < q.len() && a != b implies q[a] != q[b] by {
                        let ia = if a < i { a } else { a + 1 };
                        let ib = if b < i { b } else { b + 1 };
                        assert(q[a] == p[ia] && q[b] == p[ib]);
                    }
                    assert(q.no_duplicates());
                }
            },
            None => {
                proof { lemma_filter_absent(p, key@); }
            },
        }
        assert forall|a: int, b: int| 0 <= a < b < self.view_sessions().len() implies #[trigger] self.view_sessions()[a].0
            != #[trigger] self.view_sessions()[b].0 by {
            assert(self.view_sessions()[a] == old(self).view_sessions()[a]);
            assert(self.view_sessions()[b] == old(self).view_sessions()[b]);
        }
    }

    /// Records the session created for `key` at `now` (replacing any other
    /// session of the key) and ends its pending state.
    pub fn created(&mut self, key: &str, session: S, now: u128)
        requires
            old(self).wf(),
        ensures
            final(self).wf(),
            final(self).timeout_nanos() == old(self).timeout_nanos(),
            final(self).pending_keys() == without_key(old(self).pending_keys(), key@),
            match host_pos(old(self).view_sessions(), key@) {
                Some(i) => final(self).view_sessions() == old(self).view_sessions().update(i, (key@, session, now)),
                None => final(self).view_sessions() == old(self).view_sessions().push((key@, session, now)),
            },
    {
        let ghost s = self.view_sessions();
        match self.find(key) {
            Some(i) => {
                self.sessions.remove(i);
                self.sessions.insert(i, (String::from_str(key), session, now));
                assert(self.view_sessions() =~= s.update(i as int, (key@, session, now)));
                assert forall|a: int, b: int| 0 <= a < b < self.view_sessions().len() implies #[trigger] self.view_sessions()[a].0
                    != #[trigger] self.view_sessions()[b].0 by {
                    assert(self.view_sessions()[a].0 == s[a].0 && self.view_sessions()[b].0 == s[b].0);
                }
            },
            None => {
                self.sessions.push((String::from_str(key), session, now));
                assert(self.view_sessions() =~= s.push((key@, session, now)));
                assert forall|a: int, b: int| 0 <= a < b < self.view_sessions().len() implies #[trigger] self.view_sessions()[a].0
                    != #[trigger] self.view_sessions()[b].0 by {
                    if b < s.len() {
                        assert(self.view_sessions()[a].0 == s[a].0 && self.view_sessions()[b].0 == s[b].0);
                    } else {
                        assert(self.view_sessions()[a].0 == s[a].0);
                    }
                }
            },
        }
        self.unpend(key);
    }

    /// Ends the pending state of `key` after its creation failed.
    pub fn creation_failed(&mut self, key: &str)
        requires
            old(self).wf(),
        ensures
            final(self).wf(),
            final(self).timeout_nanos() == old(self).timeout_nanos(),
            final(self).view_sessions() == old(self).view_sessions(),
            final(self).pending_keys() == without_key(old(self).pending_keys(), key@),
    {
        self.unpend(key);
    }

    /// Drops the session of `key`, if any.
    pub fn remove_session(&mut self, key: &str)
        requires
            old(self).wf(),
        ensures
            final(self).wf(),
            final(self).timeout_nanos() == old(self).timeout_nanos(),
            final(self).pending_keys() == old(self).pending_keys(),
            match host_pos(old(self).view_sessions(), key@) {
                Some(i) => final(self).view_sessions() == old(self).view_sessions().remove(i),
                None => final(self).view_sessions() == old(self).view_sessions(),
            },
    {
        let ghost s = self.view_sessions();
        match self.find(key) {
            Some(i) => {
                self.sessions.remove(i);
                assert(self.view_sessions() =~= s.remove(i as int));
                assert forall|a: int, b: int| 0 <= a < b < self.view_sessions().len() implies #[trigger] self.view_sessions()[a].0
                    != #[trigger] self.view_sessions()[b].0 by {
                    let ia = if a < i { a } else { a + 1 };
                    let ib = if b < i { b } else { b + 1 };
                    assert(self.view_sessions()[a] == s[ia] && self.view_sessions()[b] == s[ib]);
                }
            },
            None => {},
        }
    }

    /// Drops every session.
    pub fn clear(&mut self)
        requires
            old(self).wf(),
        ensures
            final(self).wf(),
            final(self).timeout_nanos() == old(self).timeout_nanos(),
            final(self).pending_keys() == old(self).pending_keys(),
            final(self).view_sessions().len() == 0,
    {
        self.sessions.clear();
    }
}

/// Dropping a value that does not occur leaves a sequence as it is.
pub proof fn lemma_filter_absent(s: Seq<Seq<char>>, key: Seq<char>)
    requires
        !s.contains(key),
    ensures
        s.filter(other_than(key)) == s,
    decreases s.len(),
{
    reveal(Seq::filter);
    if s.len() > 0 {
        assert(!s.drop_last().contains(key)) by {
            if s.drop_last().contains(key) {
                let k = choose|k: int| 0 <= k < s.drop_last().len() && #[trigger] s.drop_last()[k] == key;
                assert(s[k] == key);
            }
        }
        lemma_filter_absent(s.drop_last(), key);
        assert(s.last() != key) by {
            assert(s[s.len() - 1] == s.last());
        }
        assert(s.drop_last().push(s.last()) =~= s);
    }
}

/// Filtering keeps no host that was absent.
proof fn lemma_live_keeps_absent<S>(s: Seq<(Seq<char>, S, u128)>, key: Seq<char>, now: u128, timeout: u128)
    requires
        host_pos(s, key) is None,
    ensures
        host_pos(live_sessions(s, now, timeout), key) is None,
{
    let pred = |e: (Seq<char>, S, u128)| session_live(e.2, now, timeout);
    let l = s.filter(pred);
    assert(l == live_sessions(s, now, timeout));
    if exists|i: int| 0 <= i < l.len() && #[trigger] l[i].0 == key {
        let i = choose|i: int| 0 <= i < l.len() && #[trigger] l[i].0 == key;
        assert(l.contains(l[i]));
        s.lemma_filter_contains_rev(pred, l[i]);
        assert(s.contains(l[i]));
        let j = choose|j: int| 0 <= j < s.len() && s[j] == l[i];
        assert(s[j].0 == key);
    }
}

/// While a host's session is being created, another caller asking for it
/// waits: after one caller was told to create a session, a second request
/// for the same host (at any time, before `created` or `creation_failed`)
/// is told to wait.
pub proof fn lemma_single_creator<S>(
    sessions: Seq<(Seq<char>, S, u128)>,
    pending: Seq<Seq<char>>,
    key: Seq<char>,
    first: u128,
    second: u128,
    timeout: u128,
)
    requires
        acquire_outcome(sessions, pending, key, first, timeout).0 == SessionStep::Create,
    ensures
        acquire_outcome(
            acquire_outcome(sessions, pending, key, first, timeout).1,
            acquire_outcome(sessions, pending, key, first, timeout).2,
            key,
            second,
            timeout,
        ).0 == SessionStep::Wait,
{
    let live = live_sessions(sessions, first, timeout);
    assert(host_pos(live, key) is None);
    lemma_live_keeps_absent(live, key, second, timeout);
    let p1 = pending.push(key);
    assert(p1[pending.len() as int] == key);
    assert(p1.contains(key));
}

} // verus!
