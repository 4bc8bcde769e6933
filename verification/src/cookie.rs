//! HTTP cookies: `Set-Cookie` parsing, a per-domain cookie store, domain and
//! path matching and the `Cookie` request header.
use vstd::prelude::*;
use crate::text::{
    chars_of, ends_with, eq_ignore_ascii_case, find_char, first_index_from, parse_unsigned, parse_unsigned_chars,
    range_eq_ignore_ascii_case, range_starts_with_ignore_ascii_case, starts_with, starts_with_ignore_ascii_case,
    str_ends_with, str_eq, str_starts_with, string_of_range, trim, trim_bounds,
};
use crate::unicode::{lowercase, to_lowercase};

verus! {

broadcast use vstd::string::group_string_axioms;

/// Nanoseconds since the Unix epoch by the system clock, or 0 for a clock
/// set before the epoch. Calls `SystemTime::elapsed` on the epoch; the
/// contract states of the time only that it is at most `Duration::MAX`
/// (2^64 - 1 seconds and 999 999 999 nanoseconds), the largest duration.
#[verifier::external_body]
pub(crate) fn now_nanos() -> (r: u128)
    ensures
        r <= MAX_DURATION_NANOS,
{
    match std::time::UNIX_EPOCH.elapsed() {
        Ok(d) => d.as_nanos(),
        Err(_) => 0,
    }
}

/// Nanoseconds in a second.
pub const NANOS_PER_SEC: u128 = 1000000000;

/// Nanoseconds in the largest `Duration`.
pub const MAX_DURATION_NANOS: u128 = 18446744073709551615u128 * 1000000000u128 + 999999999u128;

/// The model of an optional cookie.
pub open spec fn cookie_opt_view(c: Option<Cookie>) -> Option<CookieModel> {
    match c {
        Some(k) => Some(k@),
        None => None,
    }
}

/// Latest clock reading for which adding any `Max-Age` stays representable.
pub const MAX_NOW: u128 = 0xffff_ffff_ffff_ffff_ffff_ffff_ffff_ffff - 18446744073709551615u128 * 1000000000u128;

/// SameSite attribute
#[derive(Debug, Clone, PartialEq, Eq, Structural)]
pub enum SameSite {
    Strict,
    Lax,
    /// `SameSite=None`.
    NoRestriction,
}

/// The abstract content of a [`Cookie`].
pub struct CookieModel {
    pub name: Seq<char>,
    pub value: Seq<char>,
    pub domain: Seq<char>,
    pub path: Seq<char>,
    pub expires: Option<u128>,
    pub max_age: Option<u64>,
    pub secure: bool,
    pub http_only: bool,
    pub same_site: Option<SameSite>,
}

/// Cookie
#[derive(Debug, Clone)]
pub struct Cookie {
    pub name: String,
    pub value: String,
    pub domain: String,
    pub path: String,
    /// Expiry as nanoseconds since the Unix epoch.
    pub expires: Option<u128>,
    /// `Max-Age` in seconds.
    pub max_age: Option<u64>,
    pub secure: bool,
    pub http_only: bool,
    pub same_site: Option<SameSite>,
}

impl View for Cookie {
    type V = CookieModel;

    open spec fn view(&self) -> CookieModel {
        CookieModel {
            name: self.name@,
            value: self.value@,
            domain: self.domain@,
            path: self.path@,
            expires: self.expires,
            max_age: self.max_age,
            secure: self.secure,
            http_only: self.http_only,
            same_site: self.same_site,
        }
    }
}

/// A cookie with default attributes: path `/`, no expiry, not secure, not
/// HTTP-only, no SameSite.
pub open spec fn base_cookie(name: Seq<char>, value: Seq<char>, domain: Seq<char>) -> CookieModel {
    CookieModel {
        name,
        value,
        domain,
        path: "/"@,
        expires: None,
        max_age: None,
        secure: false,
        http_only: false,
        same_site: None,
    }
}

/// Whether the cookie has expired at time `now`.
pub open spec fn expired_at(c: CookieModel, now: u128) -> bool {
    c.expires matches Some(t) && now > t
}

/// `name=value`.
pub open spec fn header_value_text(c: CookieModel) -> Seq<char> {
    c.name + "="@ + c.value
}

/// The SameSite value of an attribute value, matched up to ASCII case.
pub open spec fn same_site_of(v: Seq<char>) -> Option<SameSite> {
    if eq_ignore_ascii_case(v, "strict"@) {
        Some(SameSite::Strict)
    } else if eq_ignore_ascii_case(v, "lax"@) {
        Some(SameSite::Lax)
    } else if eq_ignore_ascii_case(v, "none"@) {
        Some(SameSite::NoRestriction)
    } else {
        None
    }
}

/// The cookie after one `Set-Cookie` attribute, trimmed and matched up to
/// ASCII case: `Domain=`, `Path=`, `Max-Age=` (a valid number of seconds
/// also sets the expiry to `now` plus that time), `Secure`, `HttpOnly`,
/// `SameSite=`; anything else is ignored.
pub open spec fn apply_attr(c: CookieModel, raw: Seq<char>, now: u128) -> CookieModel {
    let part = trim(raw);
    if starts_with_ignore_ascii_case(part, "domain="@) {
        CookieModel { domain: part.subrange(7, part.len() as int), ..c }
    } else if starts_with_ignore_ascii_case(part, "path="@) {
        CookieModel { path: part.subrange(5, part.len() as int), ..c }
    } else if starts_with_ignore_ascii_case(part, "max-age="@) {
        match parse_unsigned(part.subrange(8, part.len() as int), u64::MAX as nat) {
            Some(secs) => CookieModel {
                max_age: Some(secs as u64),
                expires: Some((now + secs * NANOS_PER_SEC) as u128),
                ..c
            },
            None => c,
        }
    } else if eq_ignore_ascii_case(part, "secure"@) {
        CookieModel { secure: true, ..c }
    } else if eq_ignore_ascii_case(part, "httponly"@) {
        CookieModel { http_only: true, ..c }
    } else if starts_with_ignore_ascii_case(part, "samesite="@) {
        CookieModel { same_site: same_site_of(part.subrange(9, part.len() as int)), ..c }
    } else {
        c
    }
}

/// The cookie after the `;`-separated attributes in `s`, in order.
pub open spec fn apply_attrs(c: CookieModel, s: Seq<char>, now: u128) -> CookieModel
    decreases s.len(),
{
    match first_index_from(s, ';', 0) {
        None => apply_attr(c, s, now),
        Some(i) => if 0 <= i < s.len() {
            apply_attrs(apply_attr(c, s.subrange(0, i), now), s.subrange(i + 1, s.len() as int), now)
        } else {
            c
        },
    }
}

/// Decoding of a `Set-Cookie` header at time `now`: the part before the
/// first `;` must hold exactly one `=`, splitting the trimmed name and
/// value; the remaining parts are attributes.
pub open spec fn parse_cookie(header: Seq<char>, domain: Seq<char>, now: u128) -> Option<CookieModel> {
    let first_end = match first_index_from(header, ';', 0) {
        Some(i) => i,
        None => header.len() as int,
    };
    let first = header.subrange(0, first_end);
    match first_index_from(first, '=', 0) {
        None => None,
        Some(e) => if first_index_from(first, '=', e + 1) is Some {
            None
        } else {
            let c = base_cookie(
                trim(first.subrange(0, e)),
                trim(first.subrange(e + 1, first.len() as int)),
                domain,
            );
            if first_end < header.len() {
                Some(apply_attrs(c, header.subrange(first_end + 1, header.len() as int), now))
            } else {
                Some(c)
            }
        },
    }
}

impl Cookie {
    /// A cookie with default attributes: path `/`, no expiry, not secure,
    /// not HTTP-only, no SameSite.
    pub fn new(name: String, value: String, domain: String) -> (r: Self)
        ensures
            r@ == base_cookie(name@, value@, domain@),
    {
        Cookie {
            name,
            value,
            domain,
            path: String::from_str("/"),
            expires: None,
            max_age: None,
            secure: false,
            http_only: false,
            same_site: None,
        }
    }

    /// A copy of the cookie.
    pub fn duplicate(&self) -> (r: Self)
        ensures
            r@ == self@,
    {
        Cookie {
            name: self.name.clone(),
            value: self.value.clone(),
            domain: self.domain.clone(),
            path: self.path.clone(),
            expires: self.expires,
            max_age: self.max_age,
            secure: self.secure,
            http_only: self.http_only,
            same_site: match &self.same_site {
                Some(SameSite::Strict) => Some(SameSite::Strict),
                Some(SameSite::Lax) => Some(SameSite::Lax),
                Some(SameSite::NoRestriction) => Some(SameSite::NoRestriction),
                None => None,
            },
        }
    }

    /// Whether the cookie has expired at time `now` (nanoseconds since the
    /// Unix epoch).
    pub fn is_expired_at(&self, now: u128) -> (r: bool)
        ensures
            r == expired_at(self@, now),
    {
        match self.expires {
            Some(t) => now > t,
            None => false,
        }
    }

    /// Whether the cookie has expired by the system clock; one without an
    /// expiry never has.
    pub fn is_expired(&self) -> (r: bool)
        ensures
            self.expires is None ==> !r,
            exists|now: u128| r == expired_at(self@, now),
    {
        let now: u128 = now_nanos();
        self.is_expired_at(now)
    }

    /// `name=value`, as sent in a `Cookie` header.
    pub fn to_header_value(&self) -> (r: String)
        ensures
            r@ == header_value_text(self@),
    {
        let mut s: String = self.name.clone();
        s.append("=");
        s.append(self.value.as_str());
        s
    }

    /// Parses a `Set-Cookie` header at time `now` (nanoseconds since the
    /// Unix epoch).
    pub fn parse_set_cookie_at(header: &str, domain: String, now: u128) -> (r: Option<Self>)
        requires
            now <= MAX_NOW,
        ensures
            r is Some <==> parse_cookie(header@, domain@, now) is Some,
            r matches Some(c) ==> parse_cookie(header@, domain@, now) == Some(c@),
    {
        let cs: Vec<char> = chars_of(header);
        let n: usize = cs.len();
        let first_end: usize = match find_char(cs.as_slice(), ';', 0, n) {
            Some(i) => {
                proof { crate::text::lemma_first_index_props(cs@, ';', 0); }
                i
            },
            None => n,
        };
        let first: Vec<char> = vstd::slice::slice_to_vec(&cs.as_slice()[0..first_end]);
        assert(first@ =~= cs@.subrange(0, first_end as int));
        let e: usize = match find_char(first.as_slice(), '=', 0, first_end) {
            Some(e) => e,
            None => {
                return None;
            },
        };
        proof { crate::text::lemma_first_index_props(first@, '=', 0); }
        if find_char(first.as_slice(), '=', e + 1, first_end).is_some() {
            return None;
        }
        let (a, b) = trim_bounds(first.as_slice(), 0, e);
        let (c, d) = trim_bounds(first.as_slice(), e + 1, first_end);
        let mut cookie: Cookie = Cookie::new(
            string_of_range(first.as_slice(), a, b),
            string_of_range(first.as_slice(), c, d),
            domain,
        );
        if first_end == n {
            return Some(cookie);
        }
        let mut pos: usize = first_end + 1;
        let ghost target = parse_cookie(header@, domain@, now);
        assert(target == Some(apply_attrs(cookie@, cs@.subrange(pos as int, n as int), now)));
        loop
            invariant
                pos <= n == cs@.len(),
                now <= MAX_NOW,
                target == parse_cookie(header@, domain@, now),
                target == Some(apply_attrs(cookie@, cs@.subrange(pos as int, n as int), now)),
            decreases n - pos,
        {
            let ghost rest = cs@.subrange(pos as int, n as int);
            proof { crate::text::lemma_first_index_suffix(cs@, ';', pos as int, 0); }
            match find_char(cs.as_slice(), ';', pos, n) {
                None => {
                    Self::apply_attr(&mut cookie, &cs, pos, n, now);
                    return Some(cookie);
                },
                Some(i) => {
                    proof { crate::text::lemma_first_index_props(cs@, ';', pos as int); }
                    assert(rest.subrange(0, i - pos) =~= cs@.subrange(pos as int, i as int));
                    assert(rest.subrange(i - pos + 1, rest.len() as int) =~= cs@.subrange(i + 1, n as int));
                    Self::apply_attr(&mut cookie, &cs, pos, i, now);
                    pos = i + 1;
                },
            }
        }
    }

    /// Applies the attribute `cs[lo..hi]`.
    fn apply_attr(cookie: &mut Cookie, cs: &Vec<char>, lo: usize, hi: usize, now: u128)
        requires
            lo <= hi <= cs@.len(),
            now <= MAX_NOW,
        ensures
            final(cookie)@ == apply_attr(old(cookie)@, cs@.subrange(lo as int, hi as int), now),
    {
        let ghost raw = cs@.subrange(lo as int, hi as int);
        let (a, b) = trim_bounds(cs.as_slice(), lo, hi);
        let ghost part = cs@.subrange(a as int, b as int);
        assert(part == trim(raw));
        if range_starts_with_ignore_ascii_case(cs.as_slice(), a, b, "domain=") {
            proof { reveal_strlit("domain="); }
            cookie.domain = string_of_range(cs.as_slice(), a + 7, b);
            assert(cookie.domain@ =~= part.subrange(7, part.len() as int));
        } else if range_starts_with_ignore_ascii_case(cs.as_slice(), a, b, "path=") {
            proof { reveal_strlit("path="); }
            cookie.path = string_of_range(cs.as_slice(), a + 5, b);
            assert(cookie.path@ =~= part.subrange(5, part.len() as int));
        } else if range_starts_with_ignore_ascii_case(cs.as_slice(), a, b, "max-age=") {
            proof { reveal_strlit("max-age="); }
            assert(cs@.subrange(a + 8, b as int) =~= part.subrange(8, part.len() as int));
            match parse_unsigned_chars(cs.as_slice(), a + 8, b, u64::MAX) {
                Some(secs) => {
                    cookie.max_age = Some(secs);
                    assert((secs as u128) * NANOS_PER_SEC <= 18446744073709551615u128 * 1000000000u128) by (nonlinear_arith)
                        requires
                            secs <= 18446744073709551615u64,
                    {
                    }
                    cookie.expires = Some(now + (secs as u128) * NANOS_PER_SEC);
                },
                None => {},
            }
        } else if range_eq_ignore_ascii_case(cs.as_slice(), a, b, "secure") {
            cookie.secure = true;
        } else if range_eq_ignore_ascii_case(cs.as_slice(), a, b, "httponly") {
            cookie.http_only = true;
        } else if range_starts_with_ignore_ascii_case(cs.as_slice(), a, b, "samesite=") {
            proof { reveal_strlit("samesite="); }
            assert(cs@.subrange(a + 9, b as int) =~= part.subrange(9, part.len() as int));
            if range_eq_ignore_ascii_case(cs.as_slice(), a + 9, b, "strict") {
                cookie.same_site = Some(SameSite::Strict);
            } else if range_eq_ignore_ascii_case(cs.as_slice(), a + 9, b, "lax") {
                cookie.same_site = Some(SameSite::Lax);
            } else if range_eq_ignore_ascii_case(cs.as_slice(), a + 9, b, "none") {
                cookie.same_site = Some(SameSite::NoRestriction);
            } else {
                cookie.same_site = None;
            }
        }
    }

    /// Parses a `Set-Cookie` header; a `Max-Age` counts from the system
    /// clock: the result is [`parse_cookie`] at the clock's reading.
    pub fn parse_set_cookie(header: &str, domain: String) -> (r: Option<Self>)
        ensures
            exists|now: u128| now <= MAX_NOW && cookie_opt_view(r) == #[trigger] parse_cookie(header@, domain@, now),
    {
        let now: u128 = now_nanos();
        let ghost d = domain@;
        let r = Self::parse_set_cookie_at(header, domain, now);
        assert(cookie_opt_view(r) == parse_cookie(header@, d, now));
        r
    }
}


/// Contents of a list of cookies.
pub open spec fn cookies_view(s: Seq<Cookie>) -> Seq<CookieModel> {
    Seq::new(s.len(), |i: int| s[i]@)
}

/// Contents of a cookie table: each domain with its cookies.
pub open spec fn table_view(v: Seq<(String, Vec<Cookie>)>) -> Seq<(Seq<char>, Seq<CookieModel>)> {
    Seq::new(v.len(), |i: int| (v[i].0@, cookies_view(v[i].1@)))
}

/// First index at or after `from` of a cookie named `name`.
pub open spec fn name_pos(list: Seq<CookieModel>, name: Seq<char>, from: int) -> Option<int>
    decreases list.len() - from,
{
    if from < 0 || from >= list.len() {
        None
    } else if list[from].name == name {
        Some(from)
    } else {
        name_pos(list, name, from + 1)
    }
}

/// First index at or after `from` of the entry for `domain`.
pub open spec fn domain_pos(t: Seq<(Seq<char>, Seq<CookieModel>)>, domain: Seq<char>, from: int) -> Option<int>
    decreases t.len() - from,
{
    if from < 0 || from >= t.len() {
        None
    } else if t[from].0 == domain {
        Some(from)
    } else {
        domain_pos(t, domain, from + 1)
    }
}

/// A domain's cookies after adding `c`: it replaces the cookie of the same
/// name, or comes last.
pub open spec fn list_after_add(list: Seq<CookieModel>, c: CookieModel) -> Seq<CookieModel> {
    match name_pos(list, c.name, 0) {
        Some(i) => list.update(i, c),
        None => list.push(c),
    }
}

/// The table after adding `c` under its domain; a new domain comes last.
pub open spec fn table_after_add(t: Seq<(Seq<char>, Seq<CookieModel>)>, c: CookieModel) -> Seq<(Seq<char>, Seq<CookieModel>)> {
    match domain_pos(t, c.domain, 0) {
        Some(i) => t.update(i, (t[i].0, list_after_add(t[i].1, c))),
        None => t.push((c.domain, seq![c])),
    }
}

/// Whether cookies stored under `cookie_domain` go to requests for
/// `domain` (RFC 6265, compared in lower case): the same domain, or a
/// subdomain of it, a leading `.` on the cookie domain ignored.
pub open spec fn domain_matches(cookie_domain: Seq<char>, domain: Seq<char>) -> bool {
    let cd = lowercase(cookie_domain);
    let d = lowercase(domain);
    if cd == d {
        true
    } else if cd.len() > 0 && cd[0] == '.' {
        let base = cd.drop_first();
        d == base || ends_with(d, seq!['.'] + base)
    } else {
        ends_with(d, seq!['.'] + cd)
    }
}

/// The unexpired cookies of `list` at `now`, in order.
pub open spec fn unexpired(list: Seq<CookieModel>, now: u128) -> Seq<CookieModel>
    decreases list.len(),
{
    if list.len() == 0 {
        Seq::empty()
    } else {
        unexpired(list.drop_last(), now) + if expired_at(list.last(), now) {
            Seq::<CookieModel>::empty()
        } else {
            seq![list.last()]
        }
    }
}

/// The unexpired cookies at `now` of every domain that matches `domain`, in
/// table order.
pub open spec fn cookies_for(t: Seq<(Seq<char>, Seq<CookieModel>)>, domain: Seq<char>, now: u128) -> Seq<CookieModel>
    decreases t.len(),
{
    if t.len() == 0 {
        Seq::empty()
    } else {
        cookies_for(t.drop_last(), domain, now) + if domain_matches(t.last().0, domain) {
            unexpired(t.last().1, now)
        } else {
            Seq::<CookieModel>::empty()
        }
    }
}

/// The cookies that go with a request for `path`: their path is a prefix of
/// it, and secure cookies only over a secure connection.
pub open spec fn for_request(cs: Seq<CookieModel>, path: Seq<char>, is_secure: bool) -> Seq<CookieModel>
    decreases cs.len(),
{
    if cs.len() == 0 {
        Seq::empty()
    } else {
        let c = cs.last();
        for_request(cs.drop_last(), path, is_secure) + if starts_with(path, c.path) && !(c.secure && !is_secure) {
            seq![c]
        } else {
            Seq::<CookieModel>::empty()
        }
    }
}

/// `name=value` of each cookie, joined by `"; "`.
pub open spec fn join_cookies(cs: Seq<CookieModel>) -> Seq<char>
    decreases cs.len(),
{
    if cs.len() == 0 {
        Seq::empty()
    } else if cs.len() == 1 {
        header_value_text(cs[0])
    } else {
        join_cookies(cs.drop_last()) + "; "@ + header_value_text(cs.last())
    }
}

/// The `Cookie` header for a request, or nothing when no cookie goes.
pub open spec fn cookie_header(t: Seq<(Seq<char>, Seq<CookieModel>)>, domain: Seq<char>, path: Seq<char>, is_secure: bool, now: u128) -> Option<Seq<char>> {
    let sel = for_request(cookies_for(t, domain, now), path, is_secure);
    if sel.len() == 0 {
        None
    } else {
        Some(join_cookies(sel))
    }
}

/// The table with the cookies expired at `now` removed.
pub open spec fn table_after_cleanup(t: Seq<(Seq<char>, Seq<CookieModel>)>, now: u128) -> Seq<(Seq<char>, Seq<CookieModel>)> {
    Seq::new(t.len(), |i: int| (t[i].0, unexpired(t[i].1, now)))
}

/// Number of cookies in a table.
pub open spec fn total_count(t: Seq<(Seq<char>, Seq<CookieModel>)>) -> nat
    decreases t.len(),
{
    if t.len() == 0 {
        0
    } else {
        total_count(t.drop_last()) + t.last().1.len()
    }
}

/// Whether each domain occurs once.
pub open spec fn domains_unique(t: Seq<(Seq<char>, Seq<CookieModel>)>) -> bool {
    forall|i: int, j: int| 0 <= i < j < t.len() ==> #[trigger] t[i].0 != #[trigger] t[j].0
}

/// Whether no two cookies of a list have the same name.
pub open spec fn names_unique(list: Seq<CookieModel>) -> bool {
    forall|i: int, j: int| 0 <= i < j < list.len() ==> #[trigger] list[i].name != #[trigger] list[j].name
}

/// A well-formed table: each domain once, and within a domain each cookie
/// name once.
pub open spec fn table_wf(t: Seq<(Seq<char>, Seq<CookieModel>)>) -> bool {
    &&& domains_unique(t)
    &&& forall|i: int| 0 <= i < t.len() ==> names_unique(#[trigger] t[i].1)
}

/// Whether the table holds a cookie of this domain and name.
pub open spec fn holds_cookie(t: Seq<(Seq<char>, Seq<CookieModel>)>, domain: Seq<char>, name: Seq<char>) -> bool {
    exists|i: int, j: int|
        #![trigger t[i].1[j]]
        0 <= i < t.len() && 0 <= j < t[i].1.len() && t[i].0 == domain && t[i].1[j].name == name
}

/// A found index is in range, carries the key, and none before it does.
pub proof fn lemma_domain_pos(t: Seq<(Seq<char>, Seq<CookieModel>)>, d: Seq<char>, from: int)
    requires
        0 <= from,
    ensures
        domain_pos(t, d, from) matches Some(i) ==> from <= i < t.len() && t[i].0 == d,
        domain_pos(t, d, from) is None ==> forall|k: int| from <= k < t.len() ==> t[k].0 != d,
    decreases t.len() - from,
{
    if from < t.len() && t[from].0 != d {
        lemma_domain_pos(t, d, from + 1);
    }
}

/// A found index is in range and carries the name.
pub proof fn lemma_name_pos(list: Seq<CookieModel>, name: Seq<char>, from: int)
    requires
        0 <= from,
    ensures
        name_pos(list, name, from) matches Some(i) ==> from <= i < list.len() && list[i].name == name,
        name_pos(list, name, from) is None ==> forall|k: int| from <= k < list.len() ==> list[k].name != name,
    decreases list.len() - from,
{
    if from < list.len() && list[from].name != name {
        lemma_name_pos(list, name, from + 1);
    }
}

/// Index of the entry for `d`.
fn find_domain(cookies: &Vec<(String, Vec<Cookie>)>, d: &str) -> (r: Option<usize>)
    ensures
        r matches Some(i) ==> domain_pos(table_view(cookies@), d@, 0) == Some(i as int),
        r is None ==> domain_pos(table_view(cookies@), d@, 0) is None,
{
    let ghost t = table_view(cookies@);
    let mut i: usize = 0;
    while i < cookies.len()
        invariant
            t == table_view(cookies@),
            i <= cookies@.len(),
            domain_pos(t, d@, 0) == domain_pos(t, d@, i as int),
        decreases cookies@.len() - i,
    {
        if str_eq(cookies[i].0.as_str(), d) {
            return Some(i);
        }
        i = i + 1;
    }
    None
}

/// Index of the cookie named `name`.
fn find_name(list: &Vec<Cookie>, name: &str) -> (r: Option<usize>)
    ensures
        r matches Some(i) ==> name_pos(cookies_view(list@), name@, 0) == Some(i as int),
        r is None ==> name_pos(cookies_view(list@), name@, 0) is None,
{
    let ghost lv = cookies_view(list@);
    let mut j: usize = 0;
    while j < list.len()
        invariant
            lv == cookies_view(list@),
            j <= list@.len(),
            name_pos(lv, name@, 0) == name_pos(lv, name@, j as int),
        decreases list@.len() - j,
    {
        if str_eq(list[j].name.as_str(), name) {
            return Some(j);
        }
        j = j + 1;
    }
    None
}

/// Removing an entry keeps the table well formed.
proof fn lemma_remove_keeps_wf(t: Seq<(Seq<char>, Seq<CookieModel>)>, i: int)
    requires
        table_wf(t),
        0 <= i < t.len(),
    ensures
        table_wf(t.remove(i)),
{
    let u = t.remove(i);
    assert forall|a: int, b: int| 0 <= a < b < u.len() implies #[trigger] u[a].0 != #[trigger] u[b].0 by {
        let a0 = if a < i { a } else { a + 1 };
        let b0 = if b < i { b } else { b + 1 };
        assert(u[a] == t[a0]);
        assert(u[b] == t[b0]);
    }
    assert forall|k: int| 0 <= k < u.len() implies names_unique(#[trigger] u[k].1) by {
        let k0 = if k < i { k } else { k + 1 };
        assert(u[k] == t[k0]);
    }
}

/// Adding a cookie keeps the table well formed.
proof fn lemma_add_keeps_wf(t: Seq<(Seq<char>, Seq<CookieModel>)>, c: CookieModel)
    requires
        table_wf(t),
    ensures
        table_wf(table_after_add(t, c)),
{
    lemma_domain_pos(t, c.domain, 0);
    let u = table_after_add(t, c);
    match domain_pos(t, c.domain, 0) {
        Some(i) => {
            let l = t[i].1;
            lemma_name_pos(l, c.name, 0);
            let l2 = list_after_add(l, c);
            assert forall|a: int, b: int| 0 <= a < b < l2.len() implies #[trigger] l2[a].name != #[trigger] l2[b].name by {
                match name_pos(l, c.name, 0) {
                    Some(j) => {
                        assert(l2[a].name == l[a].name);
                        assert(l2[b].name == l[b].name);
                    },
                    None => {
                        assert(l2[a] == l[a]);
                        if b < l.len() {
                            assert(l2[b] == l[b]);
                        } else {
                            assert(l2[b] == c);
                        }
                    },
                }
            }
            assert forall|k: int| 0 <= k < u.len() implies names_unique(#[trigger] u[k].1) by {
                if k == i {
                    assert(u[k].1 == l2);
                } else {
                    assert(u[k] == t[k]);
                }
            }
            assert forall|a: int, b: int| 0 <= a < b < u.len() implies #[trigger] u[a].0 != #[trigger] u[b].0 by {
                assert(u[a].0 == t[a].0 && u[b].0 == t[b].0);
            }
        },
        None => {
            assert forall|k: int| 0 <= k < u.len() implies names_unique(#[trigger] u[k].1) by {
                if k < t.len() {
                    assert(u[k] == t[k]);
                } else {
                    assert(u[k].1 == seq![c]);
                }
            }
            assert forall|a: int, b: int| 0 <= a < b < u.len() implies #[trigger] u[a].0 != #[trigger] u[b].0 by {
                assert(u[a].0 == t[a].0);
                if b < t.len() {
                    assert(u[b].0 == t[b].0);
                }
            }
        },
    }
}

/// A cookie that the unexpired cookies of a list hold is one of the list's.
proof fn lemma_unexpired_from(list: Seq<CookieModel>, now: u128, k: int)
    requires
        0 <= k < unexpired(list, now).len(),
    ensures
        exists|m: int| 0 <= m < list.len() && #[trigger] list[m] == unexpired(list, now)[k],
    decreases list.len(),
{
    let u0 = unexpired(list.drop_last(), now);
    if k < u0.len() {
        lemma_unexpired_from(list.drop_last(), now, k);
        let m = choose|m: int| 0 <= m < list.drop_last().len() && #[trigger] list.drop_last()[m] == u0[k];
        assert(list[m] == unexpired(list, now)[k]);
    } else {
        assert(list[list.len() - 1] == unexpired(list, now)[k]);
    }
}

/// Dropping expired cookies keeps the names distinct.
proof fn lemma_unexpired_unique(list: Seq<CookieModel>, now: u128)
    requires
        names_unique(list),
    ensures
        names_unique(unexpired(list, now)),
    decreases list.len(),
{
    if list.len() > 0 {
        let d = list.drop_last();
        assert forall|a: int, b: int| 0 <= a < b < d.len() implies #[trigger] d[a].name != #[trigger] d[b].name by {
            assert(d[a] == list[a] && d[b] == list[b]);
        }
        lemma_unexpired_unique(d, now);
        let u0 = unexpired(d, now);
        let u = unexpired(list, now);
        assert forall|a: int, b: int| 0 <= a < b < u.len() implies #[trigger] u[a].name != #[trigger] u[b].name by {
            assert(u[a] == u0[a]);
            if b < u0.len() {
                assert(u[b] == u0[b]);
            } else {
                assert(u[b] == list.last());
                lemma_unexpired_from(d, now, a);
                let m = choose|m: int| 0 <= m < d.len() && #[trigger] d[m] == u0[a];
                assert(list[m] == u0[a]);
            }
        }
    }
}

/// The count after replacing one entry.
proof fn lemma_total_count_update(
    t: Seq<(Seq<char>, Seq<CookieModel>)>,
    i: int,
    e: (Seq<char>, Seq<CookieModel>),
)
    requires
        0 <= i < t.len(),
    ensures
        total_count(t.update(i, e)) == total_count(t) - t[i].1.len() + e.1.len(),
    decreases t.len(),
{
    let u = t.update(i, e);
    if i == t.len() - 1 {
        assert(u.drop_last() =~= t.drop_last());
    } else {
        assert(u.drop_last() =~= t.drop_last().update(i, e));
        lemma_total_count_update(t.drop_last(), i, e);
    }
}

/// Adding a cookie whose domain and name the store already holds (at entry
/// `i`, position `j`) replaces that cookie in place: the table is the old one
/// with only that cookie changed, the count stays the same, the domain's
/// cookies keep distinct names, and the one with that name is the new cookie.
pub proof fn lemma_add_same_pair_replaces(t: Seq<(Seq<char>, Seq<CookieModel>)>, c: CookieModel, i: int, j: int)
    requires
        table_wf(t),
        0 <= i < t.len(),
        0 <= j < t[i].1.len(),
        t[i].0 == c.domain,
        t[i].1[j].name == c.name,
    ensures
        table_after_add(t, c) == t.update(i, (t[i].0, t[i].1.update(j, c))),
        total_count(table_after_add(t, c)) == total_count(t),
        table_wf(table_after_add(t, c)),
        table_after_add(t, c)[i].1[j] == c,
        forall|k: int|
            0 <= k < table_after_add(t, c)[i].1.len() && #[trigger] table_after_add(t, c)[i].1[k].name == c.name
                ==> k == j,
{
    lemma_add_keeps_wf(t, c);
    lemma_domain_pos(t, c.domain, 0);
    let l = t[i].1;
    match domain_pos(t, c.domain, 0) {
        Some(i2) => {
            if i2 < i {
                assert(t[i2].0 != t[i].0);
            } else if i < i2 {
                assert(t[i].0 != t[i2].0);
            }
        },
        None => {
            assert(t[i].0 != c.domain);
        },
    }
    lemma_name_pos(l, c.name, 0);
    match name_pos(l, c.name, 0) {
        Some(j2) => {
            assert(names_unique(l));
            if j2 < j {
                assert(l[j2].name != l[j].name);
            } else if j < j2 {
                assert(l[j].name != l[j2].name);
            }
        },
        None => {
            assert(l[j].name != c.name);
        },
    }
    let u = table_after_add(t, c);
    assert(u == t.update(i, (t[i].0, l.update(j, c))));
    lemma_total_count_update(t, i, (t[i].0, l.update(j, c)));
    assert(names_unique(u[i].1));
    assert forall|k: int| 0 <= k < u[i].1.len() && #[trigger] u[i].1[k].name == c.name implies k == j by {
        if k < j {
            assert(u[i].1[k].name != u[i].1[j].name);
        } else if j < k {
            assert(u[i].1[j].name != u[i].1[k].name);
        }
    }
}

/// Adding a cookie whose domain and name pair the store does not hold adds
/// one cookie to the count, and the table then holds it.
pub proof fn lemma_add_new_pair_counts_one(t: Seq<(Seq<char>, Seq<CookieModel>)>, c: CookieModel)
    requires
        table_wf(t),
        !holds_cookie(t, c.domain, c.name),
    ensures
        total_count(table_after_add(t, c)) == total_count(t) + 1,
        table_wf(table_after_add(t, c)),
        holds_cookie(table_after_add(t, c), c.domain, c.name),
{
    lemma_count_after_add(t, c);
    lemma_domain_pos(t, c.domain, 0);
    let u = table_after_add(t, c);
    match domain_pos(t, c.domain, 0) {
        Some(i) => {
            let l = t[i].1;
            lemma_name_pos(l, c.name, 0);
            match name_pos(l, c.name, 0) {
                Some(j) => {
                    assert(t[i].1[j].name == c.name);
                },
                None => {
                    assert(u[i].1 == l.push(c));
                    assert(u[i].1[l.len() as int] == c);
                },
            }
        },
        None => {
            assert(u[t.len() as int].1 == seq![c]);
            assert(u[t.len() as int].1[0] == c);
        },
    }
}

/// Adding a cookie whose domain and name the store already holds replaces
/// that cookie and keeps the count; adding any other cookie adds one. Either
/// way, the table stays well formed.
pub proof fn lemma_count_after_add(t: Seq<(Seq<char>, Seq<CookieModel>)>, c: CookieModel)
    requires
        table_wf(t),
    ensures
        table_wf(table_after_add(t, c)),
        holds_cookie(t, c.domain, c.name) ==> total_count(table_after_add(t, c)) == total_count(t),
        !holds_cookie(t, c.domain, c.name) ==> total_count(table_after_add(t, c)) == total_count(t) + 1,
{
    lemma_add_keeps_wf(t, c);
    lemma_domain_pos(t, c.domain, 0);
    let u = table_after_add(t, c);
    match domain_pos(t, c.domain, 0) {
        Some(i) => {
            let l = t[i].1;
            lemma_name_pos(l, c.name, 0);
            lemma_total_count_update(t, i, (t[i].0, list_after_add(l, c)));
            match name_pos(l, c.name, 0) {
                Some(j) => {
                    assert(t[i].1[j].name == c.name);
                },
                None => {
                    if holds_cookie(t, c.domain, c.name) {
                        let (a, b) = choose|a: int, b: int|
                            #![trigger t[a].1[b]]
                            0 <= a < t.len() && 0 <= b < t[a].1.len() && t[a].0 == c.domain && t[a].1[b].name == c.name;
                        if a < i {
                            assert(t[a].0 != t[i].0);
                        } else if i < a {
                            assert(t[i].0 != t[a].0);
                        }
                        assert(l[b].name != c.name);
                    }
                },
            }
        },
        None => {
            assert(u.drop_last() =~= t);
            if holds_cookie(t, c.domain, c.name) {
                let (a, b) = choose|a: int, b: int|
                    #![trigger t[a].1[b]]
                    0 <= a < t.len() && 0 <= b < t[a].1.len() && t[a].0 == c.domain && t[a].1[b].name == c.name;
                assert(t[a].0 != c.domain);
            }
        },
    }
}

/// Cookie store: the cookies of each domain, a domain at most once.
#[derive(Debug, Clone)]
pub struct CookieStore {
    cookies: Vec<(String, Vec<Cookie>)>,
}

/// Whether `cookie_domain` matches `domain`.
fn domain_matches_exec(cookie_domain: &str, domain: &str) -> (r: bool)
    ensures
        r == domain_matches(cookie_domain@, domain@),
{
    let cd: String = to_lowercase(cookie_domain);
    let d: String = to_lowercase(domain);
    if str_eq(cd.as_str(), d.as_str()) {
        return true;
    }
    let cdc: Vec<char> = chars_of(cd.as_str());
    let n: usize = cdc.len();
    if n > 0 && cdc[0] == '.' {
        let base: String = string_of_range(cdc.as_slice(), 1, n);
        assert(base@ =~= cd@.drop_first());
        if str_eq(d.as_str(), base.as_str()) {
            return true;
        }
        let mut dotted: String = String::from_str(".");
        dotted.append(base.as_str());
        proof { reveal_strlit("."); }
        assert(dotted@ =~= seq!['.'] + base@);
        str_ends_with(d.as_str(), dotted.as_str())
    } else {
        let mut dotted: String = String::from_str(".");
        dotted.append(cd.as_str());
        proof { reveal_strlit("."); }
        assert(dotted@ =~= seq!['.'] + cd@);
        str_ends_with(d.as_str(), dotted.as_str())
    }
}

impl CookieStore {
    /// The store's content.
    pub closed spec fn table(&self) -> Seq<(Seq<char>, Seq<CookieModel>)> {
        table_view(self.cookies@)
    }

    /// Each domain occurs once, and each cookie name once within a domain.
    pub closed spec fn wf(&self) -> bool {
        table_wf(self.table())
    }

    /// An empty store.
    pub fn new() -> (r: Self)
        ensures
            r.wf(),
            r.table() == Seq::<(Seq<char>, Seq<CookieModel>)>::empty(),
    {
        let r = CookieStore { cookies: Vec::new() };
        assert(r.table() =~= Seq::<(Seq<char>, Seq<CookieModel>)>::empty());
        r
    }

    /// Adds a cookie under its domain, replacing the domain's cookie of the
    /// same name.
    pub fn add_cookie(&mut self, cookie: Cookie)
        requires
            old(self).wf(),
        ensures
            final(self).wf(),
            final(self).table() == table_after_add(old(self).table(), cookie@),
    {
        let ghost t = self.table();
        let ghost c = cookie@;
        proof { lemma_domain_pos(t, c.domain, 0); }
        let found = find_domain(&self.cookies, cookie.domain.as_str());
        if let Some(i) = found {
            let (key, mut list) = self.cookies.remove(i);
            let ghost lv = cookies_view(list@);
            assert(lv == t[i as int].1);
            proof { lemma_name_pos(lv, c.name, 0); }
            match find_name(&list, cookie.name.as_str()) {
                Some(j) => {
                    list.set(j, cookie);
                    assert(cookies_view(list@) =~= lv.update(j as int, c));
                },
                None => {
                    list.push(cookie);
                    assert(cookies_view(list@) =~= lv.push(c));
                },
            }
            self.cookies.insert(i, (key, list));
            assert(self.table() =~= table_after_add(t, c));
        } else {
            let domain: String = cookie.domain.clone();
            let mut list: Vec<Cookie> = Vec::new();
            list.push(cookie);
            self.cookies.push((domain, list));
            assert(cookies_view(list@) =~= seq![c]);
            assert(self.table() =~= t.push((c.domain, seq![c])));
        }
        proof { lemma_add_keeps_wf(t, c); }
    }

    /// Adds the cookie of a `Set-Cookie` header, if it parses.
    pub fn add_from_response(&mut self, set_cookie_header: &str, domain: String)
        requires
            old(self).wf(),
        ensures
            final(self).wf(),
            exists|now: u128| now <= MAX_NOW && final(self).table() == match #[trigger] parse_cookie(
                set_cookie_header@,
                domain@,
                now,
            ) {
                Some(c) => table_after_add(old(self).table(), c),
                None => old(self).table(),
            },
    {
        let ghost d = domain@;
        let parsed = Cookie::parse_set_cookie(set_cookie_header, domain);
        let ghost now = choose|now: u128| now <= MAX_NOW && cookie_opt_view(parsed) == #[trigger] parse_cookie(
            set_cookie_header@,
            d,
            now,
        );
        match parsed {
            Some(cookie) => {
                self.add_cookie(cookie);
            },
            None => {},
        }
        assert(final(self).table() == match parse_cookie(set_cookie_header@, d, now) {
            Some(c) => table_after_add(old(self).table(), c),
            None => old(self).table(),
        });
    }

    /// The unexpired cookies at `now` (nanoseconds since the Unix epoch) of
    /// every domain that matches `domain`.
    pub fn get_cookies_for_domain_at(&self, domain: &str, now: u128) -> (r: Vec<Cookie>)
        ensures
            cookies_view(r@) == cookies_for(self.table(), domain@, now),
    {
        let ghost t = self.table();
        let mut result: Vec<Cookie> = Vec::new();
        let mut i: usize = 0;
        assert(cookies_view(result@) =~= cookies_for(t.subrange(0, 0), domain@, now));
        while i < self.cookies.len()
            invariant
                t == table_view(self.cookies@),
                i <= self.cookies@.len(),
                cookies_view(result@) == cookies_for(t.subrange(0, i as int), domain@, now),
            decreases self.cookies@.len() - i,
        {
            let ghost before = cookies_view(result@);
            assert(t.subrange(0, i + 1).drop_last() =~= t.subrange(0, i as int));
            if domain_matches_exec(self.cookies[i].0.as_str(), domain) {
                let list: &Vec<Cookie> = &self.cookies[i].1;
                let ghost lv = cookies_view(list@);
                assert(lv == t[i as int].1);
                let mut j: usize = 0;
                assert(cookies_view(result@) =~= before + unexpired(lv.subrange(0, 0), now));
                while j < list.len()
                    invariant
                        lv == cookies_view(list@),
                        j <= list@.len(),
                        cookies_view(result@) == before + unexpired(lv.subrange(0, j as int), now),
                    decreases list@.len() - j,
                {
                    let ghost prefix = lv.subrange(0, j + 1);
                    assert(prefix.drop_last() =~= lv.subrange(0, j as int));
                    assert(prefix.last() == list@[j as int]@);
                    let ghost pre = cookies_view(result@);
                    if !list[j].is_expired_at(now) {
                        let d: Cookie = list[j].duplicate();
                        result.push(d);
                        assert(cookies_view(result@) =~= pre.push(prefix.last()));
                        assert(before + unexpired(prefix, now) =~= (before + unexpired(lv.subrange(0, j as int), now)).push(prefix.last()));
                    } else {
                        assert(before + unexpired(prefix, now) =~= before + unexpired(lv.subrange(0, j as int), now));
                    }
                    j = j + 1;
                }
                assert(lv.subrange(0, j as int) =~= lv);
            } else {
                assert(cookies_view(result@) =~= before + Seq::<CookieModel>::empty());
            }
            i = i + 1;
        }
        assert(t.subrange(0, i as int) =~= t);
        result
    }

    /// The unexpired cookies, by the system clock, of every domain that
    /// matches `domain`.
    pub fn get_cookies_for_domain(&self, domain: &str) -> (r: Vec<Cookie>)
        ensures
            exists|now: u128| cookies_view(r@) == cookies_for(self.table(), domain@, now),
    {
        let now: u128 = now_nanos();
        self.get_cookies_for_domain_at(domain, now)
    }

    /// The `Cookie` header for a request to `domain` and `path` at `now`:
    /// the matching unexpired cookies whose path prefixes `path`, secure ones
    /// only when `is_secure`, as `name=value` joined by `"; "`.
    pub fn generate_cookie_header_at(&self, domain: &str, path: &str, is_secure: bool, now: u128) -> (r: Option<String>)
        ensures
            r is Some <==> cookie_header(self.table(), domain@, path@, is_secure, now) is Some,
            r matches Some(h) ==> cookie_header(self.table(), domain@, path@, is_secure, now) == Some(h@),
    {
        let cookies: Vec<Cookie> = self.get_cookies_for_domain_at(domain, now);
        let ghost cv = cookies_view(cookies@);
        let mut out: String = String::new();
        let mut count: usize = 0;
        let mut i: usize = 0;
        assert(for_request(cv.subrange(0, 0), path@, is_secure) =~= Seq::<CookieModel>::empty());
        while i < cookies.len()
            invariant
                cv == cookies_view(cookies@),
                i <= cookies@.len(),
                count <= i,
                count == for_request(cv.subrange(0, i as int), path@, is_secure).len(),
                out@ == join_cookies(for_request(cv.subrange(0, i as int), path@, is_secure)),
            decreases cookies@.len() - i,
        {
            let ghost sel = for_request(cv.subrange(0, i as int), path@, is_secure);
            assert(cv.subrange(0, i + 1).drop_last() =~= cv.subrange(0, i as int));
            let c: &Cookie = &cookies[i];
            if str_starts_with(path, c.path.as_str()) && !(c.secure && !is_secure) {
                if count > 0 {
                    out.append("; ");
                }
                let v: String = c.to_header_value();
                out.append(v.as_str());
                assert(for_request(cv.subrange(0, i + 1), path@, is_secure) =~= sel.push(c@));
                assert(sel.push(c@).drop_last() =~= sel);
                count = count + 1;
            } else {
                assert(for_request(cv.subrange(0, i + 1), path@, is_secure) =~= sel);
            }
            i = i + 1;
        }
        assert(cv.subrange(0, i as int) =~= cv);
        if count == 0 {
            None
        } else {
            Some(out)
        }
    }

    /// The `Cookie` header for a request, by the system clock.
    pub fn generate_cookie_header(&self, domain: &str, path: &str, is_secure: bool) -> (r: Option<String>)
        ensures
            exists|now: u128| {
                &&& (r is Some <==> cookie_header(self.table(), domain@, path@, is_secure, now) is Some)
                &&& (r matches Some(h) ==> cookie_header(self.table(), domain@, path@, is_secure, now) == Some(h@))
            },
    {
        let now: u128 = now_nanos();
        self.generate_cookie_header_at(domain, path, is_secure, now)
    }

    /// Removes the cookies of `domain` (the exact stored domain).
    pub fn clear_domain(&mut self, domain: &str)
        requires
            old(self).wf(),
        ensures
            final(self).wf(),
            final(self).table() == (match domain_pos(old(self).table(), domain@, 0) {
                Some(i) => old(self).table().remove(i),
                None => old(self).table(),
            }),
    {
        let ghost t = self.table();
        proof { lemma_domain_pos(t, domain@, 0); }
        match find_domain(&self.cookies, domain) {
            Some(i) => {
                let _removed = self.cookies.remove(i);
                assert(self.table() =~= t.remove(i as int));
                proof { lemma_remove_keeps_wf(t, i as int); }
            },
            None => {},
        }
    }

    /// Removes every cookie.
    pub fn clear_all(&mut self)
        ensures
            final(self).wf(),
            final(self).table() == Seq::<(Seq<char>, Seq<CookieModel>)>::empty(),
    {
        self.cookies.clear();
        assert(self.table() =~= Seq::<(Seq<char>, Seq<CookieModel>)>::empty());
    }

    /// Removes the cookies expired at `now` (nanoseconds since the Unix
    /// epoch), keeping the others in order.
    pub fn cleanup_expired_at(&mut self, now: u128)
        requires
            old(self).wf(),
        ensures
            final(self).wf(),
            final(self).table() == table_after_cleanup(old(self).table(), now),
    {
        let ghost t = self.table();
        let mut old_cookies: Vec<(String, Vec<Cookie>)> = Vec::new();
        std::mem::swap(&mut old_cookies, &mut self.cookies);
        assert(self.table() =~= Seq::<(Seq<char>, Seq<CookieModel>)>::empty());
        assert(table_view(old_cookies@) == t);
        let mut i: usize = 0;
        while i < old_cookies.len()
            invariant
                t == table_view(old_cookies@),
                i <= old_cookies@.len(),
                self.table().len() == i,
                forall|k: int| 0 <= k < i ==> #[trigger] self.table()[k] == (t[k].0, unexpired(t[k].1, now)),
            decreases old_cookies@.len() - i,
        {
            let list: &Vec<Cookie> = &old_cookies[i].1;
            let ghost lv = cookies_view(list@);
            assert(lv == t[i as int].1);
            let mut kept: Vec<Cookie> = Vec::new();
            let mut j: usize = 0;
            assert(cookies_view(kept@) =~= unexpired(lv.subrange(0, 0), now));
            while j < list.len()
                invariant
                    lv == cookies_view(list@),
                    j <= list@.len(),
                    cookies_view(kept@) == unexpired(lv.subrange(0, j as int), now),
                decreases list@.len() - j,
            {
                let ghost prefix = lv.subrange(0, j + 1);
                assert(prefix.drop_last() =~= lv.subrange(0, j as int));
                assert(prefix.last() == list@[j as int]@);
                let ghost pre = cookies_view(kept@);
                if !list[j].is_expired_at(now) {
                    let d: Cookie = list[j].duplicate();
                    kept.push(d);
                    assert(cookies_view(kept@) =~= pre.push(prefix.last()));
                    assert(unexpired(prefix, now) =~= unexpired(lv.subrange(0, j as int), now).push(prefix.last()));
                }
                j = j + 1;
            }
            assert(lv.subrange(0, j as int) =~= lv);
            let ghost prev = self.table();
            self.cookies.push((old_cookies[i].0.clone(), kept));
            assert(self.table() =~= prev.push((t[i as int].0, unexpired(t[i as int].1, now))));
            i = i + 1;
        }
        assert forall|a: int, b: int| 0 <= a < b < self.table().len() implies
            #[trigger] self.table()[a].0 != #[trigger] self.table()[b].0 by {
            assert(self.table()[a].0 == t[a].0 && self.table()[b].0 == t[b].0);
        }
        assert forall|k: int| 0 <= k < self.table().len() implies names_unique(#[trigger] self.table()[k].1) by {
            lemma_unexpired_unique(t[k].1, now);
        }
        assert(self.table() =~= table_after_cleanup(t, now));
    }

    /// Removes the cookies expired by the system clock.
    pub fn cleanup_expired(&mut self)
        requires
            old(self).wf(),
        ensures
            final(self).wf(),
            exists|now: u128| final(self).table() == table_after_cleanup(old(self).table(), now),
    {
        let now: u128 = now_nanos();
        self.cleanup_expired_at(now);
    }

    /// Number of cookies in the store.
    pub fn count(&self) -> (r: usize)
        requires
            total_count(self.table()) <= usize::MAX,
        ensures
            r == total_count(self.table()),
    {
        let ghost t = self.table();
        let mut sum: usize = 0;
        let mut i: usize = 0;
        while i < self.cookies.len()
            invariant
                t == table_view(self.cookies@),
                i <= self.cookies@.len(),
                total_count(t) <= usize::MAX,
                sum == total_count(t.subrange(0, i as int)),
            decreases self.cookies@.len() - i,
        {
            assert(t.subrange(0, i + 1).drop_last() =~= t.subrange(0, i as int));
            proof { lemma_total_count_prefix(t, i + 1); }
            sum = sum + self.cookies[i].1.len();
            i = i + 1;
        }
        assert(t.subrange(0, i as int) =~= t);
        sum
    }
}

/// The count of a prefix is at most the count of the whole.
pub proof fn lemma_total_count_prefix(t: Seq<(Seq<char>, Seq<CookieModel>)>, k: int)
    requires
        0 <= k <= t.len(),
    ensures
        total_count(t.subrange(0, k)) <= total_count(t),
    decreases t.len() - k,
{
    if k < t.len() {
        lemma_total_count_prefix(t, k + 1);
        assert(t.subrange(0, k + 1).drop_last() =~= t.subrange(0, k));
    } else {
        assert(t.subrange(0, k) =~= t);
    }
}

/// An unexpired cookie of a list is among the list's unexpired cookies.
pub proof fn lemma_unexpired_contains(list: Seq<CookieModel>, now: u128, i: int)
    requires
        0 <= i < list.len(),
        !expired_at(list[i], now),
    ensures
        unexpired(list, now).contains(list[i]),
    decreases list.len(),
{
    if i < list.len() - 1 {
        lemma_unexpired_contains(list.drop_last(), now, i);
        let k = choose|k: int| 0 <= k < unexpired(list.drop_last(), now).len()
            && unexpired(list.drop_last(), now)[k] == list.drop_last()[i];
        assert(unexpired(list, now)[k] == list[i]);
    } else {
        let u = unexpired(list, now);
        assert(u[u.len() - 1] == list[i]);
    }
}

/// A cookie that is unexpired in the list of a matching domain is among
/// the cookies the table gives for that domain.
pub proof fn lemma_cookies_for_contains(
    t: Seq<(Seq<char>, Seq<CookieModel>)>,
    domain: Seq<char>,
    now: u128,
    i: int,
    c: CookieModel,
)
    requires
        0 <= i < t.len(),
        domain_matches(t[i].0, domain),
        unexpired(t[i].1, now).contains(c),
    ensures
        cookies_for(t, domain, now).contains(c),
    decreases t.len(),
{
    let r = cookies_for(t, domain, now);
    if i < t.len() - 1 {
        lemma_cookies_for_contains(t.drop_last(), domain, now, i, c);
        let k = choose|k: int| 0 <= k < cookies_for(t.drop_last(), domain, now).len()
            && cookies_for(t.drop_last(), domain, now)[k] == c;
        assert(r[k] == c);
    } else {
        let u = unexpired(t[i].1, now);
        let k = choose|k: int| 0 <= k < u.len() && u[k] == c;
        let p = cookies_for(t.drop_last(), domain, now);
        assert(r[p.len() + k] == c);
    }
}

/// A cookie that goes with a request (its path prefixes the request's, and
/// it is not secure unless the connection is) is among those selected.
pub proof fn lemma_for_request_contains(cs: Seq<CookieModel>, path: Seq<char>, is_secure: bool, i: int)
    requires
        0 <= i < cs.len(),
        starts_with(path, cs[i].path),
        !(cs[i].secure && !is_secure),
    ensures
        for_request(cs, path, is_secure).contains(cs[i]),
    decreases cs.len(),
{
    let r = for_request(cs, path, is_secure);
    if i < cs.len() - 1 {
        lemma_for_request_contains(cs.drop_last(), path, is_secure, i);
        let k = choose|k: int| 0 <= k < for_request(cs.drop_last(), path, is_secure).len()
            && for_request(cs.drop_last(), path, is_secure)[k] == cs.drop_last()[i];
        assert(r[k] == cs[i]);
    } else {
        assert(r[r.len() - 1] == cs[i]);
    }
}

/// The cookies of a domain after adding `c` hold `c`.
pub proof fn lemma_list_after_add_contains(list: Seq<CookieModel>, c: CookieModel)
    ensures
        list_after_add(list, c).contains(c),
{
    lemma_name_pos(list, c.name, 0);
    let l = list_after_add(list, c);
    match name_pos(list, c.name, 0) {
        Some(i) => assert(l[i] == c),
        None => assert(l[l.len() - 1] == c),
    }
}

/// Write then read: a cookie added to a store is among the cookies the
/// store gives for the cookie's own domain, as long as it has not expired.
pub proof fn lemma_added_cookie_is_found(t: Seq<(Seq<char>, Seq<CookieModel>)>, c: CookieModel, now: u128)
    requires
        !expired_at(c, now),
    ensures
        cookies_for(table_after_add(t, c), c.domain, now).contains(c),
{
    lemma_domain_pos(t, c.domain, 0);
    let t2 = table_after_add(t, c);
    let i: int = match domain_pos(t, c.domain, 0) {
        Some(i) => i,
        None => t.len() as int,
    };
    assert(t2[i].0 == c.domain);
    assert(domain_matches(t2[i].0, c.domain));
    lemma_list_after_add_contains(t2[i].1, c);
    match domain_pos(t, c.domain, 0) {
        Some(j) => {
            lemma_list_after_add_contains(t[j].1, c);
            assert(t2[i].1 == list_after_add(t[j].1, c));
        },
        None => {
            assert(t2[i].1 == seq![c]);
            assert(t2[i].1[0] == c);
        },
    }
    let k = choose|k: int| 0 <= k < t2[i].1.len() && t2[i].1[k] == c;
    lemma_unexpired_contains(t2[i].1, now, k);
    lemma_cookies_for_contains(t2, c.domain, now, i, c);
}

/// Write then send: after adding an unexpired cookie, a request to its
/// domain on a path that its path prefixes (over a secure connection, if
/// the cookie is secure) gets a `Cookie` header.
pub proof fn lemma_added_cookie_is_sent(
    t: Seq<(Seq<char>, Seq<CookieModel>)>,
    c: CookieModel,
    path: Seq<char>,
    is_secure: bool,
    now: u128,
)
    requires
        !expired_at(c, now),
        starts_with(path, c.path),
        !(c.secure && !is_secure),
    ensures
        cookie_header(table_after_add(t, c), c.domain, path, is_secure, now) is Some,
{
    lemma_added_cookie_is_found(t, c, now);
    let cs = cookies_for(table_after_add(t, c), c.domain, now);
    let k = choose|k: int| 0 <= k < cs.len() && cs[k] == c;
    lemma_for_request_contains(cs, path, is_secure, k);
}

/// Which domains a cookie domain matches, compared in lower case: the same
/// domain always; for a stored domain without a leading dot, any subdomain
/// of it and nothing else; for one with a leading dot, the domain after the
/// dot and any subdomain of that.
pub proof fn lemma_domain_match_cases(cookie_domain: Seq<char>, domain: Seq<char>, sub: Seq<char>)
    ensures
        lowercase(cookie_domain) == lowercase(domain) ==> domain_matches(cookie_domain, domain),
        (lowercase(cookie_domain).len() == 0 || lowercase(cookie_domain)[0] != '.') ==> {
            &&& lowercase(domain) == sub + seq!['.'] + lowercase(cookie_domain) ==> domain_matches(cookie_domain, domain)
            &&& lowercase(cookie_domain) != lowercase(domain) && !ends_with(
                lowercase(domain),
                seq!['.'] + lowercase(cookie_domain),
            ) ==> !domain_matches(cookie_domain, domain)
        },
        lowercase(cookie_domain).len() > 0 && lowercase(cookie_domain)[0] == '.' ==> {
            let base = lowercase(cookie_domain).drop_first();
            &&& lowercase(domain) == base ==> domain_matches(cookie_domain, domain)
            &&& lowercase(domain) == sub + seq!['.'] + base ==> domain_matches(cookie_domain, domain)
        },
{
    let cd = lowercase(cookie_domain);
    let d = lowercase(domain);
    let base = if cd.len() == 0 || cd[0] != '.' { cd } else { cd.drop_first() };
    let suffix = seq!['.'] + base;
    if d == sub + seq!['.'] + base {
        assert(d.subrange(d.len() - suffix.len(), d.len() as int) =~= suffix);
        assert(ends_with(d, suffix));
    }
}

/// A cookie stored under a domain without a leading dot also goes to that
/// domain's subdomains, compared in lower case: when the request domain
/// lower-cases to some label text, a dot and the stored domain in lower
/// case, the domains match, and every unexpired cookie stored under that
/// domain is among the cookies given for the request domain.
pub proof fn lemma_subdomain_gets_cookies(
    t: Seq<(Seq<char>, Seq<CookieModel>)>,
    i: int,
    sub: Seq<char>,
    domain: Seq<char>,
    now: u128,
    c: CookieModel,
)
    requires
        0 <= i < t.len(),
        lowercase(domain) == sub + seq!['.'] + lowercase(t[i].0),
        lowercase(t[i].0).len() == 0 || lowercase(t[i].0)[0] != '.',
        unexpired(t[i].1, now).contains(c),
    ensures
        domain_matches(t[i].0, domain),
        cookies_for(t, domain, now).contains(c),
{
    let cd = lowercase(t[i].0);
    let d = lowercase(domain);
    let suffix = seq!['.'] + cd;
    assert(d.subrange(d.len() - suffix.len(), d.len() as int) =~= suffix);
    assert(ends_with(d, suffix));
    assert(domain_matches(t[i].0, domain));
    lemma_cookies_for_contains(t, domain, now, i, c);
}

impl Default for CookieStore {
    /// An empty store.
    fn default() -> (r: Self)
        ensures
            r.wf(),
            r.table() == Seq::<(Seq<char>, Seq<CookieModel>)>::empty(),
    {
        Self::new()
    }
}

} // verus!
