//! Browser storage fingerprints: local and session storage, IndexedDB
//! databases and cookies, with a hash over them.
use vstd::prelude::*;
use crate::header_map::{keys_unique, map_of, pairs_of};
use crate::text::{chars_of, ends_with, hex, push_hex, seq_contains, str_contains, str_ends_with, str_eq};

verus! {

broadcast use vstd::string::group_string_axioms;

/// Cookie info
#[derive(Debug, Clone, PartialEq)]
pub struct CookieInfo {
    pub name: String,
    pub domain: String,
    pub path: String,
    pub secure: bool,
    pub http_only: bool,
}

/// Storage availability
#[derive(Debug, Clone)]
pub struct StorageAvailability {
    pub localstorage_available: bool,
    pub sessionstorage_available: bool,
    pub indexeddb_available: bool,
    pub cookies_available: bool,
}

/// Storage fingerprint
#[derive(Debug, Clone)]
pub struct StorageFingerprint {
    /// LocalStorage entries, each key once
    pub localstorage: Vec<(String, String)>,
    /// SessionStorage entries, each key once
    pub sessionstorage: Vec<(String, String)>,
    /// IndexedDB database names
    pub indexeddb_databases: Vec<String>,
    /// Cookies
    pub cookies: Vec<CookieInfo>,
    /// Storage availability
    pub storage_available: StorageAvailability,
    /// Hash of the storage contents
    pub storage_hash: String,
}

/// Storage error type
#[derive(Debug)]
pub enum StorageError {
    /// invalid data
    InvalidData,
    /// analysis failed
    AnalysisFailed(String),
    /// other error
    Other(String),
}

/// Display text of a storage error.
pub open spec fn storage_error_text(e: StorageError) -> Seq<char> {
    match e {
        StorageError::InvalidData => "Invalid storage data"@,
        StorageError::AnalysisFailed(m) => "Analysis failed: "@ + m@,
        StorageError::Other(m) => "Error: "@ + m@,
    }
}

impl StorageError {
    /// The error's display text.
    pub fn to_string(&self) -> (r: String)
        ensures
            r@ == storage_error_text(*self),
    {
        match self {
            StorageError::InvalidData => String::from_str("Invalid storage data"),
            StorageError::AnalysisFailed(m) => {
                let mut s: String = String::from_str("Analysis failed: ");
                s.append(m.as_str());
                s
            },
            StorageError::Other(m) => {
                let mut s: String = String::from_str("Error: ");
                s.append(m.as_str());
                s
            },
        }
    }
}

/// Storage changes
#[derive(Debug, Clone)]
pub struct StorageChanges {
    pub localstorage_changed: bool,
    pub sessionstorage_changed: bool,
    pub indexeddb_changed: bool,
    pub cookies_changed: bool,
    pub hash_changed: bool,
}

/// Polynomial string hash: each character's code added to 31 times the
/// hash so far, modulo 2^64.
pub open spec fn string_hash(s: Seq<char>) -> nat
    decreases s.len(),
{
    if s.len() == 0 {
        0
    } else {
        ((string_hash(s.drop_last()) * 31 + (s.last() as u32)) % 0x1_0000_0000_0000_0000) as nat
    }
}

/// `k:v;` for each entry.
pub open spec fn entries_text(p: Seq<(Seq<char>, Seq<char>)>) -> Seq<char>
    decreases p.len(),
{
    if p.len() == 0 {
        Seq::empty()
    } else {
        entries_text(p.drop_last()) + p.last().0 + ":"@ + p.last().1 + ";"@
    }
}

/// `name;` for each database.
pub open spec fn names_text(s: Seq<String>) -> Seq<char>
    decreases s.len(),
{
    if s.len() == 0 {
        Seq::empty()
    } else {
        names_text(s.drop_last()) + s.last()@ + ";"@
    }
}

/// `name:domain;` for each cookie.
pub open spec fn cookies_text(s: Seq<CookieInfo>) -> Seq<char>
    decreases s.len(),
{
    if s.len() == 0 {
        Seq::empty()
    } else {
        cookies_text(s.drop_last()) + s.last().name@ + ":"@ + s.last().domain@ + ";"@
    }
}

/// Text that the storage hash is computed over.
pub open spec fn hash_input(
    local: Seq<(Seq<char>, Seq<char>)>,
    session: Seq<(Seq<char>, Seq<char>)>,
    dbs: Seq<String>,
    cookies: Seq<CookieInfo>,
) -> Seq<char> {
    entries_text(local) + entries_text(session) + names_text(dbs) + cookies_text(cookies)
}

/// Cookie info of a `(name, domain, path)` triple: secure when the domain
/// ends with `.secure`, HTTP-only when the path holds `httponly`.
pub open spec fn cookie_info_of(t: (&str, &str, &str), c: CookieInfo) -> bool {
    &&& c.name@ == t.0@
    &&& c.domain@ == t.1@
    &&& c.path@ == t.2@
    &&& c.secure == ends_with(t.1@, ".secure"@)
    &&& c.http_only == seq_contains(t.2@, "httponly"@)
}

/// Whether two tables hold the same map.
pub open spec fn same_map(a: Seq<(String, String)>, b: Seq<(String, String)>) -> bool {
    map_of(pairs_of(a)) == map_of(pairs_of(b))
}

/// Appends `text` to `acc` and advances the hash over it.
fn hash_append(acc: &mut String, h: &mut u64, text: &str)
    requires
        *old(h) == string_hash(old(acc)@),
    ensures
        final(acc)@ == old(acc)@ + text@,
        *final(h) == string_hash(final(acc)@),
{
    let cs: Vec<char> = chars_of(text);
    let ghost start = acc@;
    let mut i: usize = 0;
    while i < cs.len()
        invariant
            cs@ == text@,
            i <= cs@.len(),
            acc@ == start + cs@.subrange(0, i as int),
            *h == string_hash(acc@),
        decreases cs@.len() - i,
    {
        let c: char = cs[i];
        crate::text::push_char(acc, c);
        assert(acc@.drop_last() =~= start + cs@.subrange(0, i as int));
        let code: u32 = c as u32;
        *h = h.wrapping_mul(31).wrapping_add(code as u64);
        i = i + 1;
        assert(acc@ =~= start + cs@.subrange(0, i as int));
    }
    assert(cs@.subrange(0, i as int) =~= text@);
}

/// Storage analyzer
pub struct StorageAnalyzer;

impl StorageAnalyzer {
    /// The storage fingerprint of some storage data.
    pub fn analyze(
        localstorage: &Vec<(String, String)>,
        sessionstorage: &Vec<(String, String)>,
        indexeddb_dbs: &[&str],
        cookies: &[(&str, &str, &str)],
    ) -> (r: Result<StorageFingerprint, StorageError>)
        ensures
            r matches Ok(fp) && {
                &&& fp.storage_available.localstorage_available == (localstorage@.len() > 0)
                &&& fp.storage_available.sessionstorage_available == (sessionstorage@.len() > 0)
                &&& fp.storage_available.indexeddb_available == (indexeddb_dbs@.len() > 0)
                &&& fp.storage_available.cookies_available == (cookies@.len() > 0)
                &&& pairs_of(fp.localstorage@) == pairs_of(localstorage@)
                &&& pairs_of(fp.sessionstorage@) == pairs_of(sessionstorage@)
                &&& fp.indexeddb_databases@.len() == indexeddb_dbs@.len()
                &&& (forall|i: int| 0 <= i < indexeddb_dbs@.len() ==> #[trigger] fp.indexeddb_databases@[i]@ == indexeddb_dbs@[i]@)
                &&& fp.cookies@.len() == cookies@.len()
                &&& (forall|i: int| 0 <= i < cookies@.len() ==> cookie_info_of(cookies@[i], #[trigger] fp.cookies@[i]))
                &&& fp.storage_hash@ == hex(string_hash(hash_input(
                    pairs_of(localstorage@),
                    pairs_of(sessionstorage@),
                    fp.indexeddb_databases@,
                    fp.cookies@,
                )))
            },
    {
        let storage_available = StorageAvailability {
            localstorage_available: localstorage.len() > 0,
            sessionstorage_available: sessionstorage.len() > 0,
            indexeddb_available: indexeddb_dbs.len() > 0,
            cookies_available: cookies.len() > 0,
        };
        let mut dbs: Vec<String> = Vec::new();
        let mut i: usize = 0;
        while i < indexeddb_dbs.len()
            invariant
                i <= indexeddb_dbs@.len(),
                dbs@.len() == i,
                forall|k: int| 0 <= k < i ==> #[trigger] dbs@[k]@ == indexeddb_dbs@[k]@,
            decreases indexeddb_dbs@.len() - i,
        {
            dbs.push(String::from_str(indexeddb_dbs[i]));
            i = i + 1;
        }
        let mut cookie_list: Vec<CookieInfo> = Vec::new();
        let mut j: usize = 0;
        while j < cookies.len()
            invariant
                j <= cookies@.len(),
                cookie_list@.len() == j,
                forall|k: int| 0 <= k < j ==> cookie_info_of(cookies@[k], #[trigger] cookie_list@[k]),
            decreases cookies@.len() - j,
        {
            let (name, domain, path) = cookies[j];
            cookie_list.push(CookieInfo {
                name: String::from_str(name),
                domain: String::from_str(domain),
                path: String::from_str(path),
                secure: str_ends_with(domain, ".secure"),
                http_only: str_contains(path, "httponly"),
            });
            j = j + 1;
        }
        let storage_hash: String = Self::generate_storage_hash(localstorage, sessionstorage, &dbs, &cookie_list);
        let local: Vec<(String, String)> = copy_entries(localstorage);
        let session: Vec<(String, String)> = copy_entries(sessionstorage);
        Ok(StorageFingerprint {
            localstorage: local,
            sessionstorage: session,
            indexeddb_databases: dbs,
            cookies: cookie_list,
            storage_available,
            storage_hash,
        })
    }

    /// Hash of the storage contents, in lower-case hexadecimal.
    pub fn generate_storage_hash(
        localstorage: &Vec<(String, String)>,
        sessionstorage: &Vec<(String, String)>,
        indexeddb_dbs: &Vec<String>,
        cookies: &Vec<CookieInfo>,
    ) -> (r: String)
        ensures
            r@ == hex(string_hash(hash_input(pairs_of(localstorage@), pairs_of(sessionstorage@), indexeddb_dbs@, cookies@))),
    {
        let mut acc: String = String::new();
        let mut h: u64 = 0;
        let ghost p = pairs_of(localstorage@);
        let mut i: usize = 0;
        while i < localstorage.len()
            invariant
                p == pairs_of(localstorage@),
                i <= localstorage@.len(),
                acc@ == entries_text(p.subrange(0, i as int)),
                h == string_hash(acc@),
            decreases localstorage@.len() - i,
        {
            assert(p.subrange(0, i + 1).drop_last() =~= p.subrange(0, i as int));
            hash_append(&mut acc, &mut h, localstorage[i].0.as_str());
            hash_append(&mut acc, &mut h, ":");
            hash_append(&mut acc, &mut h, localstorage[i].1.as_str());
            hash_append(&mut acc, &mut h, ";");
            i = i + 1;
        }
        assert(p.subrange(0, i as int) =~= p);
        let ghost a1 = acc@;
        let ghost q = pairs_of(sessionstorage@);
        let mut j: usize = 0;
        while j < sessionstorage.len()
            invariant
                q == pairs_of(sessionstorage@),
                j <= sessionstorage@.len(),
                acc@ == a1 + entries_text(q.subrange(0, j as int)),
                h == string_hash(acc@),
            decreases sessionstorage@.len() - j,
        {
            assert(q.subrange(0, j + 1).drop_last() =~= q.subrange(0, j as int));
            hash_append(&mut acc, &mut h, sessionstorage[j].0.as_str());
            hash_append(&mut acc, &mut h, ":");
            hash_append(&mut acc, &mut h, sessionstorage[j].1.as_str());
            hash_append(&mut acc, &mut h, ";");
            j = j + 1;
        }
        assert(q.subrange(0, j as int) =~= q);
        let ghost a2 = acc@;
        let mut k: usize = 0;
        while k < indexeddb_dbs.len()
            invariant
                k <= indexeddb_dbs@.len(),
                acc@ == a2 + names_text(indexeddb_dbs@.subrange(0, k as int)),
                h == string_hash(acc@),
            decreases indexeddb_dbs@.len() - k,
        {
            assert(indexeddb_dbs@.subrange(0, k + 1).drop_last() =~= indexeddb_dbs@.subrange(0, k as int));
            hash_append(&mut acc, &mut h, indexeddb_dbs[k].as_str());
            hash_append(&mut acc, &mut h, ";");
            k = k + 1;
        }
        assert(indexeddb_dbs@.subrange(0, k as int) =~= indexeddb_dbs@);
        let ghost a3 = acc@;
        let mut m: usize = 0;
        while m < cookies.len()
            invariant
                m <= cookies@.len(),
                acc@ == a3 + cookies_text(cookies@.subrange(0, m as int)),
                h == string_hash(acc@),
            decreases cookies@.len() - m,
        {
            assert(cookies@.subrange(0, m + 1).drop_last() =~= cookies@.subrange(0, m as int));
            hash_append(&mut acc, &mut h, cookies[m].name.as_str());
            hash_append(&mut acc, &mut h, ":");
            hash_append(&mut acc, &mut h, cookies[m].domain.as_str());
            hash_append(&mut acc, &mut h, ";");
            m = m + 1;
        }
        assert(cookies@.subrange(0, m as int) =~= cookies@);
        let mut out: String = String::new();
        push_hex(&mut out, h);
        out
    }

    /// Which parts of the storage differ between two fingerprints (storage
    /// tables compared as maps).
    pub fn detect_changes(before: &StorageFingerprint, after: &StorageFingerprint) -> (r: StorageChanges)
        requires
            keys_unique(pairs_of(before.localstorage@)),
            keys_unique(pairs_of(after.localstorage@)),
            keys_unique(pairs_of(before.sessionstorage@)),
            keys_unique(pairs_of(after.sessionstorage@)),
        ensures
            r.localstorage_changed == !same_map(before.localstorage@, after.localstorage@),
            r.sessionstorage_changed == !same_map(before.sessionstorage@, after.sessionstorage@),
            r.indexeddb_changed == !(before.indexeddb_databases@.len() == after.indexeddb_databases@.len()
                && forall|i: int| 0 <= i < before.indexeddb_databases@.len()
                    ==> #[trigger] before.indexeddb_databases@[i]@ == after.indexeddb_databases@[i]@),
            r.cookies_changed == !same_cookie_lists(before.cookies@, after.cookies@),
            r.hash_changed == (before.storage_hash@ != after.storage_hash@),
    {
        let ls: bool = !same_tables(&before.localstorage, &after.localstorage);
        let ss: bool = !same_tables(&before.sessionstorage, &after.sessionstorage);
        let db: bool = !same_names(&before.indexeddb_databases, &after.indexeddb_databases);
        let ck: bool = !same_cookies(&before.cookies, &after.cookies);
        StorageChanges {
            localstorage_changed: ls,
            sessionstorage_changed: ss,
            indexeddb_changed: db,
            cookies_changed: ck,
            hash_changed: !str_eq(before.storage_hash.as_str(), after.storage_hash.as_str()),
        }
    }
}

/// A copy of a table.
fn copy_entries(t: &Vec<(String, String)>) -> (r: Vec<(String, String)>)
    ensures
        pairs_of(r@) == pairs_of(t@),
{
    let mut out: Vec<(String, String)> = Vec::new();
    let mut i: usize = 0;
    while i < t.len()
        invariant
            i <= t@.len(),
            out@.len() == i,
            forall|j: int| 0 <= j < i ==> #[trigger] out@[j].0@ == t@[j].0@ && out@[j].1@ == t@[j].1@,
        decreases t@.len() - i,
    {
        let k: String = t[i].0.clone();
        let v: String = t[i].1.clone();
        out.push((k, v));
        i = i + 1;
    }
    assert(pairs_of(out@) =~= pairs_of(t@));
    out
}

/// Whether two name lists are equal element by element.
fn same_names(a: &Vec<String>, b: &Vec<String>) -> (r: bool)
    ensures
        r == (a@.len() == b@.len() && forall|i: int| 0 <= i < a@.len() ==> #[trigger] a@[i]@ == b@[i]@),
{
    if a.len() != b.len() {
        return false;
    }
    let mut i: usize = 0;
    while i < a.len()
        invariant
            a@.len() == b@.len(),
            i <= a@.len(),
            forall|k: int| 0 <= k < i ==> #[trigger] a@[k]@ == b@[k]@,
        decreases a@.len() - i,
    {
        if !str_eq(a[i].as_str(), b[i].as_str()) {
            return false;
        }
        i = i + 1;
    }
    true
}

/// Whether two cookie descriptions agree in every field.
pub open spec fn same_cookie_info(x: CookieInfo, y: CookieInfo) -> bool {
    &&& x.name@ == y.name@
    &&& x.domain@ == y.domain@
    &&& x.path@ == y.path@
    &&& x.secure == y.secure
    &&& x.http_only == y.http_only
}

/// Whether two cookie lists are equal element by element.
pub open spec fn same_cookie_lists(a: Seq<CookieInfo>, b: Seq<CookieInfo>) -> bool {
    a.len() == b.len() && forall|i: int| 0 <= i < a.len() ==> #[trigger] same_cookie_info(a[i], b[i])
}

/// Whether two cookie lists are equal field by field.
fn same_cookies(a: &Vec<CookieInfo>, b: &Vec<CookieInfo>) -> (r: bool)
    ensures
        r == same_cookie_lists(a@, b@),
{
    if a.len() != b.len() {
        return false;
    }
    let mut i: usize = 0;
    while i < a.len()
        invariant
            a@.len() == b@.len(),
            i <= a@.len(),
            forall|k: int| 0 <= k < i ==> #[trigger] same_cookie_info(a@[k], b@[k]),
        decreases a@.len() - i,
    {
        let x: &CookieInfo = &a[i];
        let y: &CookieInfo = &b[i];
        if !(str_eq(x.name.as_str(), y.name.as_str()) && str_eq(x.domain.as_str(), y.domain.as_str())
            && str_eq(x.path.as_str(), y.path.as_str()) && x.secure == y.secure && x.http_only == y.http_only) {
            assert(!same_cookie_info(a@[i as int], b@[i as int]));
            return false;
        }
        i = i + 1;
    }
    true
}

/// Whether two tables with distinct keys hold the same map.
fn same_tables(a: &Vec<(String, String)>, b: &Vec<(String, String)>) -> (r: bool)
    requires
        keys_unique(pairs_of(a@)),
        keys_unique(pairs_of(b@)),
    ensures
        r == same_map(a@, b@),
{
    let ghost pa = pairs_of(a@);
    let ghost pb = pairs_of(b@);
    if a.len() != b.len() {
        proof { lemma_unique_map_len(pa); lemma_unique_map_len(pb); }
        return false;
    }
    let mut i: usize = 0;
    while i < a.len()
        invariant
            pa == pairs_of(a@),
            pb == pairs_of(b@),
            keys_unique(pa),
            keys_unique(pb),
            a@.len() == b@.len(),
            i <= a@.len(),
            forall|k: int| 0 <= k < i ==> map_of(pb).dom().contains(#[trigger] pa[k].0) && map_of(pb)[pa[k].0] == pa[k].1,
        decreases a@.len() - i,
    {
        proof { crate::header_map::lemma_map_of_dom(pb, pa[i as int].0); }
        match crate::header_map::header_get(b, a[i].0.as_str()) {
            Some(v) => {
                if !str_eq(v.as_str(), a[i].1.as_str()) {
                    proof { crate::header_map::lemma_map_of_index(pa, i as int); }
                    return false;
                }
            },
            None => {
                proof { crate::header_map::lemma_map_of_index(pa, i as int); }
                return false;
            },
        }
        i = i + 1;
    }
    proof { lemma_same_map_from_inclusion(pa, pb); }
    true
}

/// With distinct keys, the map has as many keys as there are pairs.
pub proof fn lemma_unique_map_len(p: Seq<(Seq<char>, Seq<char>)>)
    requires
        keys_unique(p),
    ensures
        map_of(p).dom().finite(),
        map_of(p).dom().len() == p.len(),
    decreases p.len(),
{
    if p.len() > 0 {
        let q = p.drop_last();
        assert(keys_unique(q)) by {
            assert forall|a: int, b: int| 0 <= a < b < q.len() implies #[trigger] q[a].0 != #[trigger] q[b].0 by {
                assert(q[a] == p[a] && q[b] == p[b]);
            }
        }
        lemma_unique_map_len(q);
        crate::header_map::lemma_map_of_dom(q, p.last().0);
        if map_of(q).dom().contains(p.last().0) {
            let i = choose|i: int| 0 <= i < q.len() && #[trigger] q[i].0 == p.last().0;
            assert(p[i].0 != p[p.len() - 1].0);
        }
    }
}

/// Two tables of the same size with distinct keys, where every pair of the
/// first is in the map of the second, hold the same map.
pub proof fn lemma_same_map_from_inclusion(pa: Seq<(Seq<char>, Seq<char>)>, pb: Seq<(Seq<char>, Seq<char>)>)
    requires
        keys_unique(pa),
        keys_unique(pb),
        pa.len() == pb.len(),
        forall|k: int| 0 <= k < pa.len() ==> map_of(pb).dom().contains(#[trigger] pa[k].0) && map_of(pb)[pa[k].0] == pa[k].1,
    ensures
        map_of(pa) == map_of(pb),
{
    lemma_unique_map_len(pa);
    lemma_unique_map_len(pb);
    let ma = map_of(pa);
    let mb = map_of(pb);
    assert forall|k: Seq<char>| #[trigger] ma.dom().contains(k) implies mb.dom().contains(k) && ma[k] == mb[k] by {
        crate::header_map::lemma_map_of_dom(pa, k);
        let i = choose|i: int| 0 <= i < pa.len() && #[trigger] pa[i].0 == k;
        assert(mb.dom().contains(pa[i].0) && mb[pa[i].0] == pa[i].1);
        crate::header_map::lemma_map_of_index(pa, i);
    }
    assert(ma.dom().subset_of(mb.dom()));
    vstd::set_lib::lemma_subset_equality(ma.dom(), mb.dom());
    assert(ma =~= mb);
}

} // verus!
