//! Registry of browser versions with their TLS and HTTP capabilities.
use vstd::prelude::*;
use crate::text::{decimal, push_decimal, str_eq};

verus! {

broadcast use vstd::string::group_string_axioms;

/// Browser type enumeration
#[derive(Debug, Clone, Copy, PartialEq, Eq, Structural, Hash)]
pub enum BrowserType {
    Chrome,
    Firefox,
    Safari,
    Edge,
    Opera,
}

/// Display name of a browser.
pub open spec fn browser_name(b: BrowserType) -> Seq<char> {
    match b {
        BrowserType::Chrome => "Chrome"@,
        BrowserType::Firefox => "Firefox"@,
        BrowserType::Safari => "Safari"@,
        BrowserType::Edge => "Edge"@,
        BrowserType::Opera => "Opera"@,
    }
}

/// Lower-case name of a browser, as used in profile keys.
pub open spec fn browser_key(b: BrowserType) -> Seq<char> {
    match b {
        BrowserType::Chrome => "chrome"@,
        BrowserType::Firefox => "firefox"@,
        BrowserType::Safari => "safari"@,
        BrowserType::Edge => "edge"@,
        BrowserType::Opera => "opera"@,
    }
}

impl BrowserType {
    /// Display name, such as `Chrome`.
    pub fn to_string(&self) -> (r: String)
        ensures
            r@ == browser_name(*self),
    {
        match self {
            BrowserType::Chrome => String::from_str("Chrome"),
            BrowserType::Firefox => String::from_str("Firefox"),
            BrowserType::Safari => String::from_str("Safari"),
            BrowserType::Edge => String::from_str("Edge"),
            BrowserType::Opera => String::from_str("Opera"),
        }
    }
}

/// Version entry with metadata
#[derive(Debug, Clone)]
pub struct VersionEntry {
    /// Browser version number
    pub version: u32,
    /// Release date (YYYY-MM-DD format)
    pub release_date: String,
    /// TLS 1.3 support status
    pub tls13_support: bool,
    /// ECH (RFC 9180) support
    pub ech_support: bool,
    /// HTTP/2 support
    pub http2_support: bool,
    /// HTTP/3 (QUIC) support
    pub http3_support: bool,
    /// PSK (session resumption) support
    pub psk_support: bool,
    /// 0-RTT (Early Data) support
    pub early_data_support: bool,
    /// Post-quantum hybrid KEMs support (Kyber768, etc.)
    pub pq_support: bool,
    /// Brotli compression support
    pub brotli_support: bool,
    /// Previous compatible version for migration
    pub fallback_version: Option<u32>,
    /// Profile function name
    pub profile_fn: String,
    /// Remarks or special features
    pub remarks: Option<String>,
}

/// Versions strictly increasing, so each occurs once.
pub open spec fn sorted_versions(s: Seq<VersionEntry>) -> bool {
    forall|i: int, j: int| 0 <= i < j < s.len() ==> #[trigger] s[i].version < #[trigger] s[j].version
}

/// Whether some entry has version `v`.
pub open spec fn has_version(s: Seq<VersionEntry>, v: u32) -> bool {
    exists|i: int| 0 <= i < s.len() && #[trigger] s[i].version == v
}

/// Index of the last entry whose version is below `v`.
pub open spec fn last_below(s: Seq<VersionEntry>, v: u32) -> Option<int>
    decreases s.len(),
{
    if s.len() == 0 {
        None
    } else if s.last().version < v {
        Some(s.len() - 1)
    } else {
        last_below(s.drop_last(), v)
    }
}

/// The version to fall back to for `v`: `v` itself when registered, else
/// the nearest lower one, else the highest one.
pub open spec fn nearest_compatible(s: Seq<VersionEntry>, v: u32) -> Option<u32> {
    if has_version(s, v) {
        Some(v)
    } else {
        match last_below(s, v) {
            Some(i) => Some(s[i].version),
            None => if s.len() > 0 {
                Some(s.last().version)
            } else {
                None
            },
        }
    }
}

/// An index found by `last_below` is in range and below `v`.
pub proof fn lemma_last_below_props(s: Seq<VersionEntry>, v: u32)
    ensures
        last_below(s, v) matches Some(i) ==> 0 <= i < s.len() && s[i].version < v,
    decreases s.len(),
{
    if s.len() > 0 && s.last().version >= v {
        lemma_last_below_props(s.drop_last(), v);
    }
}

/// The fallback version is always a registered one: for a browser with any
/// registered version, every version has a nearest compatible version, and
/// that version is in the list.
pub proof fn lemma_nearest_is_registered(s: Seq<VersionEntry>, v: u32)
    requires
        s.len() > 0,
    ensures
        nearest_compatible(s, v) matches Some(n) && has_version(s, n),
{
    lemma_last_below_props(s, v);
    if !has_version(s, v) {
        match last_below(s, v) {
            Some(i) => assert(s[i].version == s[i].version),
            None => assert(s[s.len() - 1].version == s.last().version),
        }
    }
}

/// Whether an entry supports a named feature: `ech`, `http3`, `psk`,
/// `early_data` or `pq`; other names match nothing.
pub open spec fn has_feature(e: VersionEntry, feature: Seq<char>) -> bool {
    if feature == "ech"@ {
        e.ech_support
    } else if feature == "http3"@ {
        e.http3_support
    } else if feature == "psk"@ {
        e.psk_support
    } else if feature == "early_data"@ {
        e.early_data_support
    } else if feature == "pq"@ {
        e.pq_support
    } else {
        false
    }
}

/// The entries with a feature, in order.
pub open spec fn with_feature(s: Seq<VersionEntry>, feature: Seq<char>) -> Seq<VersionEntry>
    decreases s.len(),
{
    if s.len() == 0 {
        Seq::empty()
    } else {
        with_feature(s.drop_last(), feature) + if has_feature(s.last(), feature) {
            seq![s.last()]
        } else {
            Seq::<VersionEntry>::empty()
        }
    }
}

/// Inserts an entry, replacing the one with the same version; the list
/// stays in version order.
fn insert_entry(list: &mut Vec<VersionEntry>, e: VersionEntry)
    requires
        sorted_versions(old(list)@),
    ensures
        sorted_versions(final(list)@),
        has_version(final(list)@, e.version),
        forall|i: int| 0 <= i < final(list)@.len() && final(list)@[i].version == e.version ==> #[trigger] final(list)@[i] == e,
        forall|v: u32| v != e.version ==> (has_version(final(list)@, v) <==> has_version(old(list)@, v)),
        forall|i: int| 0 <= i < old(list)@.len() && old(list)@[i].version != e.version
            ==> exists|j: int| 0 <= j < final(list)@.len() && #[trigger] final(list)@[j] == old(list)@[i],
        old(list)@.len() == 0 || old(list)@.last().version < e.version ==> final(list)@ == old(list)@.push(e),
{
    let ghost s = list@;
    let mut i: usize = 0;
    while i < list.len() && list[i].version < e.version
        invariant
            s == list@,
            i <= list@.len(),
            forall|k: int| 0 <= k < i ==> #[trigger] list@[k].version < e.version,
        decreases list@.len() - i,
    {
        i = i + 1;
    }
    let v: u32 = e.version;
    if i < list.len() && list[i].version == v {
        list.set(i, e);
        assert forall|a: int, b: int| 0 <= a < b < list@.len() implies #[trigger] list@[a].version < #[trigger] list@[b].version by {
            assert(s[a].version < s[b].version || a == i as int || b == i as int);
            if a == i as int {
                assert(s[a].version < s[b].version);
            }
            if b == i as int {
                assert(s[a].version < s[b].version);
            }
        }
        assert(list@[i as int].version == v);
        assert forall|w: u32| w != v implies (has_version(list@, w) <==> has_version(s, w)) by {
            if has_version(list@, w) {
                let k = choose|k: int| 0 <= k < list@.len() && #[trigger] list@[k].version == w;
                assert(s[k].version == w);
            }
            if has_version(s, w) {
                let k = choose|k: int| 0 <= k < s.len() && #[trigger] s[k].version == w;
                assert(list@[k].version == w);
            }
        }
        assert forall|a: int| 0 <= a < s.len() && s[a].version != v implies
            exists|j: int| 0 <= j < list@.len() && #[trigger] list@[j] == s[a] by {
            assert(list@[a] == s[a]);
        }
        assert forall|a: int| 0 <= a < list@.len() && list@[a].version == v implies #[trigger] list@[a] == e by {
            if a != i as int {
                assert(s[a].version == v);
                if a < i as int {
                    assert(s[a].version < v);
                } else {
                    assert(s[i as int].version < s[a].version);
                }
            }
        }
    } else {
        proof {
            if s.len() > 0 && s.last().version < v {
                assert forall|k: int| 0 <= k < s.len() implies #[trigger] s[k].version < v by {
                    if k < s.len() - 1 {
                        assert(s[k].version < s[s.len() - 1].version);
                    }
                }
                assert(i == s.len());
            }
        }
        list.insert(i, e);
        assert(list@ == s.insert(i as int, e));
        assert(s.len() == 0 || s.last().version < v ==> list@ =~= s.push(e));
        assert forall|a: int, b: int| 0 <= a < b < list@.len() implies #[trigger] list@[a].version < #[trigger] list@[b].version by {
            if a < i as int && b < i as int {
                assert(list@[a] == s[a] && list@[b] == s[b]);
            } else if a < i as int && b == i as int {
                assert(list@[a] == s[a]);
            } else if a < i as int {
                assert(list@[a] == s[a] && list@[b] == s[b - 1]);
                assert(s[i as int].version > v);
            } else if a == i as int {
                assert(list@[b] == s[b - 1]);
                assert(s[i as int].version > v);
                assert(s[i as int].version <= s[b - 1].version);
            } else {
                assert(list@[a] == s[a - 1] && list@[b] == s[b - 1]);
            }
        }
        assert(list@[i as int].version == v);
        assert forall|w: u32| w != v implies (has_version(list@, w) <==> has_version(s, w)) by {
            if has_version(list@, w) {
                let k = choose|k: int| 0 <= k < list@.len() && #[trigger] list@[k].version == w;
                if k < i as int {
                    assert(s[k].version == w);
                } else {
                    assert(s[k - 1].version == w);
                }
            }
            if has_version(s, w) {
                let k = choose|k: int| 0 <= k < s.len() && #[trigger] s[k].version == w;
                if k < i as int {
                    assert(list@[k].version == w);
                } else {
                    assert(list@[k + 1].version == w);
                }
            }
        }
        assert forall|a: int| 0 <= a < s.len() && s[a].version != v implies
            exists|j: int| 0 <= j < list@.len() && #[trigger] list@[j] == s[a] by {
            if a < i as int {
                assert(list@[a] == s[a]);
            } else {
                assert(list@[a + 1] == s[a]);
            }
        }
        assert forall|a: int| 0 <= a < list@.len() && list@[a].version == v implies #[trigger] list@[a] == e by {
            if a < i as int {
                assert(list@[a] == s[a]);
            } else if a > i as int {
                assert(list@[a] == s[a - 1]);
                assert(s[i as int].version > v);
                assert(s[i as int].version <= s[a - 1].version);
            }
        }
    }
}

/// The registered versions of a browser with their profile names.
pub open spec fn registry_of(b: BrowserType) -> Seq<(u32, Seq<char>)> {
    match b {
        BrowserType::Chrome => chrome_registry(),
        BrowserType::Firefox => firefox_registry(),
        BrowserType::Safari => safari_registry(),
        BrowserType::Edge => edge_registry(),
        BrowserType::Opera => opera_registry(),
    }
}

/// Version and profile name of each entry, in order.
pub open spec fn version_names(s: Seq<VersionEntry>) -> Seq<(u32, Seq<char>)> {
    Seq::new(s.len(), |i: int| (s[i].version, s[i].profile_fn@))
}

/// The registered Chrome versions with their profile names, in order.
pub open spec fn chrome_registry() -> Seq<(u32, Seq<char>)> {
    seq![
        (103u32, "chrome_103"@),
        (104u32, "chrome_104"@),
        (105u32, "chrome_105"@),
        (106u32, "chrome_106"@),
        (107u32, "chrome_107"@),
        (108u32, "chrome_108"@),
        (109u32, "chrome_109"@),
        (110u32, "chrome_110"@),
        (111u32, "chrome_111"@),
        (112u32, "chrome_112"@),
        (116u32, "chrome_116_psk"@),
        (117u32, "chrome_117"@),
        (120u32, "chrome_120"@),
        (121u32, "chrome_121"@),
        (122u32, "chrome_122"@),
        (123u32, "chrome_123"@),
        (124u32, "chrome_124"@),
        (125u32, "chrome_125"@),
        (126u32, "chrome_126"@),
        (127u32, "chrome_127"@),
        (128u32, "chrome_128"@),
        (129u32, "chrome_129"@),
        (130u32, "chrome_130"@),
        (131u32, "chrome_131"@),
        (132u32, "chrome_132"@),
        (133u32, "chrome_133"@),
        (134u32, "chrome_134"@),
        (135u32, "chrome_135"@),
        (136u32, "chrome_136"@),
        (137u32, "chrome_137"@),
        (138u32, "chrome_138"@),
        (1331u32, "chrome_133_psk"@),
        (1332u32, "chrome_133_0rtt"@),
        (1333u32, "chrome_133_psk_0rtt"@),
    ]
}

/// The registered Firefox versions with their profile names, in order.
pub open spec fn firefox_registry() -> Seq<(u32, Seq<char>)> {
    seq![
        (102u32, "firefox_102"@),
        (104u32, "firefox_104"@),
        (105u32, "firefox_105"@),
        (106u32, "firefox_106"@),
        (108u32, "firefox_108"@),
        (110u32, "firefox_110"@),
        (117u32, "firefox_117"@),
        (120u32, "firefox_120"@),
        (123u32, "firefox_123"@),
        (130u32, "firefox_130"@),
        (131u32, "firefox_131"@),
        (132u32, "firefox_132"@),
        (133u32, "firefox_133"@),
        (134u32, "firefox_134"@),
        (135u32, "firefox_135"@),
        (136u32, "firefox_136"@),
        (137u32, "firefox_137"@),
        (138u32, "firefox_138"@),
    ]
}

/// The registered Safari versions with their profile names, in order.
pub open spec fn safari_registry() -> Seq<(u32, Seq<char>)> {
    seq![
        (150u32, "safari_15_0"@),
        (156u32, "safari_15_6_1"@),
        (157u32, "safari_15_7"@),
        (160u32, "safari_16_0"@),
        (170u32, "safari_17_0"@),
        (175u32, "safari_17_5"@),
        (180u32, "safari_18_0"@),
        (181u32, "safari_18_1"@),
        (182u32, "safari_18_2"@),
        (183u32, "safari_18_3"@),
        (1550u32, "safari_ios_15_5"@),
        (1560u32, "safari_ios_15_6"@),
        (1600u32, "safari_ios_16_0"@),
        (1700u32, "safari_ios_17_0"@),
        (1800u32, "safari_ios_18_0"@),
        (1810u32, "safari_ios_18_1"@),
        (1820u32, "safari_ios_18_2"@),
        (1830u32, "safari_ios_18_3"@),
        (1850u32, "safari_ios_18_5"@),
        (15600u32, "safari_ipad_15_6"@),
    ]
}

/// The registered Edge versions with their profile names, in order.
pub open spec fn edge_registry() -> Seq<(u32, Seq<char>)> {
    seq![
        (120u32, "edge_120"@),
        (124u32, "edge_124"@),
        (125u32, "edge_125"@),
        (126u32, "edge_126"@),
        (130u32, "edge_130"@),
        (131u32, "edge_131"@),
        (132u32, "edge_132"@),
        (133u32, "edge_133"@),
        (134u32, "edge_134"@),
        (135u32, "edge_135"@),
        (137u32, "edge_137"@),
    ]
}

/// The registered Opera versions with their profile names, in order.
pub open spec fn opera_registry() -> Seq<(u32, Seq<char>)> {
    seq![
        (89u32, "opera_89"@),
        (90u32, "opera_90"@),
        (91u32, "opera_91"@),
        (92u32, "opera_92"@),
        (93u32, "opera_93"@),
        (94u32, "opera_94"@),
    ]
}

/// What a version entry holds, as values.
pub struct EntryModel {
    pub version: u32,
    pub release_date: Seq<char>,
    pub tls13_support: bool,
    pub ech_support: bool,
    pub http2_support: bool,
    pub http3_support: bool,
    pub psk_support: bool,
    pub early_data_support: bool,
    pub pq_support: bool,
    pub brotli_support: bool,
    pub fallback_version: Option<u32>,
    pub profile_fn: Seq<char>,
    pub remarks: Option<Seq<char>>,
}

/// The values of an entry.
pub open spec fn entry_model(e: VersionEntry) -> EntryModel {
    EntryModel {
        version: e.version,
        release_date: e.release_date@,
        tls13_support: e.tls13_support,
        ech_support: e.ech_support,
        http2_support: e.http2_support,
        http3_support: e.http3_support,
        psk_support: e.psk_support,
        early_data_support: e.early_data_support,
        pq_support: e.pq_support,
        brotli_support: e.brotli_support,
        fallback_version: e.fallback_version,
        profile_fn: e.profile_fn@,
        remarks: match e.remarks {
            Some(r) => Some(r@),
            None => None,
        },
    }
}

/// The values of each entry, in order.
pub open spec fn entries_view(s: Seq<VersionEntry>) -> Seq<EntryModel> {
    Seq::new(s.len(), |i: int| entry_model(s[i]))
}

/// A registered entry: the given date, flags, fallback and profile, with
/// Brotli support and no remarks.
pub open spec fn known_entry(
    version: u32,
    release_date: Seq<char>,
    tls13: bool,
    ech: bool,
    http2: bool,
    http3: bool,
    psk: bool,
    early_data: bool,
    pq: bool,
    fallback: Option<u32>,
    profile_fn: Seq<char>,
) -> EntryModel {
    EntryModel {
        version,
        release_date,
        tls13_support: tls13,
        ech_support: ech,
        http2_support: http2,
        http3_support: http3,
        psk_support: psk,
        early_data_support: early_data,
        pq_support: pq,
        brotli_support: true,
        fallback_version: fallback,
        profile_fn,
        remarks: None,
    }
}

/// The registered entries of a browser, complete.
pub open spec fn registry_entries(b: BrowserType) -> Seq<EntryModel> {
    match b {
        BrowserType::Chrome => chrome_entries(),
        BrowserType::Firefox => firefox_entries(),
        BrowserType::Safari => safari_entries(),
        BrowserType::Edge => edge_entries(),
        BrowserType::Opera => opera_entries(),
    }
}

/// The registered Chrome versions, complete, in order.
pub open spec fn chrome_entries() -> Seq<EntryModel> {
    seq![
        known_entry(103u32, "2022-09-01"@, true, false, true, false, false, false, false, None, "chrome_103"@),
        known_entry(104u32, "2022-10-01"@, true, false, true, false, false, false, false, Some(103u32), "chrome_104"@),
        known_entry(105u32, "2022-11-01"@, true, false, true, false, false, false, false, Some(104u32), "chrome_105"@),
        known_entry(106u32, "2022-12-01"@, true, false, true, false, false, false, false, Some(105u32), "chrome_106"@),
        known_entry(107u32, "2023-01-01"@, true, false, true, false, false, false, false, Some(106u32), "chrome_107"@),
        known_entry(108u32, "2023-02-01"@, true, false, true, false, false, false, false, Some(107u32), "chrome_108"@),
        known_entry(109u32, "2023-03-01"@, true, false, true, false, false, false, false, Some(108u32), "chrome_109"@),
        known_entry(110u32, "2023-04-01"@, true, false, true, false, false, false, false, Some(109u32), "chrome_110"@),
        known_entry(111u32, "2023-05-01"@, true, false, true, false, false, false, false, Some(110u32), "chrome_111"@),
        known_entry(112u32, "2023-06-01"@, true, false, true, false, false, false, false, Some(111u32), "chrome_112"@),
        known_entry(116u32, "2023-09-01"@, true, true, true, true, true, true, true, Some(112u32), "chrome_116_psk"@),
        known_entry(117u32, "2023-10-01"@, true, true, true, true, true, false, false, Some(116u32), "chrome_117"@),
        known_entry(120u32, "2024-01-01"@, true, true, true, true, true, true, true, Some(117u32), "chrome_120"@),
        known_entry(121u32, "2024-02-01"@, true, true, true, true, true, true, true, Some(120u32), "chrome_121"@),
        known_entry(122u32, "2024-03-01"@, true, true, true, true, true, true, true, Some(121u32), "chrome_122"@),
        known_entry(123u32, "2024-04-01"@, true, true, true, true, true, true, true, Some(122u32), "chrome_123"@),
        known_entry(124u32, "2024-05-01"@, true, true, true, true, true, true, true, Some(123u32), "chrome_124"@),
        known_entry(125u32, "2024-06-01"@, true, true, true, true, true, true, true, Some(124u32), "chrome_125"@),
        known_entry(126u32, "2024-07-01"@, true, true, true, true, true, true, true, Some(125u32), "chrome_126"@),
        known_entry(127u32, "2024-08-01"@, true, true, true, true, true, true, true, Some(126u32), "chrome_127"@),
        known_entry(128u32, "2024-09-01"@, true, true, true, true, true, true, true, Some(127u32), "chrome_128"@),
        known_entry(129u32, "2024-10-01"@, true, true, true, true, true, true, true, Some(128u32), "chrome_129"@),
        known_entry(130u32, "2024-11-01"@, true, true, true, true, true, true, true, Some(129u32), "chrome_130"@),
        known_entry(131u32, "2024-12-01"@, true, true, true, true, true, true, true, Some(130u32), "chrome_131"@),
        known_entry(132u32, "2025-01-01"@, true, true, true, true, true, true, true, Some(131u32), "chrome_132"@),
        known_entry(133u32, "2025-02-01"@, true, true, true, true, true, true, true, Some(132u32), "chrome_133"@),
        known_entry(134u32, "2025-03-01"@, true, true, true, true, true, true, true, Some(133u32), "chrome_134"@),
        known_entry(135u32, "2025-04-01"@, true, true, true, true, true, true, true, Some(134u32), "chrome_135"@),
        known_entry(136u32, "2025-05-01"@, true, true, true, true, true, true, true, Some(135u32), "chrome_136"@),
        known_entry(137u32, "2025-06-01"@, true, true, true, true, true, true, true, Some(136u32), "chrome_137"@),
        known_entry(138u32, "2025-07-01"@, true, true, true, true, true, true, true, Some(137u32), "chrome_138"@),
        known_entry(1331u32, "2025-02-01"@, true, true, true, true, true, false, false, Some(133u32), "chrome_133_psk"@),
        known_entry(1332u32, "2025-02-01"@, true, true, true, true, false, true, false, Some(133u32), "chrome_133_0rtt"@),
        known_entry(1333u32, "2025-02-01"@, true, true, true, true, true, true, false, Some(133u32), "chrome_133_psk_0rtt"@),
    ]
}

/// The registered Firefox versions, complete, in order.
pub open spec fn firefox_entries() -> Seq<EntryModel> {
    seq![
        known_entry(102u32, "2022-09-01"@, true, false, true, false, false, false, false, None, "firefox_102"@),
        known_entry(104u32, "2022-11-01"@, true, false, true, false, false, false, false, Some(102u32), "firefox_104"@),
        known_entry(105u32, "2022-12-01"@, true, false, true, false, false, false, false, Some(104u32), "firefox_105"@),
        known_entry(106u32, "2023-01-01"@, true, false, true, false, false, false, false, Some(105u32), "firefox_106"@),
        known_entry(108u32, "2023-03-01"@, true, false, true, false, false, false, false, Some(106u32), "firefox_108"@),
        known_entry(110u32, "2023-05-01"@, true, false, true, false, false, false, false, Some(108u32), "firefox_110"@),
        known_entry(117u32, "2023-12-01"@, true, false, true, false, false, false, false, Some(110u32), "firefox_117"@),
        known_entry(120u32, "2024-03-01"@, true, false, true, false, false, false, false, Some(117u32), "firefox_120"@),
        known_entry(123u32, "2024-06-01"@, true, false, true, false, false, false, false, Some(120u32), "firefox_123"@),
        known_entry(130u32, "2024-09-01"@, true, true, true, true, true, true, true, Some(123u32), "firefox_130"@),
        known_entry(131u32, "2024-10-01"@, true, true, true, true, true, true, true, Some(130u32), "firefox_131"@),
        known_entry(132u32, "2024-11-01"@, true, true, true, true, true, true, true, Some(131u32), "firefox_132"@),
        known_entry(133u32, "2024-12-01"@, true, true, true, true, true, true, true, Some(132u32), "firefox_133"@),
        known_entry(134u32, "2025-01-01"@, true, true, true, true, true, true, true, Some(133u32), "firefox_134"@),
        known_entry(135u32, "2025-02-01"@, true, true, true, true, true, true, true, Some(134u32), "firefox_135"@),
        known_entry(136u32, "2025-03-01"@, true, true, true, true, true, true, true, Some(135u32), "firefox_136"@),
        known_entry(137u32, "2025-04-01"@, true, true, true, true, true, true, true, Some(136u32), "firefox_137"@),
        known_entry(138u32, "2025-05-01"@, true, true, true, true, true, true, true, Some(137u32), "firefox_138"@),
    ]
}

/// The registered Safari versions, complete, in order.
pub open spec fn safari_entries() -> Seq<EntryModel> {
    seq![
        known_entry(150u32, "2021-09-01"@, true, false, true, false, false, false, false, None, "safari_15_0"@),
        known_entry(156u32, "2022-03-01"@, true, false, true, false, false, false, false, Some(150u32), "safari_15_6_1"@),
        known_entry(157u32, "2022-06-01"@, true, false, true, false, false, false, false, Some(156u32), "safari_15_7"@),
        known_entry(160u32, "2022-09-01"@, true, false, true, false, false, false, false, Some(157u32), "safari_16_0"@),
        known_entry(170u32, "2023-09-01"@, true, true, true, true, true, false, false, Some(160u32), "safari_17_0"@),
        known_entry(175u32, "2023-12-01"@, true, true, true, true, true, false, false, Some(170u32), "safari_17_5"@),
        known_entry(180u32, "2024-09-01"@, true, true, true, true, true, true, true, Some(175u32), "safari_18_0"@),
        known_entry(181u32, "2024-10-01"@, true, true, true, true, true, true, true, Some(180u32), "safari_18_1"@),
        known_entry(182u32, "2024-11-01"@, true, true, true, true, true, true, true, Some(181u32), "safari_18_2"@),
        known_entry(183u32, "2024-12-01"@, true, true, true, true, true, true, true, Some(182u32), "safari_18_3"@),
        known_entry(1550u32, "2022-01-01"@, true, false, true, false, false, false, false, Some(150u32), "safari_ios_15_5"@),
        known_entry(1560u32, "2022-03-01"@, true, false, true, false, false, false, false, Some(1550u32), "safari_ios_15_6"@),
        known_entry(1600u32, "2022-09-01"@, true, false, true, false, false, false, false, Some(1560u32), "safari_ios_16_0"@),
        known_entry(1700u32, "2023-09-01"@, true, true, true, true, true, false, false, Some(1600u32), "safari_ios_17_0"@),
        known_entry(1800u32, "2024-09-01"@, true, true, true, true, true, true, true, Some(1700u32), "safari_ios_18_0"@),
        known_entry(1810u32, "2024-10-01"@, true, true, true, true, true, true, true, Some(1800u32), "safari_ios_18_1"@),
        known_entry(1820u32, "2024-11-01"@, true, true, true, true, true, true, true, Some(1810u32), "safari_ios_18_2"@),
        known_entry(1830u32, "2024-12-01"@, true, true, true, true, true, true, true, Some(1820u32), "safari_ios_18_3"@),
        known_entry(1850u32, "2025-02-01"@, true, true, true, true, true, true, true, Some(1830u32), "safari_ios_18_5"@),
        known_entry(15600u32, "2022-03-01"@, true, false, true, false, false, false, false, Some(150u32), "safari_ipad_15_6"@),
    ]
}

/// The registered Edge versions, complete, in order.
pub open spec fn edge_entries() -> Seq<EntryModel> {
    seq![
        known_entry(120u32, "2024-01-01"@, true, true, true, true, true, true, true, None, "edge_120"@),
        known_entry(124u32, "2024-05-01"@, true, true, true, true, true, true, true, Some(120u32), "edge_124"@),
        known_entry(125u32, "2024-06-01"@, true, true, true, true, true, true, true, Some(124u32), "edge_125"@),
        known_entry(126u32, "2024-07-01"@, true, true, true, true, true, true, true, Some(125u32), "edge_126"@),
        known_entry(130u32, "2024-11-01"@, true, true, true, true, true, true, true, Some(126u32), "edge_130"@),
        known_entry(131u32, "2024-12-01"@, true, true, true, true, true, true, true, Some(130u32), "edge_131"@),
        known_entry(132u32, "2025-01-01"@, true, true, true, true, true, true, true, Some(131u32), "edge_132"@),
        known_entry(133u32, "2025-02-01"@, true, true, true, true, true, true, true, Some(132u32), "edge_133"@),
        known_entry(134u32, "2025-03-01"@, true, true, true, true, true, true, true, Some(133u32), "edge_134"@),
        known_entry(135u32, "2025-04-01"@, true, true, true, true, true, true, true, Some(134u32), "edge_135"@),
        known_entry(137u32, "2025-06-01"@, true, true, true, true, true, true, true, Some(135u32), "edge_137"@),
    ]
}

/// The registered Opera versions, complete, in order.
pub open spec fn opera_entries() -> Seq<EntryModel> {
    seq![
        known_entry(89u32, "2023-09-01"@, true, false, true, false, false, false, false, None, "opera_89"@),
        known_entry(90u32, "2023-10-01"@, true, false, true, false, false, false, false, Some(89u32), "opera_90"@),
        known_entry(91u32, "2023-11-01"@, true, true, true, true, true, false, false, Some(90u32), "opera_91"@),
        known_entry(92u32, "2023-12-01"@, true, true, true, true, true, false, false, Some(91u32), "opera_92"@),
        known_entry(93u32, "2024-01-01"@, true, true, true, true, true, false, false, Some(92u32), "opera_93"@),
        known_entry(94u32, "2024-02-01"@, true, true, true, true, true, true, true, Some(93u32), "opera_94"@),
    ]
}

/// Registers a version above all registered ones, with Brotli support and
/// no remarks.
fn add_version(
    list: &mut Vec<VersionEntry>,
    version: u32,
    release_date: &str,
    tls13: bool,
    ech: bool,
    http2: bool,
    http3: bool,
    psk: bool,
    early_data: bool,
    pq: bool,
    fallback: Option<u32>,
    profile_fn: &str,
)
    requires
        sorted_versions(old(list)@),
        old(list)@.len() == 0 || old(list)@.last().version < version,
    ensures
        sorted_versions(final(list)@),
        final(list)@.len() > 0,
        final(list)@.last().version == version,
        version_names(final(list)@) == version_names(old(list)@).push((version, profile_fn@)),
        entries_view(final(list)@) == entries_view(old(list)@).push(known_entry(
            version,
            release_date@,
            tls13,
            ech,
            http2,
            http3,
            psk,
            early_data,
            pq,
            fallback,
            profile_fn@,
        )),
{
    let e = VersionEntry {
        version,
        release_date: String::from_str(release_date),
        tls13_support: tls13,
        ech_support: ech,
        http2_support: http2,
        http3_support: http3,
        psk_support: psk,
        early_data_support: early_data,
        pq_support: pq,
        brotli_support: true,
        fallback_version: fallback,
        profile_fn: String::from_str(profile_fn),
        remarks: None,
    };
    let ghost old_list = list@;
    insert_entry(list, e);
    assert(version_names(list@) =~= version_names(old_list).push((version, profile_fn@)));
    assert(entries_view(list@) =~= entries_view(old_list).push(entry_model(e)));
}

/// The Chrome versions.
#[verifier::rlimit(60)]
fn init_chrome_versions(list: &mut Vec<VersionEntry>)
    requires
        old(list)@.len() == 0,
    ensures
        sorted_versions(final(list)@),
        version_names(final(list)@) == chrome_registry(),
        entries_view(final(list)@) == chrome_entries(),
{
    assert(version_names(list@) =~= Seq::<(u32, Seq<char>)>::empty());
    assert(entries_view(list@) =~= Seq::<EntryModel>::empty());
        add_version(list, 103, "2022-09-01", true, false, true, false, false, false, false, None, "chrome_103");
        add_version(list, 104, "2022-10-01", true, false, true, false, false, false, false, Some(103), "chrome_104");
        add_version(list, 105, "2022-11-01", true, false, true, false, false, false, false, Some(104), "chrome_105");
        add_version(list, 106, "2022-12-01", true, false, true, false, false, false, false, Some(105), "chrome_106");
        add_version(list, 107, "2023-01-01", true, false, true, false, false, false, false, Some(106), "chrome_107");
        add_version(list, 108, "2023-02-01", true, false, true, false, false, false, false, Some(107), "chrome_108");
        add_version(list, 109, "2023-03-01", true, false, true, false, false, false, false, Some(108), "chrome_109");
        add_version(list, 110, "2023-04-01", true, false, true, false, false, false, false, Some(109), "chrome_110");
        add_version(list, 111, "2023-05-01", true, false, true, false, false, false, false, Some(110), "chrome_111");
        add_version(list, 112, "2023-06-01", true, false, true, false, false, false, false, Some(111), "chrome_112");
        add_version(list, 116, "2023-09-01", true, true, true, true, true, true, true, Some(112), "chrome_116_psk");
        add_version(list, 117, "2023-10-01", true, true, true, true, true, false, false, Some(116), "chrome_117");
        add_version(list, 120, "2024-01-01", true, true, true, true, true, true, true, Some(117), "chrome_120");
        add_version(list, 121, "2024-02-01", true, true, true, true, true, true, true, Some(120), "chrome_121");
        add_version(list, 122, "2024-03-01", true, true, true, true, true, true, true, Some(121), "chrome_122");
        add_version(list, 123, "2024-04-01", true, true, true, true, true, true, true, Some(122), "chrome_123");
        add_version(list, 124, "2024-05-01", true, true, true, true, true, true, true, Some(123), "chrome_124");
        add_version(list, 125, "2024-06-01", true, true, true, true, true, true, true, Some(124), "chrome_125");
        add_version(list, 126, "2024-07-01", true, true, true, true, true, true, true, Some(125), "chrome_126");
        add_version(list, 127, "2024-08-01", true, true, true, true, true, true, true, Some(126), "chrome_127");
        add_version(list, 128, "2024-09-01", true, true, true, true, true, true, true, Some(127), "chrome_128");
        add_version(list, 129, "2024-10-01", true, true, true, true, true, true, true, Some(128), "chrome_129");
        add_version(list, 130, "2024-11-01", true, true, true, true, true, true, true, Some(129), "chrome_130");
        add_version(list, 131, "2024-12-01", true, true, true, true, true, true, true, Some(130), "chrome_131");
        add_version(list, 132, "2025-01-01", true, true, true, true, true, true, true, Some(131), "chrome_132");
        add_version(list, 133, "2025-02-01", true, true, true, true, true, true, true, Some(132), "chrome_133");
        add_version(list, 134, "2025-03-01", true, true, true, true, true, true, true, Some(133), "chrome_134");
        add_version(list, 135, "2025-04-01", true, true, true, true, true, true, true, Some(134), "chrome_135");
        add_version(list, 136, "2025-05-01", true, true, true, true, true, true, true, Some(135), "chrome_136");
        add_version(list, 137, "2025-06-01", true, true, true, true, true, true, true, Some(136), "chrome_137");
        add_version(list, 138, "2025-07-01", true, true, true, true, true, true, true, Some(137), "chrome_138");
        add_version(list, 1331, "2025-02-01", true, true, true, true, true, false, false, Some(133), "chrome_133_psk");
        add_version(list, 1332, "2025-02-01", true, true, true, true, false, true, false, Some(133), "chrome_133_0rtt");
        add_version(list, 1333, "2025-02-01", true, true, true, true, true, true, false, Some(133), "chrome_133_psk_0rtt");
}

/// The Firefox versions.
fn init_firefox_versions(list: &mut Vec<VersionEntry>)
    requires
        old(list)@.len() == 0,
    ensures
        sorted_versions(final(list)@),
        version_names(final(list)@) == firefox_registry(),
        entries_view(final(list)@) == firefox_entries(),
{
    assert(version_names(list@) =~= Seq::<(u32, Seq<char>)>::empty());
    assert(entries_view(list@) =~= Seq::<EntryModel>::empty());
        add_version(list, 102, "2022-09-01", true, false, true, false, false, false, false, None, "firefox_102");
        add_version(list, 104, "2022-11-01", true, false, true, false, false, false, false, Some(102), "firefox_104");
        add_version(list, 105, "2022-12-01", true, false, true, false, false, false, false, Some(104), "firefox_105");
        add_version(list, 106, "2023-01-01", true, false, true, false, false, false, false, Some(105), "firefox_106");
        add_version(list, 108, "2023-03-01", true, false, true, false, false, false, false, Some(106), "firefox_108");
        add_version(list, 110, "2023-05-01", true, false, true, false, false, false, false, Some(108), "firefox_110");
        add_version(list, 117, "2023-12-01", true, false, true, false, false, false, false, Some(110), "firefox_117");
        add_version(list, 120, "2024-03-01", true, false, true, false, false, false, false, Some(117), "firefox_120");
        add_version(list, 123, "2024-06-01", true, false, true, false, false, false, false, Some(120), "firefox_123");
        add_version(list, 130, "2024-09-01", true, true, true, true, true, true, true, Some(123), "firefox_130");
        add_version(list, 131, "2024-10-01", true, true, true, true, true, true, true, Some(130), "firefox_131");
        add_version(list, 132, "2024-11-01", true, true, true, true, true, true, true, Some(131), "firefox_132");
        add_version(list, 133, "2024-12-01", true, true, true, true, true, true, true, Some(132), "firefox_133");
        add_version(list, 134, "2025-01-01", true, true, true, true, true, true, true, Some(133), "firefox_134");
        add_version(list, 135, "2025-02-01", true, true, true, true, true, true, true, Some(134), "firefox_135");
        add_version(list, 136, "2025-03-01", true, true, true, true, true, true, true, Some(135), "firefox_136");
        add_version(list, 137, "2025-04-01", true, true, true, true, true, true, true, Some(136), "firefox_137");
        add_version(list, 138, "2025-05-01", true, true, true, true, true, true, true, Some(137), "firefox_138");
}

/// The Safari versions.
fn init_safari_versions(list: &mut Vec<VersionEntry>)
    requires
        old(list)@.len() == 0,
    ensures
        sorted_versions(final(list)@),
        version_names(final(list)@) == safari_registry(),
        entries_view(final(list)@) == safari_entries(),
{
    assert(version_names(list@) =~= Seq::<(u32, Seq<char>)>::empty());
    assert(entries_view(list@) =~= Seq::<EntryModel>::empty());
        add_version(list, 150, "2021-09-01", true, false, true, false, false, false, false, None, "safari_15_0");
        add_version(list, 156, "2022-03-01", true, false, true, false, false, false, false, Some(150), "safari_15_6_1");
        add_version(list, 157, "2022-06-01", true, false, true, false, false, false, false, Some(156), "safari_15_7");
        add_version(list, 160, "2022-09-01", true, false, true, false, false, false, false, Some(157), "safari_16_0");
        add_version(list, 170, "2023-09-01", true, true, true, true, true, false, false, Some(160), "safari_17_0");
        add_version(list, 175, "2023-12-01", true, true, true, true, true, false, false, Some(170), "safari_17_5");
        add_version(list, 180, "2024-09-01", true, true, true, true, true, true, true, Some(175), "safari_18_0");
        add_version(list, 181, "2024-10-01", true, true, true, true, true, true, true, Some(180), "safari_18_1");
        add_version(list, 182, "2024-11-01", true, true, true, true, true, true, true, Some(181), "safari_18_2");
        add_version(list, 183, "2024-12-01", true, true, true, true, true, true, true, Some(182), "safari_18_3");
        add_version(list, 1550, "2022-01-01", true, false, true, false, false, false, false, Some(150), "safari_ios_15_5");
        add_version(list, 1560, "2022-03-01", true, false, true, false, false, false, false, Some(1550), "safari_ios_15_6");
        add_version(list, 1600, "2022-09-01", true, false, true, false, false, false, false, Some(1560), "safari_ios_16_0");
        add_version(list, 1700, "2023-09-01", true, true, true, true, true, false, false, Some(1600), "safari_ios_17_0");
        add_version(list, 1800, "2024-09-01", true, true, true, true, true, true, true, Some(1700), "safari_ios_18_0");
        add_version(list, 1810, "2024-10-01", true, true, true, true, true, true, true, Some(1800), "safari_ios_18_1");
        add_version(list, 1820, "2024-11-01", true, true, true, true, true, true, true, Some(1810), "safari_ios_18_2");
        add_version(list, 1830, "2024-12-01", true, true, true, true, true, true, true, Some(1820), "safari_ios_18_3");
        add_version(list, 1850, "2025-02-01", true, true, true, true, true, true, true, Some(1830), "safari_ios_18_5");
        add_version(list, 15600, "2022-03-01", true, false, true, false, false, false, false, Some(150), "safari_ipad_15_6");
}

/// The Edge versions.
fn init_edge_versions(list: &mut Vec<VersionEntry>)
    requires
        old(list)@.len() == 0,
    ensures
        sorted_versions(final(list)@),
        version_names(final(list)@) == edge_registry(),
        entries_view(final(list)@) == edge_entries(),
{
    assert(version_names(list@) =~= Seq::<(u32, Seq<char>)>::empty());
    assert(entries_view(list@) =~= Seq::<EntryModel>::empty());
        add_version(list, 120, "2024-01-01", true, true, true, true, true, true, true, None, "edge_120");
        add_version(list, 124, "2024-05-01", true, true, true, true, true, true, true, Some(120), "edge_124");
        add_version(list, 125, "2024-06-01", true, true, true, true, true, true, true, Some(124), "edge_125");
        add_version(list, 126, "2024-07-01", true, true, true, true, true, true, true, Some(125), "edge_126");
        add_version(list, 130, "2024-11-01", true, true, true, true, true, true, true, Some(126), "edge_130");
        add_version(list, 131, "2024-12-01", true, true, true, true, true, true, true, Some(130), "edge_131");
        add_version(list, 132, "2025-01-01", true, true, true, true, true, true, true, Some(131), "edge_132");
        add_version(list, 133, "2025-02-01", true, true, true, true, true, true, true, Some(132), "edge_133");
        add_version(list, 134, "2025-03-01", true, true, true, true, true, true, true, Some(133), "edge_134");
        add_version(list, 135, "2025-04-01", true, true, true, true, true, true, true, Some(134), "edge_135");
        add_version(list, 137, "2025-06-01", true, true, true, true, true, true, true, Some(135), "edge_137");
}

/// The Opera versions.
fn init_opera_versions(list: &mut Vec<VersionEntry>)
    requires
        old(list)@.len() == 0,
    ensures
        sorted_versions(final(list)@),
        version_names(final(list)@) == opera_registry(),
        entries_view(final(list)@) == opera_entries(),
{
    assert(version_names(list@) =~= Seq::<(u32, Seq<char>)>::empty());
    assert(entries_view(list@) =~= Seq::<EntryModel>::empty());
        add_version(list, 89, "2023-09-01", true, false, true, false, false, false, false, None, "opera_89");
        add_version(list, 90, "2023-10-01", true, false, true, false, false, false, false, Some(89), "opera_90");
        add_version(list, 91, "2023-11-01", true, true, true, true, true, false, false, Some(90), "opera_91");
        add_version(list, 92, "2023-12-01", true, true, true, true, true, false, false, Some(91), "opera_92");
        add_version(list, 93, "2024-01-01", true, true, true, true, true, false, false, Some(92), "opera_93");
        add_version(list, 94, "2024-02-01", true, true, true, true, true, true, true, Some(93), "opera_94");
}

/// Browser version registry: the versions of each browser in increasing
/// order, each version once.
#[derive(Debug, Clone)]
pub struct VersionRegistry {
    /// Chrome versions
    pub chrome: Vec<VersionEntry>,
    /// Firefox versions
    pub firefox: Vec<VersionEntry>,
    /// Safari versions
    pub safari: Vec<VersionEntry>,
    /// Edge versions
    pub edge: Vec<VersionEntry>,
    /// Opera versions
    pub opera: Vec<VersionEntry>,
}

impl VersionRegistry {
    /// Each browser's versions are in increasing order.
    pub open spec fn wf(&self) -> bool {
        &&& sorted_versions(self.chrome@)
        &&& sorted_versions(self.firefox@)
        &&& sorted_versions(self.safari@)
        &&& sorted_versions(self.edge@)
        &&& sorted_versions(self.opera@)
    }

    /// The versions of a browser.
    pub open spec fn versions(&self, browser: BrowserType) -> Seq<VersionEntry> {
        match browser {
            BrowserType::Chrome => self.chrome@,
            BrowserType::Firefox => self.firefox@,
            BrowserType::Safari => self.safari@,
            BrowserType::Edge => self.edge@,
            BrowserType::Opera => self.opera@,
        }
    }

    /// A registry of the known browser versions.
    pub fn new() -> (r: Self)
        ensures
            r.wf(),
            forall|b: BrowserType| version_names(#[trigger] r.versions(b)) == registry_of(b),
            forall|b: BrowserType| entries_view(#[trigger] r.versions(b)) == registry_entries(b),
    {
        let mut r = VersionRegistry {
            chrome: Vec::new(),
            firefox: Vec::new(),
            safari: Vec::new(),
            edge: Vec::new(),
            opera: Vec::new(),
        };
        init_chrome_versions(&mut r.chrome);
        init_firefox_versions(&mut r.firefox);
        init_safari_versions(&mut r.safari);
        init_edge_versions(&mut r.edge);
        init_opera_versions(&mut r.opera);
        r
    }

    /// The versions of a browser.
    fn list(&self, browser: BrowserType) -> (r: &Vec<VersionEntry>)
        ensures
            r@ == self.versions(browser),
    {
        match browser {
            BrowserType::Chrome => &self.chrome,
            BrowserType::Firefox => &self.firefox,
            BrowserType::Safari => &self.safari,
            BrowserType::Edge => &self.edge,
            BrowserType::Opera => &self.opera,
        }
    }

    /// The entry of a browser version, if registered.
    pub fn get_version(&self, browser: BrowserType, version: u32) -> (r: Option<&VersionEntry>)
        ensures
            r is Some <==> has_version(self.versions(browser), version),
            r matches Some(e) ==> e.version == version && exists|i: int|
                0 <= i < self.versions(browser).len() && #[trigger] self.versions(browser)[i] == *e,
    {
        let list = self.list(browser);
        let mut i: usize = 0;
        while i < list.len()
            invariant
                i <= list@.len(),
                list@ == self.versions(browser),
                forall|k: int| 0 <= k < i ==> #[trigger] list@[k].version != version,
            decreases list@.len() - i,
        {
            if list[i].version == version {
                return Some(&list[i]);
            }
            i = i + 1;
        }
        None
    }

    /// The version to fall back to: the version itself when registered,
    /// else the nearest lower one, else the highest one.
    pub fn find_nearest_compatible(&self, browser: BrowserType, version: u32) -> (r: Option<u32>)
        ensures
            r == nearest_compatible(self.versions(browser), version),
    {
        if self.get_version(browser, version).is_some() {
            return Some(version);
        }
        let list = self.list(browser);
        let ghost s = list@;
        let mut k: usize = list.len();
        assert(s.subrange(0, k as int) =~= s);
        while k > 0 && list[k - 1].version >= version
            invariant
                s == list@,
                k <= s.len(),
                last_below(s, version) == last_below(s.subrange(0, k as int), version),
            decreases k,
        {
            assert(s.subrange(0, k as int).drop_last() =~= s.subrange(0, k - 1));
            k = k - 1;
        }
        if k > 0 {
            assert(s.subrange(0, k as int).last() == s[k - 1]);
            Some(list[k - 1].version)
        } else {
            assert(last_below(s.subrange(0, 0), version) is None);
            if list.len() > 0 {
                Some(list[list.len() - 1].version)
            } else {
                None
            }
        }
    }

    /// The highest version of a browser, if any.
    pub fn get_latest(&self, browser: BrowserType) -> (r: Option<&VersionEntry>)
        ensures
            r is Some <==> self.versions(browser).len() > 0,
            r matches Some(e) ==> *e == self.versions(browser).last(),
    {
        let list = self.list(browser);
        if list.len() > 0 {
            Some(&list[list.len() - 1])
        } else {
            None
        }
    }

    /// All versions of a browser with their entries, in increasing order.
    pub fn get_all_versions(&self, browser: BrowserType) -> (r: Vec<(&u32, &VersionEntry)>)
        ensures
            r@.len() == self.versions(browser).len(),
            forall|i: int| 0 <= i < r@.len() ==> *(#[trigger] r@[i]).1 == self.versions(browser)[i]
                && *r@[i].0 == self.versions(browser)[i].version,
    {
        let list = self.list(browser);
        let mut out: Vec<(&u32, &VersionEntry)> = Vec::new();
        let mut i: usize = 0;
        while i < list.len()
            invariant
                i <= list@.len(),
                out@.len() == i,
                forall|k: int| 0 <= k < i ==> *(#[trigger] out@[k]).1 == list@[k] && *out@[k].0 == list@[k].version,
            decreases list@.len() - i,
        {
            let e: &VersionEntry = &list[i];
            out.push((&e.version, e));
            i = i + 1;
        }
        out
    }

    /// The versions of a browser that support a feature (`ech`, `http3`,
    /// `psk`, `early_data` or `pq`), in increasing order.
    pub fn get_with_feature(&self, browser: BrowserType, feature: &str) -> (r: Vec<(&u32, &VersionEntry)>)
        ensures
            r@.len() == with_feature(self.versions(browser), feature@).len(),
            forall|i: int| 0 <= i < r@.len() ==> *(#[trigger] r@[i]).1 == with_feature(self.versions(browser), feature@)[i]
                && *r@[i].0 == r@[i].1.version,
    {
        let list = self.list(browser);
        let ghost s = list@;
        let which: u8 = if str_eq(feature, "ech") {
            1
        } else if str_eq(feature, "http3") {
            2
        } else if str_eq(feature, "psk") {
            3
        } else if str_eq(feature, "early_data") {
            4
        } else if str_eq(feature, "pq") {
            5
        } else {
            0
        };
        let mut out: Vec<(&u32, &VersionEntry)> = Vec::new();
        let mut i: usize = 0;
        while i < list.len()
            invariant
                s == list@,
                i <= s.len(),
                which == (if feature@ == "ech"@ { 1u8 } else if feature@ == "http3"@ { 2u8 } else if feature@ == "psk"@ {
                    3u8
                } else if feature@ == "early_data"@ { 4u8 } else if feature@ == "pq"@ { 5u8 } else { 0u8 }),
                out@.len() == with_feature(s.subrange(0, i as int), feature@).len(),
                forall|k: int| 0 <= k < out@.len() ==> *(#[trigger] out@[k]).1 == with_feature(s.subrange(0, i as int), feature@)[k]
                    && *out@[k].0 == out@[k].1.version,
            decreases s.len() - i,
        {
            let ghost before = with_feature(s.subrange(0, i as int), feature@);
            assert(s.subrange(0, i + 1).drop_last() =~= s.subrange(0, i as int));
            let e: &VersionEntry = &list[i];
            let keep: bool = match which {
                1 => e.ech_support,
                2 => e.http3_support,
                3 => e.psk_support,
                4 => e.early_data_support,
                5 => e.pq_support,
                _ => false,
            };
            assert(keep == has_feature(s[i as int], feature@));
            if keep {
                out.push((&e.version, e));
                assert(with_feature(s.subrange(0, i + 1), feature@) =~= before.push(s[i as int]));
            } else {
                assert(with_feature(s.subrange(0, i + 1), feature@) =~= before);
            }
            i = i + 1;
        }
        assert(s.subrange(0, i as int) =~= s);
        out
    }

    /// For each version of a browser, in increasing order, the key
    /// `<browser>_<version>` (browser in lower case) with its profile
    /// function name.
    pub fn get_migration_map(&self, browser: BrowserType) -> (r: Vec<(String, String)>)
        ensures
            r@.len() == self.versions(browser).len(),
            forall|i: int| 0 <= i < r@.len() ==> (#[trigger] r@[i]).0@ == browser_key(browser) + "_"@
                + decimal(self.versions(browser)[i].version as nat)
                && r@[i].1@ == self.versions(browser)[i].profile_fn@,
    {
        let list = self.list(browser);
        let mut out: Vec<(String, String)> = Vec::new();
        let mut i: usize = 0;
        while i < list.len()
            invariant
                i <= list@.len(),
                list@ == self.versions(browser),
                out@.len() == i,
                forall|k: int| 0 <= k < i ==> (#[trigger] out@[k]).0@ == browser_key(browser) + "_"@
                    + decimal(list@[k].version as nat) && out@[k].1@ == list@[k].profile_fn@,
            decreases list@.len() - i,
        {
            let mut key: String = match browser {
                BrowserType::Chrome => String::from_str("chrome_"),
                BrowserType::Firefox => String::from_str("firefox_"),
                BrowserType::Safari => String::from_str("safari_"),
                BrowserType::Edge => String::from_str("edge_"),
                BrowserType::Opera => String::from_str("opera_"),
            };
            proof {
                reveal_strlit("chrome_");
                reveal_strlit("chrome");
                reveal_strlit("firefox_");
                reveal_strlit("firefox");
                reveal_strlit("safari_");
                reveal_strlit("safari");
                reveal_strlit("edge_");
                reveal_strlit("edge");
                reveal_strlit("opera_");
                reveal_strlit("opera");
                reveal_strlit("_");
            }
            assert(key@ =~= browser_key(browser) + "_"@);
            push_decimal(&mut key, list[i].version as u64);
            out.push((key, list[i].profile_fn.clone()));
            i = i + 1;
        }
        out
    }
}

impl Default for VersionRegistry {
    /// The same as [`VersionRegistry::new`].
    fn default() -> (r: Self)
        ensures
            r.wf(),
    {
        Self::new()
    }
}

/// An entry of table `t` supports TLS 1.3, HTTP/2 and Brotli, names a
/// profile, and falls back, if at all, to a lower version of `t`.
pub open spec fn entry_sound(t: Seq<EntryModel>, i: int) -> bool {
    &&& t[i].tls13_support
    &&& t[i].http2_support
    &&& t[i].brotli_support
    &&& t[i].profile_fn.len() > 0
    &&& (t[i].fallback_version matches Some(f) ==> f < t[i].version && exists|j: int|
        0 <= j < t.len() && #[trigger] t[j].version == f)
}

#[verifier::rlimit(100)]
proof fn lemma_chrome_sound()
    ensures
        forall|i: int| 0 <= i < chrome_entries().len() ==> entry_sound(chrome_entries(), i),
{
    let t = chrome_entries();
    assert(t.len() == 34);
    assert forall|i: int| 0 <= i < t.len() implies entry_sound(t, i) by {
        if i == 0 {
            reveal_strlit("chrome_103");
        } else if i == 1 {
            reveal_strlit("chrome_104"); assert(t[0].version == 103u32);
        } else if i == 2 {
            reveal_strlit("chrome_105"); assert(t[1].version == 104u32);
        } else if i == 3 {
            reveal_strlit("chrome_106"); assert(t[2].version == 105u32);
        } else if i == 4 {
            reveal_strlit("chrome_107"); assert(t[3].version == 106u32);
        } else if i == 5 {
            reveal_strlit("chrome_108"); assert(t[4].version == 107u32);
        } else if i == 6 {
            reveal_strlit("chrome_109"); assert(t[5].version == 108u32);
        } else if i == 7 {
            reveal_strlit("chrome_110"); assert(t[6].version == 109u32);
        } else if i == 8 {
            reveal_strlit("chrome_111"); assert(t[7].version == 110u32);
        } else if i == 9 {
            reveal_strlit("chrome_112"); assert(t[8].version == 111u32);
        } else if i == 10 {
            reveal_strlit("chrome_116_psk"); assert(t[9].version == 112u32);
        } else if i == 11 {
            reveal_strlit("chrome_117"); assert(t[10].version == 116u32);
        } else if i == 12 {
            reveal_strlit("chrome_120"); assert(t[11].version == 117u32);
        } else if i == 13 {
            reveal_strlit("chrome_121"); assert(t[12].version == 120u32);
        } else if i == 14 {
            reveal_strlit("chrome_122"); assert(t[13].version == 121u32);
        } else if i == 15 {
            reveal_strlit("chrome_123"); assert(t[14].version == 122u32);
        } else if i == 16 {
            reveal_strlit("chrome_124"); assert(t[15].version == 123u32);
        } else if i == 17 {
            reveal_strlit("chrome_125"); assert(t[16].version == 124u32);
        } else if i == 18 {
            reveal_strlit("chrome_126"); assert(t[17].version == 125u32);
        } else if i == 19 {
            reveal_strlit("chrome_127"); assert(t[18].version == 126u32);
        } else if i == 20 {
            reveal_strlit("chrome_128"); assert(t[19].version == 127u32);
        } else if i == 21 {
            reveal_strlit("chrome_129"); assert(t[20].version == 128u32);
        } else if i == 22 {
            reveal_strlit("chrome_130"); assert(t[21].version == 129u32);
        } else if i == 23 {
            reveal_strlit("chrome_131"); assert(t[22].version == 130u32);
        } else if i == 24 {
            reveal_strlit("chrome_132"); assert(t[23].version == 131u32);
        } else if i == 25 {
            reveal_strlit("chrome_133"); assert(t[24].version == 132u32);
        } else if i == 26 {
            reveal_strlit("chrome_134"); assert(t[25].version == 133u32);
        } else if i == 27 {
            reveal_strlit("chrome_135"); assert(t[26].version == 134u32);
        } else if i == 28 {
            reveal_strlit("chrome_136"); assert(t[27].version == 135u32);
        } else if i == 29 {
            reveal_strlit("chrome_137"); assert(t[28].version == 136u32);
        } else if i == 30 {
            reveal_strlit("chrome_138"); assert(t[29].version == 137u32);
        } else if i == 31 {
            reveal_strlit("chrome_133_psk"); assert(t[25].version == 133u32);
        } else if i == 32 {
            reveal_strlit("chrome_133_0rtt"); assert(t[25].version == 133u32);
        } else if i == 33 {
            reveal_strlit("chrome_133_psk_0rtt"); assert(t[25].version == 133u32);
        }
    }
}

#[verifier::rlimit(100)]
proof fn lemma_firefox_sound()
    ensures
        forall|i: int| 0 <= i < firefox_entries().len() ==> entry_sound(firefox_entries(), i),
{
    let t = firefox_entries();
    assert(t.len() == 18);
    assert forall|i: int| 0 <= i < t.len() implies entry_sound(t, i) by {
        if i == 0 {
            reveal_strlit("firefox_102");
        } else if i == 1 {
            reveal_strlit("firefox_104"); assert(t[0].version == 102u32);
        } else if i == 2 {
            reveal_strlit("firefox_105"); assert(t[1].version == 104u32);
        } else if i == 3 {
            reveal_strlit("firefox_106"); assert(t[2].version == 105u32);
        } else if i == 4 {
            reveal_strlit("firefox_108"); assert(t[3].version == 106u32);
        } else if i == 5 {
            reveal_strlit("firefox_110"); assert(t[4].version == 108u32);
        } else if i == 6 {
            reveal_strlit("firefox_117"); assert(t[5].version == 110u32);
        } else if i == 7 {
            reveal_strlit("firefox_120"); assert(t[6].version == 117u32);
        } else if i == 8 {
            reveal_strlit("firefox_123"); assert(t[7].version == 120u32);
        } else if i == 9 {
            reveal_strlit("firefox_130"); assert(t[8].version == 123u32);
        } else if i == 10 {
            reveal_strlit("firefox_131"); assert(t[9].version == 130u32);
        } else if i == 11 {
            reveal_strlit("firefox_132"); assert(t[10].version == 131u32);
        } else if i == 12 {
            reveal_strlit("firefox_133"); assert(t[11].version == 132u32);
        } else if i == 13 {
            reveal_strlit("firefox_134"); assert(t[12].version == 133u32);
        } else if i == 14 {
            reveal_strlit("firefox_135"); assert(t[13].version == 134u32);
        } else if i == 15 {
            reveal_strlit("firefox_136"); assert(t[14].version == 135u32);
        } else if i == 16 {
            reveal_strlit("firefox_137"); assert(t[15].version == 136u32);
        } else if i == 17 {
            reveal_strlit("firefox_138"); assert(t[16].version == 137u32);
        }
    }
}

#[verifier::rlimit(100)]
proof fn lemma_safari_sound()
    ensures
        forall|i: int| 0 <= i < safari_entries().len() ==> entry_sound(safari_entries(), i),
{
    let t = safari_entries();
    assert(t.len() == 20);
    assert forall|i: int| 0 <= i < t.len() implies entry_sound(t, i) by {
        if i == 0 {
            reveal_strlit("safari_15_0");
        } else if i == 1 {
            reveal_strlit("safari_15_6_1"); assert(t[0].version == 150u32);
        } else if i == 2 {
            reveal_strlit("safari_15_7"); assert(t[1].version == 156u32);
        } else if i == 3 {
            reveal_strlit("safari_16_0"); assert(t[2].version == 157u32);
        } else if i == 4 {
            reveal_strlit("safari_17_0"); assert(t[3].version == 160u32);
        } else if i == 5 {
            reveal_strlit("safari_17_5"); assert(t[4].version == 170u32);
        } else if i == 6 {
            reveal_strlit("safari_18_0"); assert(t[5].version == 175u32);
        } else if i == 7 {
            reveal_strlit("safari_18_1"); assert(t[6].version == 180u32);
        } else if i == 8 {
            reveal_strlit("safari_18_2"); assert(t[7].version == 181u32);
        } else if i == 9 {
            reveal_strlit("safari_18_3"); assert(t[8].version == 182u32);
        } else if i == 10 {
            reveal_strlit("safari_ios_15_5"); assert(t[0].version == 150u32);
        } else if i == 11 {
            reveal_strlit("safari_ios_15_6"); assert(t[10].version == 1550u32);
        } else if i == 12 {
            reveal_strlit("safari_ios_16_0"); assert(t[11].version == 1560u32);
        } else if i == 13 {
            reveal_strlit("safari_ios_17_0"); assert(t[12].version == 1600u32);
        } else if i == 14 {
            reveal_strlit("safari_ios_18_0"); assert(t[13].version == 1700u32);
        } else if i == 15 {
            reveal_strlit("safari_ios_18_1"); assert(t[14].version == 1800u32);
        } else if i == 16 {
            reveal_strlit("safari_ios_18_2"); assert(t[15].version == 1810u32);
        } else if i == 17 {
            reveal_strlit("safari_ios_18_3"); assert(t[16].version == 1820u32);
        } else if i == 18 {
            reveal_strlit("safari_ios_18_5"); assert(t[17].version == 1830u32);
        } else if i == 19 {
            reveal_strlit("safari_ipad_15_6"); assert(t[0].version == 150u32);
        }
    }
}

#[verifier::rlimit(100)]
proof fn lemma_edge_sound()
    ensures
        forall|i: int| 0 <= i < edge_entries().len() ==> entry_sound(edge_entries(), i),
{
    let t = edge_entries();
    assert(t.len() == 11);
    assert forall|i: int| 0 <= i < t.len() implies entry_sound(t, i) by {
        if i == 0 {
            reveal_strlit("edge_120");
        } else if i == 1 {
            reveal_strlit("edge_124"); assert(t[0].version == 120u32);
        } else if i == 2 {
            reveal_strlit("edge_125"); assert(t[1].version == 124u32);
        } else if i == 3 {
            reveal_strlit("edge_126"); assert(t[2].version == 125u32);
        } else if i == 4 {
            reveal_strlit("edge_130"); assert(t[3].version == 126u32);
        } else if i == 5 {
            reveal_strlit("edge_131"); assert(t[4].version == 130u32);
        } else if i == 6 {
            reveal_strlit("edge_132"); assert(t[5].version == 131u32);
        } else if i == 7 {
            reveal_strlit("edge_133"); assert(t[6].version == 132u32);
        } else if i == 8 {
            reveal_strlit("edge_134"); assert(t[7].version == 133u32);
        } else if i == 9 {
            reveal_strlit("edge_135"); assert(t[8].version == 134u32);
        } else if i == 10 {
            reveal_strlit("edge_137"); assert(t[9].version == 135u32);
        }
    }
}

#[verifier::rlimit(100)]
proof fn lemma_opera_sound()
    ensures
        forall|i: int| 0 <= i < opera_entries().len() ==> entry_sound(opera_entries(), i),
{
    let t = opera_entries();
    assert(t.len() == 6);
    assert forall|i: int| 0 <= i < t.len() implies entry_sound(t, i) by {
        if i == 0 {
            reveal_strlit("opera_89");
        } else if i == 1 {
            reveal_strlit("opera_90"); assert(t[0].version == 89u32);
        } else if i == 2 {
            reveal_strlit("opera_91"); assert(t[1].version == 90u32);
        } else if i == 3 {
            reveal_strlit("opera_92"); assert(t[2].version == 91u32);
        } else if i == 4 {
            reveal_strlit("opera_93"); assert(t[3].version == 92u32);
        } else if i == 5 {
            reveal_strlit("opera_94"); assert(t[4].version == 93u32);
        }
    }
}

proof fn lemma_table_sound(b: BrowserType)
    ensures
        registry_entries(b).len() > 0,
        forall|i: int| 0 <= i < registry_entries(b).len() ==> entry_sound(registry_entries(b), i),
{
    match b {
        BrowserType::Chrome => lemma_chrome_sound(),
        BrowserType::Firefox => lemma_firefox_sound(),
        BrowserType::Safari => lemma_safari_sound(),
        BrowserType::Edge => lemma_edge_sound(),
        BrowserType::Opera => lemma_opera_sound(),
    }
    assert(chrome_entries().len() == 34 && firefox_entries().len() == 18 && safari_entries().len() == 20
        && edge_entries().len() == 11 && opera_entries().len() == 6);
}

/// Every browser of the default registry has versions, and every entry
/// supports TLS 1.3, HTTP/2 and Brotli, names a profile, and falls back, if
/// at all, to a lower registered version.
pub proof fn lemma_registry_sound(r: VersionRegistry, b: BrowserType)
    requires
        entries_view(r.versions(b)) == registry_entries(b),
    ensures
        r.versions(b).len() > 0,
        forall|i: int| 0 <= i < r.versions(b).len() ==> {
            let e = #[trigger] r.versions(b)[i];
            &&& e.tls13_support
            &&& e.http2_support
            &&& e.brotli_support
            &&& e.profile_fn@.len() > 0
            &&& (e.fallback_version matches Some(f) ==> f < e.version && has_version(r.versions(b), f))
        },
{
    lemma_table_sound(b);
    let s = r.versions(b);
    let t = registry_entries(b);
    assert(s.len() == t.len());
    assert forall|i: int| 0 <= i < s.len() implies {
        let e = #[trigger] s[i];
        &&& e.tls13_support
        &&& e.http2_support
        &&& e.brotli_support
        &&& e.profile_fn@.len() > 0
        &&& (e.fallback_version matches Some(f) ==> f < e.version && has_version(s, f))
    } by {
        assert(t[i] == entry_model(s[i]));
        assert(entry_sound(t, i));
        if let Some(f) = s[i].fallback_version {
            let j = choose|j: int| 0 <= j < t.len() && #[trigger] t[j].version == f;
            assert(t[j] == entry_model(s[j]));
            assert(s[j].version == f);
        }
    }
}

} // verus!
