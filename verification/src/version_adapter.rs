//! Selecting browser profiles by browser and version, with fallback to the
//! nearest compatible version. A profile is named by its profile function.
use vstd::prelude::*;
use crate::text::{decimal, push_decimal, str_eq};
use crate::version_detector::{detection, VersionDetector};
use crate::version_registry::{
    browser_name, chrome_entries, edge_entries, entries_view, entry_model, firefox_entries, has_feature, opera_entries,
    safari_entries, has_version, nearest_compatible, registry_entries, registry_of, version_names,
    with_feature,
    BrowserType, VersionEntry, VersionRegistry,
};

verus! {

broadcast use vstd::string::group_string_axioms;

/// Profile functions that have their own profile: every profile of
/// `crate::profiles`.
pub const KNOWN_PROFILES: [&'static str; 98] = [
    "chrome_103",
    "chrome_104",
    "chrome_105",
    "chrome_106",
    "chrome_107",
    "chrome_108",
    "chrome_109",
    "chrome_110",
    "chrome_111",
    "chrome_112",
    "chrome_116_psk",
    "chrome_116_psk_pq",
    "chrome_117",
    "chrome_120",
    "chrome_121",
    "chrome_122",
    "chrome_123",
    "chrome_124",
    "chrome_125",
    "chrome_126",
    "chrome_127",
    "chrome_128",
    "chrome_129",
    "chrome_130",
    "chrome_131",
    "chrome_132",
    "chrome_133",
    "chrome_133_psk",
    "chrome_133_0rtt",
    "chrome_133_psk_0rtt",
    "chrome_134",
    "chrome_135",
    "chrome_136",
    "chrome_137",
    "chrome_138",
    "firefox_102",
    "firefox_104",
    "firefox_105",
    "firefox_106",
    "firefox_108",
    "firefox_110",
    "firefox_117",
    "firefox_120",
    "firefox_123",
    "firefox_130",
    "firefox_131",
    "firefox_132",
    "firefox_133",
    "firefox_134",
    "firefox_135",
    "firefox_136",
    "firefox_137",
    "firefox_138",
    "safari_15_0",
    "safari_15_6_1",
    "safari_15_7",
    "safari_16_0",
    "safari_17_0",
    "safari_17_5",
    "safari_18_0",
    "safari_18_1",
    "safari_18_2",
    "safari_18_3",
    "safari_ios_15_5",
    "safari_ios_15_6",
    "safari_ios_16_0",
    "safari_ios_17_0",
    "safari_ios_18_0",
    "safari_ios_18_1",
    "safari_ios_18_2",
    "safari_ios_18_3",
    "safari_ios_18_5",
    "safari_ipad_15_6",
    "edge_120",
    "edge_124",
    "edge_125",
    "edge_126",
    "edge_130",
    "edge_131",
    "edge_132",
    "edge_133",
    "edge_134",
    "edge_135",
    "edge_137",
    "opera_89",
    "opera_90",
    "opera_91",
    "opera_92",
    "opera_93",
    "opera_94",
    "chrome_mobile_120",
    "chrome_mobile_130",
    "chrome_mobile_134",
    "chrome_mobile_135",
    "chrome_mobile_137",
    "firefox_mobile_120",
    "firefox_mobile_130",
    "firefox_mobile_135",
];

/// Whether a profile function has its own profile.
pub open spec fn known_profile(name: Seq<char>) -> bool {
    exists|i: int| 0 <= i < KNOWN_PROFILES@.len() && (#[trigger] KNOWN_PROFILES@[i])@ == name
}

/// The profile that a profile function name selects: itself when known,
/// otherwise `chrome_133`.
pub open spec fn resolved_profile(name: Seq<char>) -> Seq<char> {
    if known_profile(name) {
        name
    } else {
        "chrome_133"@
    }
}

/// The entry of a registered version.
pub open spec fn entry_of(s: Seq<VersionEntry>, v: u32) -> VersionEntry {
    s[choose|i: int| 0 <= i < s.len() && s[i].version == v]
}

/// The profile for a version: the version's own when registered, else that
/// of the nearest compatible version.
pub open spec fn profile_for(s: Seq<VersionEntry>, v: u32) -> Option<Seq<char>> {
    if has_version(s, v) {
        Some(resolved_profile(entry_of(s, v).profile_fn@))
    } else {
        match nearest_compatible(s, v) {
            Some(n) => if has_version(s, n) {
                Some(resolved_profile(entry_of(s, n).profile_fn@))
            } else {
                None
            },
            None => None,
        }
    }
}

/// Text of an optional string.
pub open spec fn opt_str(o: Option<String>) -> Option<Seq<char>> {
    match o {
        Some(s) => Some(s@),
        None => None,
    }
}

/// `✓` or `✗`.
pub open spec fn mark(b: bool) -> Seq<char> {
    if b {
        "✓"@
    } else {
        "✗"@
    }
}

/// One-line description of a version entry.
pub open spec fn version_info_text(browser: BrowserType, e: VersionEntry) -> Seq<char> {
    browser_name(browser) + " v"@ + decimal(e.version as nat) + ": "@ + e.release_date@ + " | ECH: "@
        + mark(e.ech_support) + " | HTTP3: "@ + mark(e.http3_support) + " | PSK: "@ + mark(e.psk_support)
        + " | 0-RTT: "@ + mark(e.early_data_support) + " | PQ: "@ + mark(e.pq_support)
}

/// The profile name that a profile function name selects.
pub fn resolve_profile(profile_fn: &str) -> (r: String)
    ensures
        r@ == resolved_profile(profile_fn@),
{
    let mut i: usize = 0;
    while i < KNOWN_PROFILES.len()
        invariant
            i <= KNOWN_PROFILES@.len(),
            forall|k: int| 0 <= k < i ==> (#[trigger] KNOWN_PROFILES@[k])@ != profile_fn@,
        decreases KNOWN_PROFILES@.len() - i,
    {
        if str_eq(KNOWN_PROFILES[i], profile_fn) {
            return String::from_str(profile_fn);
        }
        i = i + 1;
    }
    String::from_str("chrome_133")
}

/// Appends `✓` or `✗`.
fn push_mark(s: &mut String, b: bool)
    ensures
        final(s)@ == old(s)@ + mark(b),
{
    if b {
        s.append("✓");
    } else {
        s.append("✗");
    }
}

/// Version-aware profile adapter
pub struct VersionAdapter {
    registry: VersionRegistry,
}

impl VersionAdapter {
    /// The registry.
    pub closed spec fn registry(&self) -> VersionRegistry {
        self.registry
    }

    /// The registry is well formed.
    pub open spec fn wf(&self) -> bool {
        self.registry().wf()
    }

    /// Whether the registry holds the known versions, complete with their
    /// dates, flags, fallbacks and profile names.
    pub open spec fn is_default(&self) -> bool {
        &&& forall|b: BrowserType| version_names(#[trigger] self.registry().versions(b)) == registry_of(b)
        &&& forall|b: BrowserType| entries_view(#[trigger] self.registry().versions(b)) == registry_entries(b)
    }

    /// An adapter over the default registry.
    pub fn new() -> (r: Self)
        ensures
            r.wf(),
            r.is_default(),
    {
        VersionAdapter { registry: VersionRegistry::new() }
    }

    /// The profile name for a browser version, falling back to the nearest
    /// compatible registered version.
    pub fn get_profile(&self, browser: BrowserType, version: u32) -> (r: Option<String>)
        requires
            self.wf(),
        ensures
            opt_str(r) == profile_for(self.registry().versions(browser), version),
    {
        let ghost s = self.registry.versions(browser);
        if let Some(entry) = self.registry.get_version(browser, version) {
            proof { lemma_entry_of(s, version, *entry); }
            return Some(resolve_profile(entry.profile_fn.as_str()));
        }
        if let Some(nearest) = self.registry.find_nearest_compatible(browser, version) {
            if let Some(entry) = self.registry.get_version(browser, nearest) {
                proof { lemma_entry_of(s, nearest, *entry); }
                return Some(resolve_profile(entry.profile_fn.as_str()));
            }
        }
        None
    }

    /// The profile name for the browser and version of a User-Agent.
    pub fn get_profile_from_ua(&self, user_agent: &str) -> (r: Option<String>)
        requires
            self.wf(),
        ensures
            match detection(user_agent@) {
                Some((b, v)) => opt_str(r) == profile_for(self.registry().versions(b), v),
                None => r is None,
            },
    {
        let info = match VersionDetector::detect(user_agent) {
            Some(i) => i,
            None => {
                return None;
            },
        };
        self.get_profile(info.browser, info.version)
    }

    /// The profile name of a browser's highest version.
    pub fn get_latest_profile(&self, browser: BrowserType) -> (r: Option<String>)
        ensures
            r is Some <==> self.registry().versions(browser).len() > 0,
            r matches Some(p) ==> p@ == resolved_profile(self.registry().versions(browser).last().profile_fn@),
    {
        match self.registry.get_latest(browser) {
            Some(entry) => Some(resolve_profile(entry.profile_fn.as_str())),
            None => None,
        }
    }

    /// The versions of a browser with a capability (`ech`, `http3`, `psk`,
    /// `early_data` or `pq`), in increasing order.
    pub fn get_versions_with_capability(&self, browser: BrowserType, capability: &str) -> (r: Vec<u32>)
        ensures
            r@.len() == with_feature(self.registry().versions(browser), capability@).len(),
            forall|i: int| 0 <= i < r@.len() ==> #[trigger] r@[i] == with_feature(self.registry().versions(browser), capability@)[i].version,
    {
        let pairs = self.registry.get_with_feature(browser, capability);
        let mut out: Vec<u32> = Vec::new();
        let mut i: usize = 0;
        while i < pairs.len()
            invariant
                i <= pairs@.len(),
                out@.len() == i,
                forall|k: int| 0 <= k < i ==> #[trigger] out@[k] == *pairs@[k].0,
            decreases pairs@.len() - i,
        {
            out.push(*pairs[i].0);
            i = i + 1;
        }
        out
    }

    /// Whether a registered version has a capability; false for unknown
    /// versions and capabilities.
    pub fn supports_capability(&self, browser: BrowserType, version: u32, capability: &str) -> (r: bool)
        requires
            self.wf(),
        ensures
            r == (has_version(self.registry().versions(browser), version)
                && has_feature(entry_of(self.registry().versions(browser), version), capability@)),
    {
        let ghost s = self.registry.versions(browser);
        match self.registry.get_version(browser, version) {
            Some(e) => {
                proof { lemma_entry_of(s, version, *e); }
                if str_eq(capability, "ech") {
                    e.ech_support
                } else if str_eq(capability, "http3") {
                    e.http3_support
                } else if str_eq(capability, "psk") {
                    e.psk_support
                } else if str_eq(capability, "early_data") {
                    e.early_data_support
                } else if str_eq(capability, "pq") {
                    e.pq_support
                } else {
                    false
                }
            },
            None => false,
        }
    }

    /// A one-line description of a registered version.
    pub fn get_version_info(&self, browser: BrowserType, version: u32) -> (r: Option<String>)
        requires
            self.wf(),
        ensures
            r is Some <==> has_version(self.registry().versions(browser), version),
            r matches Some(t) ==> t@ == version_info_text(browser, entry_of(self.registry().versions(browser), version)),
    {
        let ghost s = self.registry.versions(browser);
        match self.registry.get_version(browser, version) {
            Some(e) => {
                proof { lemma_entry_of(s, version, *e); }
                let mut t: String = browser.to_string();
                t.append(" v");
                push_decimal(&mut t, e.version as u64);
                t.append(": ");
                t.append(e.release_date.as_str());
                t.append(" | ECH: ");
                push_mark(&mut t, e.ech_support);
                t.append(" | HTTP3: ");
                push_mark(&mut t, e.http3_support);
                t.append(" | PSK: ");
                push_mark(&mut t, e.psk_support);
                t.append(" | 0-RTT: ");
                push_mark(&mut t, e.early_data_support);
                t.append(" | PQ: ");
                push_mark(&mut t, e.pq_support);
                Some(t)
            },
            None => None,
        }
    }
}

/// In a list in version order, the entry found for a version is the one
/// `entry_of` names.
pub proof fn lemma_entry_of(s: Seq<VersionEntry>, v: u32, e: VersionEntry)
    requires
        crate::version_registry::sorted_versions(s),
        e.version == v,
        exists|i: int| 0 <= i < s.len() && #[trigger] s[i] == e,
    ensures
        has_version(s, v),
        entry_of(s, v) == e,
{
    let i = choose|i: int| 0 <= i < s.len() && #[trigger] s[i] == e;
    assert(s[i].version == v);
    let j = choose|j: int| 0 <= j < s.len() && s[j].version == v;
    if i < j {
        assert(s[i].version < s[j].version);
    } else if j < i {
        assert(s[j].version < s[i].version);
    }
}

impl Default for VersionAdapter {
    /// The same as [`VersionAdapter::new`].
    fn default() -> (r: Self)
        ensures
            r.wf(),
    {
        Self::new()
    }
}

/// Every version of a browser with any registered version gets a profile:
/// its own, or that of its nearest compatible registered version.
pub proof fn lemma_profile_exists(s: Seq<VersionEntry>, v: u32)
    requires
        s.len() > 0,
    ensures
        profile_for(s, v) is Some,
{
    crate::version_registry::lemma_nearest_is_registered(s, v);
}

#[verifier::rlimit(100)]
proof fn lemma_chrome_profiles_known()
    ensures
        forall|i: int| 0 <= i < chrome_entries().len() ==> known_profile(#[trigger] chrome_entries()[i].profile_fn),
{
    let t = chrome_entries();
    assert(t.len() == 34);
    assert forall|i: int| 0 <= i < t.len() implies known_profile(#[trigger] t[i].profile_fn) by {
        if i == 0 {
            reveal_strlit("chrome_103");
            assert(KNOWN_PROFILES@[0]@ == t[i].profile_fn);
        } else if i == 1 {
            reveal_strlit("chrome_104");
            assert(KNOWN_PROFILES@[1]@ == t[i].profile_fn);
        } else if i == 2 {
            reveal_strlit("chrome_105");
            assert(KNOWN_PROFILES@[2]@ == t[i].profile_fn);
        } else if i == 3 {
            reveal_strlit("chrome_106");
            assert(KNOWN_PROFILES@[3]@ == t[i].profile_fn);
        } else if i == 4 {
            reveal_strlit("chrome_107");
            assert(KNOWN_PROFILES@[4]@ == t[i].profile_fn);
        } else if i == 5 {
            reveal_strlit("chrome_108");
            assert(KNOWN_PROFILES@[5]@ == t[i].profile_fn);
        } else if i == 6 {
            reveal_strlit("chrome_109");
            assert(KNOWN_PROFILES@[6]@ == t[i].profile_fn);
        } else if i == 7 {
            reveal_strlit("chrome_110");
            assert(KNOWN_PROFILES@[7]@ == t[i].profile_fn);
        } else if i == 8 {
            reveal_strlit("chrome_111");
            assert(KNOWN_PROFILES@[8]@ == t[i].profile_fn);
        } else if i == 9 {
            reveal_strlit("chrome_112");
            assert(KNOWN_PROFILES@[9]@ == t[i].profile_fn);
        } else if i == 10 {
            reveal_strlit("chrome_116_psk");
            assert(KNOWN_PROFILES@[10]@ == t[i].profile_fn);
        } else if i == 11 {
            reveal_strlit("chrome_117");
            assert(KNOWN_PROFILES@[12]@ == t[i].profile_fn);
        } else if i == 12 {
            reveal_strlit("chrome_120");
            assert(KNOWN_PROFILES@[13]@ == t[i].profile_fn);
        } else if i == 13 {
            reveal_strlit("chrome_121");
            assert(KNOWN_PROFILES@[14]@ == t[i].profile_fn);
        } else if i == 14 {
            reveal_strlit("chrome_122");
            assert(KNOWN_PROFILES@[15]@ == t[i].profile_fn);
        } else if i == 15 {
            reveal_strlit("chrome_123");
            assert(KNOWN_PROFILES@[16]@ == t[i].profile_fn);
        } else if i == 16 {
            reveal_strlit("chrome_124");
            assert(KNOWN_PROFILES@[17]@ == t[i].profile_fn);
        } else if i == 17 {
            reveal_strlit("chrome_125");
            assert(KNOWN_PROFILES@[18]@ == t[i].profile_fn);
        } else if i == 18 {
            reveal_strlit("chrome_126");
            assert(KNOWN_PROFILES@[19]@ == t[i].profile_fn);
        } else if i == 19 {
            reveal_strlit("chrome_127");
            assert(KNOWN_PROFILES@[20]@ == t[i].profile_fn);
        } else if i == 20 {
            reveal_strlit("chrome_128");
            assert(KNOWN_PROFILES@[21]@ == t[i].profile_fn);
        } else if i == 21 {
            reveal_strlit("chrome_129");
            assert(KNOWN_PROFILES@[22]@ == t[i].profile_fn);
        } else if i == 22 {
            reveal_strlit("chrome_130");
            assert(KNOWN_PROFILES@[23]@ == t[i].profile_fn);
        } else if i == 23 {
            reveal_strlit("chrome_131");
            assert(KNOWN_PROFILES@[24]@ == t[i].profile_fn);
        } else if i == 24 {
            reveal_strlit("chrome_132");
            assert(KNOWN_PROFILES@[25]@ == t[i].profile_fn);
        } else if i == 25 {
            reveal_strlit("chrome_133");
            assert(KNOWN_PROFILES@[26]@ == t[i].profile_fn);
        } else if i == 26 {
            reveal_strlit("chrome_134");
            assert(KNOWN_PROFILES@[30]@ == t[i].profile_fn);
        } else if i == 27 {
            reveal_strlit("chrome_135");
            assert(KNOWN_PROFILES@[31]@ == t[i].profile_fn);
        } else if i == 28 {
            reveal_strlit("chrome_136");
            assert(KNOWN_PROFILES@[32]@ == t[i].profile_fn);
        } else if i == 29 {
            reveal_strlit("chrome_137");
            assert(KNOWN_PROFILES@[33]@ == t[i].profile_fn);
        } else if i == 30 {
            reveal_strlit("chrome_138");
            assert(KNOWN_PROFILES@[34]@ == t[i].profile_fn);
        } else if i == 31 {
            reveal_strlit("chrome_133_psk");
            assert(KNOWN_PROFILES@[27]@ == t[i].profile_fn);
        } else if i == 32 {
            reveal_strlit("chrome_133_0rtt");
            assert(KNOWN_PROFILES@[28]@ == t[i].profile_fn);
        } else if i == 33 {
            reveal_strlit("chrome_133_psk_0rtt");
            assert(KNOWN_PROFILES@[29]@ == t[i].profile_fn);
        }
    }
}

#[verifier::rlimit(100)]
proof fn lemma_firefox_profiles_known()
    ensures
        forall|i: int| 0 <= i < firefox_entries().len() ==> known_profile(#[trigger] firefox_entries()[i].profile_fn),
{
    let t = firefox_entries();
    assert(t.len() == 18);
    assert forall|i: int| 0 <= i < t.len() implies known_profile(#[trigger] t[i].profile_fn) by {
        if i == 0 {
            reveal_strlit("firefox_102");
            assert(KNOWN_PROFILES@[35]@ == t[i].profile_fn);
        } else if i == 1 {
            reveal_strlit("firefox_104");
            assert(KNOWN_PROFILES@[36]@ == t[i].profile_fn);
        } else if i == 2 {
            reveal_strlit("firefox_105");
            assert(KNOWN_PROFILES@[37]@ == t[i].profile_fn);
        } else if i == 3 {
            reveal_strlit("firefox_106");
            assert(KNOWN_PROFILES@[38]@ == t[i].profile_fn);
        } else if i == 4 {
            reveal_strlit("firefox_108");
            assert(KNOWN_PROFILES@[39]@ == t[i].profile_fn);
        } else if i == 5 {
            reveal_strlit("firefox_110");
            assert(KNOWN_PROFILES@[40]@ == t[i].profile_fn);
        } else if i == 6 {
            reveal_strlit("firefox_117");
            assert(KNOWN_PROFILES@[41]@ == t[i].profile_fn);
        } else if i == 7 {
            reveal_strlit("firefox_120");
            assert(KNOWN_PROFILES@[42]@ == t[i].profile_fn);
        } else if i == 8 {
            reveal_strlit("firefox_123");
            assert(KNOWN_PROFILES@[43]@ == t[i].profile_fn);
        } else if i == 9 {
            reveal_strlit("firefox_130");
            assert(KNOWN_PROFILES@[44]@ == t[i].profile_fn);
        } else if i == 10 {
            reveal_strlit("firefox_131");
            assert(KNOWN_PROFILES@[45]@ == t[i].profile_fn);
        } else if i == 11 {
            reveal_strlit("firefox_132");
            assert(KNOWN_PROFILES@[46]@ == t[i].profile_fn);
        } else if i == 12 {
            reveal_strlit("firefox_133");
            assert(KNOWN_PROFILES@[47]@ == t[i].profile_fn);
        } else if i == 13 {
            reveal_strlit("firefox_134");
            assert(KNOWN_PROFILES@[48]@ == t[i].profile_fn);
        } else if i == 14 {
            reveal_strlit("firefox_135");
            assert(KNOWN_PROFILES@[49]@ == t[i].profile_fn);
        } else if i == 15 {
            reveal_strlit("firefox_136");
            assert(KNOWN_PROFILES@[50]@ == t[i].profile_fn);
        } else if i == 16 {
            reveal_strlit("firefox_137");
            assert(KNOWN_PROFILES@[51]@ == t[i].profile_fn);
        } else if i == 17 {
            reveal_strlit("firefox_138");
            assert(KNOWN_PROFILES@[52]@ == t[i].profile_fn);
        }
    }
}

#[verifier::rlimit(100)]
proof fn lemma_safari_profiles_known()
    ensures
        forall|i: int| 0 <= i < safari_entries().len() ==> known_profile(#[trigger] safari_entries()[i].profile_fn),
{
    let t = safari_entries();
    assert(t.len() == 20);
    assert forall|i: int| 0 <= i < t.len() implies known_profile(#[trigger] t[i].profile_fn) by {
        if i == 0 {
            reveal_strlit("safari_15_0");
            assert(KNOWN_PROFILES@[53]@ == t[i].profile_fn);
        } else if i == 1 {
            reveal_strlit("safari_15_6_1");
            assert(KNOWN_PROFILES@[54]@ == t[i].profile_fn);
        } else if i == 2 {
            reveal_strlit("safari_15_7");
            assert(KNOWN_PROFILES@[55]@ == t[i].profile_fn);
        } else if i == 3 {
            reveal_strlit("safari_16_0");
            assert(KNOWN_PROFILES@[56]@ == t[i].profile_fn);
        } else if i == 4 {
            reveal_strlit("safari_17_0");
            assert(KNOWN_PROFILES@[57]@ == t[i].profile_fn);
        } else if i == 5 {
            reveal_strlit("safari_17_5");
            assert(KNOWN_PROFILES@[58]@ == t[i].profile_fn);
        } else if i == 6 {
            reveal_strlit("safari_18_0");
            assert(KNOWN_PROFILES@[59]@ == t[i].profile_fn);
        } else if i == 7 {
            reveal_strlit("safari_18_1");
            assert(KNOWN_PROFILES@[60]@ == t[i].profile_fn);
        } else if i == 8 {
            reveal_strlit("safari_18_2");
            assert(KNOWN_PROFILES@[61]@ == t[i].profile_fn);
        } else if i == 9 {
            reveal_strlit("safari_18_3");
            assert(KNOWN_PROFILES@[62]@ == t[i].profile_fn);
        } else if i == 10 {
            reveal_strlit("safari_ios_15_5");
            assert(KNOWN_PROFILES@[63]@ == t[i].profile_fn);
        } else if i == 11 {
            reveal_strlit("safari_ios_15_6");
            assert(KNOWN_PROFILES@[64]@ == t[i].profile_fn);
        } else if i == 12 {
            reveal_strlit("safari_ios_16_0");
            assert(KNOWN_PROFILES@[65]@ == t[i].profile_fn);
        } else if i == 13 {
            reveal_strlit("safari_ios_17_0");
            assert(KNOWN_PROFILES@[66]@ == t[i].profile_fn);
        } else if i == 14 {
            reveal_strlit("safari_ios_18_0");
            assert(KNOWN_PROFILES@[67]@ == t[i].profile_fn);
        } else if i == 15 {
            reveal_strlit("safari_ios_18_1");
            assert(KNOWN_PROFILES@[68]@ == t[i].profile_fn);
        } else if i == 16 {
            reveal_strlit("safari_ios_18_2");
            assert(KNOWN_PROFILES@[69]@ == t[i].profile_fn);
        } else if i == 17 {
            reveal_strlit("safari_ios_18_3");
            assert(KNOWN_PROFILES@[70]@ == t[i].profile_fn);
        } else if i == 18 {
            reveal_strlit("safari_ios_18_5");
            assert(KNOWN_PROFILES@[71]@ == t[i].profile_fn);
        } else if i == 19 {
            reveal_strlit("safari_ipad_15_6");
            assert(KNOWN_PROFILES@[72]@ == t[i].profile_fn);
        }
    }
}

#[verifier::rlimit(100)]
proof fn lemma_edge_profiles_known()
    ensures
        forall|i: int| 0 <= i < edge_entries().len() ==> known_profile(#[trigger] edge_entries()[i].profile_fn),
{
    let t = edge_entries();
    assert(t.len() == 11);
    assert forall|i: int| 0 <= i < t.len() implies known_profile(#[trigger] t[i].profile_fn) by {
        if i == 0 {
            reveal_strlit("edge_120");
            assert(KNOWN_PROFILES@[73]@ == t[i].profile_fn);
        } else if i == 1 {
            reveal_strlit("edge_124");
            assert(KNOWN_PROFILES@[74]@ == t[i].profile_fn);
        } else if i == 2 {
            reveal_strlit("edge_125");
            assert(KNOWN_PROFILES@[75]@ == t[i].profile_fn);
        } else if i == 3 {
            reveal_strlit("edge_126");
            assert(KNOWN_PROFILES@[76]@ == t[i].profile_fn);
        } else if i == 4 {
            reveal_strlit("edge_130");
            assert(KNOWN_PROFILES@[77]@ == t[i].profile_fn);
        } else if i == 5 {
            reveal_strlit("edge_131");
            assert(KNOWN_PROFILES@[78]@ == t[i].profile_fn);
        } else if i == 6 {
            reveal_strlit("edge_132");
            assert(KNOWN_PROFILES@[79]@ == t[i].profile_fn);
        } else if i == 7 {
            reveal_strlit("edge_133");
            assert(KNOWN_PROFILES@[80]@ == t[i].profile_fn);
        } else if i == 8 {
            reveal_strlit("edge_134");
            assert(KNOWN_PROFILES@[81]@ == t[i].profile_fn);
        } else if i == 9 {
            reveal_strlit("edge_135");
            assert(KNOWN_PROFILES@[82]@ == t[i].profile_fn);
        } else if i == 10 {
            reveal_strlit("edge_137");
            assert(KNOWN_PROFILES@[83]@ == t[i].profile_fn);
        }
    }
}

#[verifier::rlimit(100)]
proof fn lemma_opera_profiles_known()
    ensures
        forall|i: int| 0 <= i < opera_entries().len() ==> known_profile(#[trigger] opera_entries()[i].profile_fn),
{
    let t = opera_entries();
    assert(t.len() == 6);
    assert forall|i: int| 0 <= i < t.len() implies known_profile(#[trigger] t[i].profile_fn) by {
        if i == 0 {
            reveal_strlit("opera_89");
            assert(KNOWN_PROFILES@[84]@ == t[i].profile_fn);
        } else if i == 1 {
            reveal_strlit("opera_90");
            assert(KNOWN_PROFILES@[85]@ == t[i].profile_fn);
        } else if i == 2 {
            reveal_strlit("opera_91");
            assert(KNOWN_PROFILES@[86]@ == t[i].profile_fn);
        } else if i == 3 {
            reveal_strlit("opera_92");
            assert(KNOWN_PROFILES@[87]@ == t[i].profile_fn);
        } else if i == 4 {
            reveal_strlit("opera_93");
            assert(KNOWN_PROFILES@[88]@ == t[i].profile_fn);
        } else if i == 5 {
            reveal_strlit("opera_94");
            assert(KNOWN_PROFILES@[89]@ == t[i].profile_fn);
        }
    }
}

/// Every profile name of the default registry has its own profile.
proof fn lemma_registry_profiles_known(b: BrowserType)
    ensures
        forall|i: int| 0 <= i < registry_entries(b).len() ==> known_profile(#[trigger] registry_entries(b)[i].profile_fn),
{
    match b {
        BrowserType::Chrome => lemma_chrome_profiles_known(),
        BrowserType::Firefox => lemma_firefox_profiles_known(),
        BrowserType::Safari => lemma_safari_profiles_known(),
        BrowserType::Edge => lemma_edge_profiles_known(),
        BrowserType::Opera => lemma_opera_profiles_known(),
    }
}

/// The default adapter gives each registered version its own profile, the
/// one its entry names.
pub proof fn lemma_default_profile_is_own(a: VersionAdapter, b: BrowserType, i: int)
    requires
        a.wf(),
        a.is_default(),
        0 <= i < a.registry().versions(b).len(),
    ensures
        profile_for(a.registry().versions(b), a.registry().versions(b)[i].version)
            == Some(a.registry().versions(b)[i].profile_fn@),
{
    let s = a.registry().versions(b);
    let t = registry_entries(b);
    assert(entries_view(s) == t);
    assert(t[i] == entry_model(s[i]));
    lemma_registry_profiles_known(b);
    assert(known_profile(t[i].profile_fn));
    assert(crate::version_registry::sorted_versions(s));
    lemma_entry_of(s, s[i].version, s[i]);
}

} // verus!
