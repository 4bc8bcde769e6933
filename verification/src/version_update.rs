//! Generating the code that registers new browser versions.
use vstd::prelude::*;
use crate::text::{
    chars_of, decimal, find_char, first_index_from, parse_unsigned, parse_unsigned_chars, push_char, push_decimal,
    str_eq,
};

verus! {

broadcast use vstd::string::group_string_axioms;

/// Browser version update configuration
#[derive(Debug, Clone)]
pub struct VersionUpdateConfig {
    /// New version number to add
    pub version: u32,
    /// Browser type (chrome, firefox, safari, edge, opera)
    pub browser: String,
    /// Release date in YYYY-MM-DD format
    pub release_date: String,
    /// TLS 1.3 support
    pub tls13_support: bool,
    /// ECH support
    pub ech_support: bool,
    /// HTTP/2 support
    pub http2_support: bool,
    /// HTTP/3 support
    pub http3_support: bool,
    /// PSK support
    pub psk_support: bool,
    /// 0-RTT support
    pub early_data_support: bool,
    /// Post-quantum support
    pub pq_support: bool,
    /// Fallback version for compatibility
    pub fallback_version: Option<u32>,
}

/// `true` or `false`.
pub open spec fn bool_text(b: bool) -> Seq<char> {
    if b {
        "true"@
    } else {
        "false"@
    }
}

/// `Some(v)` or `None`.
pub open spec fn option_text(o: Option<u32>) -> Seq<char> {
    match o {
        Some(v) => "Some("@ + decimal(v as nat) + ")"@,
        None => "None"@,
    }
}

/// The registry line that adds a configured version.
pub open spec fn registry_code_text(c: VersionUpdateConfig) -> Seq<char> {
    "        self.add_"@ + c.browser@ + "_version("@ + decimal(c.version as nat) + ", \""@ + c.release_date@
        + "\", "@ + bool_text(c.tls13_support) + ", "@ + bool_text(c.ech_support) + ", "@
        + bool_text(c.http2_support) + ", "@ + bool_text(c.http3_support) + ", "@ + bool_text(c.psk_support)
        + ", "@ + bool_text(c.early_data_support) + ", "@ + bool_text(c.pq_support) + ", "@
        + option_text(c.fallback_version) + ", \""@ + c.browser@ + "_"@ + decimal(c.version as nat) + "\");"@
}

/// Display name of a browser key, the key itself when unknown.
pub open spec fn display_name(browser: Seq<char>) -> Seq<char> {
    if browser == "chrome"@ {
        "Chrome"@
    } else if browser == "firefox"@ {
        "Firefox"@
    } else if browser == "safari"@ {
        "Safari"@
    } else if browser == "edge"@ {
        "Edge"@
    } else if browser == "opera"@ {
        "Opera"@
    } else {
        browser
    }
}

/// `browser_version`.
pub open spec fn fn_name_text(browser: Seq<char>, version: u32) -> Seq<char> {
    browser + "_"@ + decimal(version as nat)
}

/// The stub of a new profile function that falls back to another version.
pub open spec fn profile_stub_text(browser: Seq<char>, version: u32, fallback: u32) -> Seq<char> {
    let name = display_name(browser);
    let f = fn_name_text(browser, version);
    let g = fn_name_text(browser, fallback);
    "/// "@ + name + " v"@ + decimal(version as nat) + " fingerprint configuration\npub fn "@ + f
        + "() -> BrowserProfile {\n    // TODO: Implement "@ + name + " v"@ + decimal(version as nat)
        + " specific configuration\n    // Base on: "@ + g + "() or copy from previous stable version\n    "@ + g
        + "()  // Temporary fallback\n}"@
}

/// The profile-map line for a version.
pub open spec fn map_entry_text(browser: Seq<char>, version: u32) -> Seq<char> {
    "    map.insert(\""@ + fn_name_text(browser, version) + "\".to_string(), "@ + fn_name_text(browser, version)
        + "());"@
}

/// The fallback of a configuration: its own, else the previous version.
pub open spec fn fallback_of(c: VersionUpdateConfig) -> u32 {
    match c.fallback_version {
        Some(v) => v,
        None => (c.version - 1) as u32,
    }
}

/// Registry lines, each followed by a newline.
pub open spec fn registry_block(cs: Seq<VersionUpdateConfig>) -> Seq<char>
    decreases cs.len(),
{
    if cs.len() == 0 {
        Seq::empty()
    } else {
        registry_block(cs.drop_last()) + registry_code_text(cs.last()) + "\n"@
    }
}

/// Profile stubs, each followed by a blank line.
pub open spec fn stub_block(cs: Seq<VersionUpdateConfig>) -> Seq<char>
    decreases cs.len(),
{
    if cs.len() == 0 {
        Seq::empty()
    } else {
        stub_block(cs.drop_last()) + profile_stub_text(cs.last().browser@, cs.last().version, fallback_of(cs.last()))
            + "\n\n"@
    }
}

/// Profile-map lines, each followed by a newline.
pub open spec fn map_block(cs: Seq<VersionUpdateConfig>) -> Seq<char>
    decreases cs.len(),
{
    if cs.len() == 0 {
        Seq::empty()
    } else {
        map_block(cs.drop_last()) + map_entry_text(cs.last().browser@, cs.last().version) + "\n"@
    }
}

/// The complete update for some configurations.
pub open spec fn complete_update_text(cs: Seq<VersionUpdateConfig>) -> Seq<char> {
    "// === Registry Code ===\n"@ + registry_block(cs) + "\n// === Profile Function Stubs ===\n"@ + stub_block(cs)
        + "// === Profile Map Entries ===\n"@ + map_block(cs)
}

/// `s` padded on the right with spaces to `width` characters.
#[verifier::opaque]
pub open spec fn pad_right(s: Seq<char>, width: nat) -> Seq<char> {
    if s.len() >= width {
        s
    } else {
        s + Seq::new((width - s.len()) as nat, |i: int| ' ')
    }
}

/// `✓` or `✗`.
#[verifier::opaque]
pub open spec fn check_mark(b: bool) -> Seq<char> {
    if b {
        "✓"@
    } else {
        "✗"@
    }
}

/// A row of the comparison table.
pub open spec fn comparison_row(c: VersionUpdateConfig) -> Seq<char> {
    "| v"@ + pad_right(decimal(c.version as nat), 7) + " | "@ + pad_right(check_mark(c.tls13_support), 6) + " | "@
        + pad_right(check_mark(c.ech_support), 3) + " | "@ + pad_right(check_mark(c.http3_support), 5) + " | "@
        + pad_right(check_mark(c.psk_support), 3) + " | "@ + pad_right(check_mark(c.early_data_support), 5)
        + " | "@ + pad_right(check_mark(c.pq_support), 2) + " |\n"@
}

/// Rows of the comparison table.
pub open spec fn comparison_rows(vs: Seq<(u32, VersionUpdateConfig)>) -> Seq<char>
    decreases vs.len(),
{
    if vs.len() == 0 {
        Seq::empty()
    } else {
        comparison_rows(vs.drop_last()) + comparison_row(vs.last().1)
    }
}

/// Appends `s` padded on the right with spaces to `width` characters.
fn push_padded(out: &mut String, s: &str, width: usize)
    ensures
        final(out)@ == old(out)@ + pad_right(s@, width as nat),
{
    reveal(pad_right);
    out.append(s);
    let n: usize = s.unicode_len();
    if n < width {
        let ghost mid = out@;
        let mut k: usize = n;
        while k < width
            invariant
                n <= k <= width,
                out@ == mid + Seq::new((k - n) as nat, |i: int| ' '),
            decreases width - k,
        {
            push_char(out, ' ');
            k = k + 1;
            assert(out@ =~= mid + Seq::new((k - n) as nat, |i: int| ' '));
        }
    }
}

/// `✓` or `✗`.
fn mark_str(b: bool) -> (r: &'static str)
    ensures
        r@ == check_mark(b),
{
    reveal(check_mark);
    if b {
        "✓"
    } else {
        "✗"
    }
}

/// A row of the comparison table.
fn comparison_row_string(c: &VersionUpdateConfig) -> (r: String)
    ensures
        r@ == comparison_row(*c),
{
    let mut out: String = String::from_str("| v");
    let v: String = crate::text::decimal_string(c.version as u64);
    push_padded(&mut out, v.as_str(), 7);
    out.append(" | ");
    push_padded(&mut out, mark_str(c.tls13_support), 6);
    out.append(" | ");
    push_padded(&mut out, mark_str(c.ech_support), 3);
    out.append(" | ");
    push_padded(&mut out, mark_str(c.http3_support), 5);
    out.append(" | ");
    push_padded(&mut out, mark_str(c.psk_support), 3);
    out.append(" | ");
    push_padded(&mut out, mark_str(c.early_data_support), 5);
    out.append(" | ");
    push_padded(&mut out, mark_str(c.pq_support), 2);
    out.append(" |\n");
    out
}

/// The piece of `s` after its first `_` and before the next one.
pub open spec fn second_piece(s: Seq<char>) -> Seq<char> {
    match first_index_from(s, '_', 0) {
        Some(i) => match first_index_from(s, '_', i + 1) {
            Some(j) => s.subrange(i + 1, j),
            None => s.subrange(i + 1, s.len() as int),
        },
        None => Seq::empty(),
    }
}

/// The version in the second `_`-separated piece of a name, if it reads as
/// a `u32`.
pub open spec fn suffix_version(s: Seq<char>) -> Option<u32> {
    match parse_unsigned(second_piece(s), u32::MAX as nat) {
        Some(v) => Some(v as u32),
        None => None,
    }
}

/// The versions that parse, in order.
pub open spec fn parsed_versions(a: Option<u32>, b: Option<u32>) -> Seq<u32> {
    (match a {
        Some(v) => seq![v],
        None => Seq::<u32>::empty(),
    }) + (match b {
        Some(v) => seq![v],
        None => Seq::<u32>::empty(),
    })
}

/// The version in the second `_`-separated piece of a name.
fn version_suffix(name: &str) -> (r: Option<u32>)
    ensures
        r == suffix_version(name@),
{
    let cs: Vec<char> = chars_of(name);
    let n: usize = cs.len();
    match find_char(cs.as_slice(), '_', 0, n) {
        Some(i) => {
            proof { crate::text::lemma_first_index_props(cs@, '_', 0); }
            let end: usize = match find_char(cs.as_slice(), '_', i + 1, n) {
                Some(j) => {
                    proof { crate::text::lemma_first_index_props(cs@, '_', i + 1); }
                    j
                },
                None => n,
            };
            match parse_unsigned_chars(cs.as_slice(), i + 1, end, 0xffff_ffff) {
                Some(v) => Some(v as u32),
                None => None,
            }
        },
        None => {
            assert(second_piece(name@) =~= Seq::<char>::empty());
            None
        },
    }
}

/// Version update manager
pub struct VersionUpdateManager;

impl VersionUpdateManager {
    /// The registry line that adds a configured version.
    pub fn generate_registry_code(config: &VersionUpdateConfig) -> (r: String)
        ensures
            r@ == registry_code_text(*config),
    {
        let mut s: String = String::from_str("        self.add_");
        s.append(config.browser.as_str());
        s.append("_version(");
        push_decimal(&mut s, config.version as u64);
        s.append(", \"");
        s.append(config.release_date.as_str());
        s.append("\", ");
        s.append(if config.tls13_support { "true" } else { "false" });
        s.append(", ");
        s.append(if config.ech_support { "true" } else { "false" });
        s.append(", ");
        s.append(if config.http2_support { "true" } else { "false" });
        s.append(", ");
        s.append(if config.http3_support { "true" } else { "false" });
        s.append(", ");
        s.append(if config.psk_support { "true" } else { "false" });
        s.append(", ");
        s.append(if config.early_data_support { "true" } else { "false" });
        s.append(", ");
        s.append(if config.pq_support { "true" } else { "false" });
        s.append(", ");
        match config.fallback_version {
            Some(v) => {
                s.append("Some(");
                push_decimal(&mut s, v as u64);
                s.append(")");
            },
            None => {
                s.append("None");
            },
        }
        s.append(", \"");
        s.append(config.browser.as_str());
        s.append("_");
        push_decimal(&mut s, config.version as u64);
        s.append("\");");
        s
    }

    /// Display name of a browser key.
    fn display(browser: &str) -> (r: String)
        ensures
            r@ == display_name(browser@),
    {
        if str_eq(browser, "chrome") {
            String::from_str("Chrome")
        } else if str_eq(browser, "firefox") {
            String::from_str("Firefox")
        } else if str_eq(browser, "safari") {
            String::from_str("Safari")
        } else if str_eq(browser, "edge") {
            String::from_str("Edge")
        } else if str_eq(browser, "opera") {
            String::from_str("Opera")
        } else {
            String::from_str(browser)
        }
    }

    /// The stub of a new profile function that falls back to another version.
    pub fn generate_profile_stub(browser: &str, version: u32, fallback_version: u32) -> (r: String)
        ensures
            r@ == profile_stub_text(browser@, version, fallback_version),
    {
        let name: String = Self::display(browser);
        let mut s: String = String::from_str("/// ");
        s.append(name.as_str());
        s.append(" v");
        push_decimal(&mut s, version as u64);
        s.append(" fingerprint configuration\npub fn ");
        s.append(browser);
        s.append("_");
        push_decimal(&mut s, version as u64);
        s.append("() -> BrowserProfile {\n    // TODO: Implement ");
        s.append(name.as_str());
        s.append(" v");
        push_decimal(&mut s, version as u64);
        s.append(" specific configuration\n    // Base on: ");
        s.append(browser);
        s.append("_");
        push_decimal(&mut s, fallback_version as u64);
        s.append("() or copy from previous stable version\n    ");
        s.append(browser);
        s.append("_");
        push_decimal(&mut s, fallback_version as u64);
        s.append("()  // Temporary fallback\n}");
        s
    }

    /// The profile-map line for a version.
    pub fn generate_profile_map_entry(browser: &str, version: u32) -> (r: String)
        ensures
            r@ == map_entry_text(browser@, version),
    {
        let mut s: String = String::from_str("    map.insert(\"");
        s.append(browser);
        s.append("_");
        push_decimal(&mut s, version as u64);
        s.append("\".to_string(), ");
        s.append(browser);
        s.append("_");
        push_decimal(&mut s, version as u64);
        s.append("());");
        s
    }

    /// Registry lines, stubs and profile-map lines for some configurations.
    pub fn generate_complete_update(configs: &[VersionUpdateConfig]) -> (r: String)
        requires
            forall|i: int| 0 <= i < configs@.len() ==> (#[trigger] configs@[i]).fallback_version is Some
                || configs@[i].version >= 1,
        ensures
            r@ == complete_update_text(configs@),
    {
        let mut out: String = String::from_str("// === Registry Code ===\n");
        let ghost p0 = out@;
        let mut i: usize = 0;
        while i < configs.len()
            invariant
                i <= configs@.len(),
                out@ == p0 + registry_block(configs@.subrange(0, i as int)),
            decreases configs@.len() - i,
        {
            assert(configs@.subrange(0, i + 1).drop_last() =~= configs@.subrange(0, i as int));
            let line: String = Self::generate_registry_code(&configs[i]);
            out.append(line.as_str());
            out.append("\n");
            i = i + 1;
        }
        assert(configs@.subrange(0, i as int) =~= configs@);
        out.append("\n// === Profile Function Stubs ===\n");
        let ghost p1 = out@;
        let mut j: usize = 0;
        while j < configs.len()
            invariant
                j <= configs@.len(),
                forall|i: int| 0 <= i < configs@.len() ==> (#[trigger] configs@[i]).fallback_version is Some
                    || configs@[i].version >= 1,
                out@ == p1 + stub_block(configs@.subrange(0, j as int)),
            decreases configs@.len() - j,
        {
            assert(configs@.subrange(0, j + 1).drop_last() =~= configs@.subrange(0, j as int));
            let c: &VersionUpdateConfig = &configs[j];
            let fallback: u32 = match c.fallback_version {
                Some(v) => v,
                None => c.version - 1,
            };
            let stub: String = Self::generate_profile_stub(c.browser.as_str(), c.version, fallback);
            out.append(stub.as_str());
            out.append("\n\n");
            j = j + 1;
        }
        assert(configs@.subrange(0, j as int) =~= configs@);
        out.append("// === Profile Map Entries ===\n");
        let ghost p2 = out@;
        let mut k: usize = 0;
        while k < configs.len()
            invariant
                k <= configs@.len(),
                out@ == p2 + map_block(configs@.subrange(0, k as int)),
            decreases configs@.len() - k,
        {
            assert(configs@.subrange(0, k + 1).drop_last() =~= configs@.subrange(0, k as int));
            let line: String = Self::generate_profile_map_entry(configs[k].browser.as_str(), configs[k].version);
            out.append(line.as_str());
            out.append("\n");
            k = k + 1;
        }
        assert(configs@.subrange(0, k as int) =~= configs@);
        out
    }

    /// A Markdown table of the features of some versions.
    pub fn generate_version_comparison(versions: &[(u32, VersionUpdateConfig)]) -> (r: String)
        ensures
            r@ == "| Version | TLS1.3 | ECH | HTTP3 | PSK | 0-RTT | PQ |\n|---------|--------|-----|-------|-----|-------|----|\n"@
                + comparison_rows(versions@),
    {
        let mut out: String = String::from_str(
            "| Version | TLS1.3 | ECH | HTTP3 | PSK | 0-RTT | PQ |\n|---------|--------|-----|-------|-----|-------|----|\n",
        );
        let ghost p0 = out@;
        let mut i: usize = 0;
        while i < versions.len()
            invariant
                i <= versions@.len(),
                out@ == p0 + comparison_rows(versions@.subrange(0, i as int)),
            decreases versions@.len() - i,
        {
            assert(versions@.subrange(0, i + 1).drop_last() =~= versions@.subrange(0, i as int));
            let row: String = comparison_row_string(&versions[i].1);
            out.append(row.as_str());
            i = i + 1;
        }
        assert(versions@.subrange(0, i as int) =~= versions@);
        out
    }

    /// A configuration for a new version whose features follow the latest
    /// version: ECH from 124, HTTP/3, PSK and 0-RTT from 120, post-quantum
    /// key exchange from 130; release date `2025-TBD`, falling back to the
    /// latest version.
    pub fn get_default_config(browser: &str, new_version: u32, latest_version: u32) -> (r: VersionUpdateConfig)
        ensures
            r.version == new_version,
            r.browser@ == browser@,
            r.release_date@ == "2025-TBD"@,
            r.tls13_support,
            r.ech_support == (latest_version >= 124),
            r.http2_support,
            r.http3_support == (latest_version >= 120),
            r.psk_support == (latest_version >= 120),
            r.early_data_support == (latest_version >= 120),
            r.pq_support == (latest_version >= 130),
            r.fallback_version == Some(latest_version),
    {
        VersionUpdateConfig {
            version: new_version,
            browser: String::from_str(browser),
            release_date: String::from_str("2025-TBD"),
            tls13_support: true,
            ech_support: latest_version >= 124,
            http2_support: true,
            http3_support: latest_version >= 120,
            psk_support: latest_version >= 120,
            early_data_support: latest_version >= 120,
            pq_support: latest_version >= 130,
            fallback_version: Some(latest_version),
        }
    }

    /// The versions that still need a PSK variant: under `psk_variants`,
    /// the versions named in `chrome_130` and `chrome_131`; nothing when
    /// neither reads as a version.
    pub fn check_outdated_versions() -> (r: Vec<(String, Vec<u32>)>)
        ensures
            ({
                let needs = parsed_versions(suffix_version("chrome_130"@), suffix_version("chrome_131"@));
                &&& r@.len() == if needs.len() > 0 { 1int } else { 0int }
                &&& needs.len() > 0 ==> r@[0].0@ == "psk_variants"@ && r@[0].1@ == needs
            }),
    {
        let mut needs_psk: Vec<u32> = Vec::new();
        if let Some(v) = version_suffix("chrome_130") {
            needs_psk.push(v);
        }
        if let Some(v) = version_suffix("chrome_131") {
            needs_psk.push(v);
        }
        let mut out: Vec<(String, Vec<u32>)> = Vec::new();
        if needs_psk.len() > 0 {
            out.push((String::from_str("psk_variants"), needs_psk));
        }
        out
    }
}

} // verus!
