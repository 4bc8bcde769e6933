//! Browser and version detection from User-Agent strings.
use vstd::prelude::*;
use crate::text::{
    chars_of, find_char, first_index_from, parse_unsigned, parse_unsigned_chars, seq_contains, str_contains, trim,
    trim_bounds,
};
use crate::version_registry::BrowserType;

verus! {

broadcast use vstd::string::group_string_axioms;

/// What the `regex` crate finds as the first capture group of the leftmost
/// match of a pattern in a text, if the pattern compiles and matches.
pub uninterp spec fn regex_capture(pattern: Seq<char>, text: Seq<char>) -> Option<Seq<char>>;

/// Compiles `pattern` with `regex::Regex::new` and gives the text of capture
/// group 1 of the first match in `text` (`captures`, `get(1)`, `as_str`);
/// nothing when the pattern does not compile, does not match or has no such
/// group.
#[verifier::external_body]
pub(crate) fn first_capture(pattern: &str, text: &str) -> (r: Option<String>)
    ensures
        r matches Some(c) ==> regex_capture(pattern@, text@) == Some(c@),
        r is None ==> regex_capture(pattern@, text@) is None,
{
    match regex::Regex::new(pattern) {
        Ok(re) => match re.captures(text) {
            Some(caps) => match caps.get(1) {
                Some(m) => Some(m.as_str().to_string()),
                None => None,
            },
            None => None,
        },
        Err(_) => None,
    }
}

/// Pattern of a Chrome version.
pub const CHROME_PATTERN: &'static str = "Chrome[/\\s]+(\\d+)";
/// Pattern of a Firefox version.
pub const FIREFOX_PATTERN: &'static str = "Firefox[/\\s]+(\\d+)";
/// Pattern of a Safari version.
pub const SAFARI_PATTERN: &'static str = "Version[/\\s]+(\\d+)";
/// Pattern of an Edge version.
pub const EDGE_PATTERN: &'static str = "Edg[e]?[/\\s]+(\\d+)";
/// Pattern of an Opera version.
pub const OPERA_PATTERN: &'static str = "(?:OPR|Opera)[/\\s]+(\\d+)";

/// The version in a captured text, if it reads as a `u32`.
pub open spec fn version_of_capture(c: Option<Seq<char>>) -> Option<u32> {
    match c {
        Some(t) => match parse_unsigned(t, u32::MAX as nat) {
            Some(n) => Some(n as u32),
            None => None,
        },
        None => None,
    }
}

/// The version that a pattern captures in a User-Agent.
pub open spec fn version_by(pattern: Seq<char>, ua: Seq<char>) -> Option<u32> {
    version_of_capture(regex_capture(pattern, ua))
}

/// The Safari version: none when the User-Agent names Chrome or Chromium.
pub open spec fn safari_version_of(ua: Seq<char>) -> Option<u32> {
    if seq_contains(ua, "Chrome"@) || seq_contains(ua, "Chromium"@) {
        None
    } else {
        version_by(SAFARI_PATTERN@, ua)
    }
}

/// Browser and version of a User-Agent, trying Edge, Opera, Chrome,
/// Firefox and Safari in this order.
pub open spec fn detection(ua: Seq<char>) -> Option<(BrowserType, u32)> {
    if let Some(v) = version_by(EDGE_PATTERN@, ua) {
        Some((BrowserType::Edge, v))
    } else if let Some(v) = version_by(OPERA_PATTERN@, ua) {
        Some((BrowserType::Opera, v))
    } else if let Some(v) = version_by(CHROME_PATTERN@, ua) {
        Some((BrowserType::Chrome, v))
    } else if let Some(v) = version_by(FIREFOX_PATTERN@, ua) {
        Some((BrowserType::Firefox, v))
    } else if let Some(v) = safari_version_of(ua) {
        Some((BrowserType::Safari, v))
    } else {
        None
    }
}

/// Edge and Opera User-Agents also carry a `Chrome/<m>` token: an `Edg`
/// token wins over every other, and an `OPR`/`Opera` token wins over the
/// Chrome token when there is no `Edg` token. A Chrome token alone gives
/// Chrome.
pub proof fn lemma_detection_prefers_edge_and_opera(ua: Seq<char>)
    ensures
        version_by(EDGE_PATTERN@, ua) matches Some(v) ==> detection(ua) == Some((BrowserType::Edge, v)),
        version_by(EDGE_PATTERN@, ua) is None ==> (version_by(OPERA_PATTERN@, ua) matches Some(v) ==> detection(ua)
            == Some((BrowserType::Opera, v))),
        version_by(EDGE_PATTERN@, ua) is None && version_by(OPERA_PATTERN@, ua) is None ==> (version_by(
            CHROME_PATTERN@,
            ua,
        ) matches Some(v) ==> detection(ua) == Some((BrowserType::Chrome, v))),
        version_by(EDGE_PATTERN@, ua) is None && version_by(OPERA_PATTERN@, ua) is None && version_by(
            CHROME_PATTERN@,
            ua,
        ) is None ==> (version_by(FIREFOX_PATTERN@, ua) matches Some(v) ==> detection(ua) == Some(
            (BrowserType::Firefox, v),
        )),
        detection(ua) matches Some((b, v)) ==> (b == BrowserType::Chrome ==> version_by(EDGE_PATTERN@, ua) is None
            && version_by(OPERA_PATTERN@, ua) is None && version_by(CHROME_PATTERN@, ua) == Some(v)),
{
}

/// Operating system named in a User-Agent.
pub open spec fn os_of(ua: Seq<char>) -> Option<Seq<char>> {
    if seq_contains(ua, "Windows"@) {
        Some("Windows"@)
    } else if seq_contains(ua, "Macintosh"@) || seq_contains(ua, "Mac OS X"@) {
        Some("macOS"@)
    } else if seq_contains(ua, "Linux"@) {
        Some("Linux"@)
    } else if seq_contains(ua, "iPhone"@) || seq_contains(ua, "iPad"@) {
        Some("iOS"@)
    } else if seq_contains(ua, "Android"@) {
        Some("Android"@)
    } else {
        None
    }
}

/// Whether a User-Agent names a mobile device.
pub open spec fn mobile_ua(ua: Seq<char>) -> bool {
    seq_contains(ua, "Mobile"@) || seq_contains(ua, "iPhone"@) || seq_contains(ua, "iPad"@)
        || seq_contains(ua, "Android"@) || seq_contains(ua, "webOS"@)
}

/// Browser detection result
#[derive(Debug, Clone, PartialEq, Eq)]
pub struct BrowserInfo {
    /// Browser type
    pub browser: BrowserType,
    /// Version number
    pub version: u32,
    /// Full User-Agent string
    pub user_agent: String,
    /// Operating system (if detected)
    pub os: Option<String>,
    /// is Mobile device
    pub is_mobile: bool,
}

/// Text of an optional string.
pub open spec fn opt_text(o: Option<String>) -> Option<Seq<char>> {
    match o {
        Some(s) => Some(s@),
        None => None,
    }
}

/// Version range of a text: `a-b` gives `a` to `b` inclusive (empty when
/// `b < a`), a single number gives itself; each number trimmed.
pub open spec fn version_range(s: Seq<char>) -> Result<Seq<u32>, Seq<char>> {
    match first_index_from(s, '-', 0) {
        Some(i) => if first_index_from(s, '-', i + 1) is Some {
            Err("Invalid version range format"@)
        } else {
            match parse_unsigned(trim(s.subrange(0, i)), u32::MAX as nat) {
                None => Err("Invalid start version"@),
                Some(a) => match parse_unsigned(trim(s.subrange(i + 1, s.len() as int)), u32::MAX as nat) {
                    None => Err("Invalid end version"@),
                    Some(b) => Ok(Seq::new(if b >= a { (b - a + 1) as nat } else { 0 }, |k: int| (a + k) as u32)),
                },
            }
        },
        None => match parse_unsigned(trim(s), u32::MAX as nat) {
            None => Err("Invalid version"@),
            Some(v) => Ok(seq![v as u32]),
        },
    }
}

/// Version detector for User-Agent parsing
pub struct VersionDetector;

impl VersionDetector {
    /// The version in a captured text, if it reads as a `u32`.
    pub fn version_from_capture(capture: Option<String>) -> (r: Option<u32>)
        ensures
            r == version_of_capture(opt_text(capture)),
    {
        match capture {
            Some(t) => {
                let cs: Vec<char> = chars_of(t.as_str());
                let n: usize = cs.len();
                assert(cs@.subrange(0, n as int) =~= t@);
                match parse_unsigned_chars(cs.as_slice(), 0, n, 0xffff_ffff) {
                    Some(v) => Some(v as u32),
                    None => None,
                }
            },
            None => None,
        }
    }

    /// The version that `pattern` captures in `user_agent`.
    fn extract_version(pattern: &str, user_agent: &str) -> (r: Option<u32>)
        ensures
            r == version_by(pattern@, user_agent@),
    {
        Self::version_from_capture(first_capture(pattern, user_agent))
    }

    /// The Safari version of a User-Agent that names neither Chrome nor
    /// Chromium.
    fn extract_safari_version(user_agent: &str) -> (r: Option<u32>)
        ensures
            r == safari_version_of(user_agent@),
    {
        if str_contains(user_agent, "Chrome") || str_contains(user_agent, "Chromium") {
            return None;
        }
        Self::extract_version(SAFARI_PATTERN, user_agent)
    }

    /// The operating system named in a User-Agent.
    fn extract_os(user_agent: &str) -> (r: Option<String>)
        ensures
            opt_text(r) == os_of(user_agent@),
    {
        if str_contains(user_agent, "Windows") {
            Some(String::from_str("Windows"))
        } else if str_contains(user_agent, "Macintosh") || str_contains(user_agent, "Mac OS X") {
            Some(String::from_str("macOS"))
        } else if str_contains(user_agent, "Linux") {
            Some(String::from_str("Linux"))
        } else if str_contains(user_agent, "iPhone") || str_contains(user_agent, "iPad") {
            Some(String::from_str("iOS"))
        } else if str_contains(user_agent, "Android") {
            Some(String::from_str("Android"))
        } else {
            None
        }
    }

    /// Detection result for a browser and version.
    fn info(browser: BrowserType, version: u32, user_agent: &str) -> (r: BrowserInfo)
        ensures
            r.browser == browser,
            r.version == version,
            r.user_agent@ == user_agent@,
            opt_text(r.os) == os_of(user_agent@),
            r.is_mobile == mobile_ua(user_agent@),
    {
        BrowserInfo {
            browser,
            version,
            user_agent: String::from_str(user_agent),
            os: Self::extract_os(user_agent),
            is_mobile: Self::is_mobile(user_agent),
        }
    }

    /// Detects browser and version from a User-Agent string, trying Edge,
    /// Opera, Chrome, Firefox and Safari in this order.
    pub fn detect(user_agent: &str) -> (r: Option<BrowserInfo>)
        ensures
            r is Some <==> detection(user_agent@) is Some,
            r matches Some(info) ==> {
                &&& detection(user_agent@) == Some((info.browser, info.version))
                &&& info.user_agent@ == user_agent@
                &&& opt_text(info.os) == os_of(user_agent@)
                &&& info.is_mobile == mobile_ua(user_agent@)
            },
    {
        if let Some(v) = Self::extract_version(EDGE_PATTERN, user_agent) {
            return Some(Self::info(BrowserType::Edge, v, user_agent));
        }
        if let Some(v) = Self::extract_version(OPERA_PATTERN, user_agent) {
            return Some(Self::info(BrowserType::Opera, v, user_agent));
        }
        if let Some(v) = Self::extract_version(CHROME_PATTERN, user_agent) {
            return Some(Self::info(BrowserType::Chrome, v, user_agent));
        }
        if let Some(v) = Self::extract_version(FIREFOX_PATTERN, user_agent) {
            return Some(Self::info(BrowserType::Firefox, v, user_agent));
        }
        if let Some(v) = Self::extract_safari_version(user_agent) {
            return Some(Self::info(BrowserType::Safari, v, user_agent));
        }
        None
    }

    /// Whether a User-Agent names a mobile device.
    pub fn is_mobile(user_agent: &str) -> (r: bool)
        ensures
            r == mobile_ua(user_agent@),
    {
        str_contains(user_agent, "Mobile") || str_contains(user_agent, "iPhone") || str_contains(user_agent, "iPad")
            || str_contains(user_agent, "Android") || str_contains(user_agent, "webOS")
    }

    /// Parses a version (`133`) or an inclusive version range (`130-135`).
    pub fn parse_version_range(version_str: &str) -> (r: Result<Vec<u32>, String>)
        ensures
            r is Ok <==> version_range(version_str@) is Ok,
            r matches Ok(v) ==> version_range(version_str@) == Ok::<Seq<u32>, Seq<char>>(v@),
            r matches Err(e) ==> version_range(version_str@) == Err::<Seq<u32>, Seq<char>>(e@),
    {
        let cs: Vec<char> = chars_of(version_str);
        let n: usize = cs.len();
        match find_char(cs.as_slice(), '-', 0, n) {
            Some(i) => {
                proof { crate::text::lemma_first_index_props(cs@, '-', 0); }
                if find_char(cs.as_slice(), '-', i + 1, n).is_some() {
                    return Err(String::from_str("Invalid version range format"));
                }
                let (a0, a1) = trim_bounds(cs.as_slice(), 0, i);
                let start: u32 = match parse_unsigned_chars(cs.as_slice(), a0, a1, 0xffff_ffff) {
                    Some(v) => v as u32,
                    None => {
                        return Err(String::from_str("Invalid start version"));
                    },
                };
                let (b0, b1) = trim_bounds(cs.as_slice(), i + 1, n);
                let end: u32 = match parse_unsigned_chars(cs.as_slice(), b0, b1, 0xffff_ffff) {
                    Some(v) => v as u32,
                    None => {
                        return Err(String::from_str("Invalid end version"));
                    },
                };
                let mut out: Vec<u32> = Vec::new();
                if start <= end {
                    let mut v: u32 = start;
                    loop
                        invariant_except_break
                            start <= v <= end,
                            out@ =~= Seq::new((v - start) as nat, |k: int| (start + k) as u32),
                        ensures
                            out@ =~= Seq::new((end - start + 1) as nat, |k: int| (start + k) as u32),
                        decreases end - v,
                    {
                        out.push(v);
                        if v == end {
                            break;
                        }
                        v = v + 1;
                    }
                } else {
                    assert(out@ =~= Seq::new(0, |k: int| (start + k) as u32));
                }
                Ok(out)
            },
            None => {
                assert(cs@.subrange(0, n as int) =~= cs@);
                let (a0, a1) = trim_bounds(cs.as_slice(), 0, n);
                match parse_unsigned_chars(cs.as_slice(), a0, a1, 0xffff_ffff) {
                    Some(v) => {
                        let mut out: Vec<u32> = Vec::new();
                        out.push(v as u32);
                        assert(out@ =~= seq![v as u32]);
                        Ok(out)
                    },
                    None => Err(String::from_str("Invalid version")),
                }
            },
        }
    }
}

} // verus!
