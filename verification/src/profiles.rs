//! Browser profiles: the identity of each supported browser build (browser,
//! version, User-Agent, platform) and the identifier derived from it.
use vstd::prelude::*;
use crate::text::{chars_of, decimal, push_char, push_decimal, str_eq};
use crate::unicode::{lowercase, to_lowercase};
use crate::version_registry::{browser_name, BrowserType};

verus! {

broadcast use vstd::string::group_string_axioms;

/// Metadata of a browser profile.
pub struct ProfileMetadata {
    /// Browser name, such as `Chrome`.
    pub browser_name: String,
    /// Browser version number, such as `133`.
    pub browser_version: u32,
    /// User-Agent string.
    pub user_agent: String,
    /// Platform, such as `Windows` or `iOS`.
    pub platform: String,
    /// Whether this is a mobile profile.
    pub is_mobile: bool,
    /// Full version text, such as `15.6.1` for Safari or `134` for Chrome.
    pub version_string: String,
}

/// A browser profile, held by its metadata.
pub struct BrowserProfile {
    /// Who the profile presents itself as.
    pub metadata: ProfileMetadata,
}

/// `s` with every `from` replaced by `to`.
pub open spec fn replace_char(s: Seq<char>, from: char, to: char) -> Seq<char> {
    Seq::new(s.len(), |i: int| if s[i] == from { to } else { s[i] })
}

/// The identifier of a profile with these fields, such as `chrome_133`,
/// `chrome_mobile_134` or `safari_ios_18_5`.
pub open spec fn profile_id(name: Seq<char>, platform: Seq<char>, is_mobile: bool, version: Seq<char>) -> Seq<char> {
    let base = replace_char(lowercase(name), ' ', '_');
    let family = if is_mobile {
        if platform == "iOS"@ || platform == "iPadOS"@ {
            base + "_ios"@
        } else {
            base + "_mobile"@
        }
    } else {
        base
    };
    family + "_"@ + replace_char(version, '.', '_')
}

/// Whether `m` holds exactly these fields.
pub open spec fn metadata_is(
    m: ProfileMetadata,
    browser: BrowserType,
    version: u32,
    user_agent: Seq<char>,
    platform: Seq<char>,
    is_mobile: bool,
    version_string: Seq<char>,
) -> bool {
    &&& m.browser_name@ == browser_name(browser)
    &&& m.browser_version == version
    &&& m.user_agent@ == user_agent
    &&& m.platform@ == platform
    &&& m.is_mobile == is_mobile
    &&& m.version_string@ == version_string
}

/// Appends `s` with every `from` replaced by `to`.
fn push_replaced(out: &mut String, s: &str, from: char, to: char)
    ensures
        final(out)@ == old(out)@ + replace_char(s@, from, to),
{
    let cs: Vec<char> = chars_of(s);
    let ghost start: Seq<char> = out@;
    let mut i: usize = 0;
    while i < cs.len()
        invariant
            cs@ == s@,
            i <= cs@.len(),
            out@ == start + replace_char(s@, from, to).subrange(0, i as int),
        decreases cs@.len() - i,
    {
        let c: char = cs[i];
        if c == from {
            push_char(out, to);
        } else {
            push_char(out, c);
        }
        i = i + 1;
        assert(out@ =~= start + replace_char(s@, from, to).subrange(0, i as int));
    }
    assert(replace_char(s@, from, to).subrange(0, i as int) =~= replace_char(s@, from, to));
}

impl ProfileMetadata {
    /// The profile identifier, such as `chrome_133` or `safari_ios_18_5`.
    pub fn id(&self) -> (r: String)
        ensures
            r@ == profile_id(self.browser_name@, self.platform@, self.is_mobile, self.version_string@),
    {
        let lower: String = to_lowercase(self.browser_name.as_str());
        let mut out: String = String::new();
        push_replaced(&mut out, lower.as_str(), ' ', '_');
        if self.is_mobile {
            if str_eq(self.platform.as_str(), "iOS") || str_eq(self.platform.as_str(), "iPadOS") {
                out.append("_ios");
            } else {
                out.append("_mobile");
            }
        }
        out.append("_");
        push_replaced(&mut out, self.version_string.as_str(), '.', '_');
        out
    }
}

impl BrowserProfile {
    /// A profile whose version text is the version number.
    fn create(browser: BrowserType, version: u32, user_agent: String, platform: &str, is_mobile: bool) -> (r: Self)
        ensures
            metadata_is(r.metadata, browser, version, user_agent@, platform@, is_mobile, decimal(version as nat)),
    {
        let mut version_string: String = String::new();
        push_decimal(&mut version_string, version as u64);
        Self::create_with_version_string(browser, version, user_agent, platform, is_mobile, version_string)
    }

    /// A profile with an explicit version text.
    fn create_with_version_string(
        browser: BrowserType,
        version: u32,
        user_agent: String,
        platform: &str,
        is_mobile: bool,
        version_string: String,
    ) -> (r: Self)
        ensures
            metadata_is(r.metadata, browser, version, user_agent@, platform@, is_mobile, version_string@),
    {
        BrowserProfile {
            metadata: ProfileMetadata {
                browser_name: browser.to_string(),
                browser_version: version,
                user_agent,
                platform: String::from_str(platform),
                is_mobile,
                version_string,
            },
        }
    }

    /// The profile identifier, such as `chrome_133` or `safari_ios_18_5`.
    pub fn id(&self) -> (r: String)
        ensures
            r@ == profile_id(
                self.metadata.browser_name@,
                self.metadata.platform@,
                self.metadata.is_mobile,
                self.metadata.version_string@,
            ),
    {
        self.metadata.id()
    }
}

/// User-Agent of Safari on iPadOS 15.6.
pub const IPAD_USER_AGENT: &'static str =
    "Mozilla/5.0 (iPad; CPU OS 15_6 like Mac OS X) AppleWebKit/605.1.15 (KHTML, like Gecko) Version/15.6 Mobile/15E148 Safari/604.1";

/// User-Agent of Chrome `v` on Windows.
pub open spec fn chrome_user_agent(v: u32) -> Seq<char> {
    "Mozilla/5.0 (Windows NT 10.0; Win64; x64) AppleWebKit/537.36 (KHTML, like Gecko) Chrome/"@ + decimal(v as nat)
        + ".0.0.0 Safari/537.36"@
}

/// User-Agent of Firefox `v` on Windows.
pub open spec fn firefox_user_agent(v: u32) -> Seq<char> {
    "Mozilla/5.0 (Windows NT 10.0; Win64; x64; rv:"@ + decimal(v as nat) + ".0) Gecko/20100101 Firefox/"@
        + decimal(v as nat) + ".0"@
}

/// User-Agent of Safari `vs` on macOS.
pub open spec fn safari_user_agent(vs: Seq<char>) -> Seq<char> {
    "Mozilla/5.0 (Macintosh; Intel Mac OS X 10_15_7) AppleWebKit/605.1.15 (KHTML, like Gecko) Version/"@ + vs
        + " Safari/605.1.15"@
}

/// User-Agent of Safari `vs` on iOS.
pub open spec fn safari_ios_user_agent(vs: Seq<char>) -> Seq<char> {
    "Mozilla/5.0 (iPhone; CPU iPhone OS "@ + replace_char(vs, '.', '_')
        + " like Mac OS X) AppleWebKit/605.1.15 (KHTML, like Gecko) Version/"@ + vs
        + " Mobile/15E148 Safari/604.1"@
}

/// User-Agent of Edge `v` on Windows.
pub open spec fn edge_user_agent(v: u32) -> Seq<char> {
    chrome_user_agent(v) + " Edg/"@ + decimal(v as nat) + ".0.0.0"@
}

/// User-Agent of Opera `v`, built on Chrome `chrome`, on Windows.
pub open spec fn opera_user_agent(v: u32, chrome: u32) -> Seq<char> {
    chrome_user_agent(chrome) + " OPR/"@ + decimal(v as nat) + ".0.0.0"@
}

/// User-Agent of Chrome `v` on Android.
pub open spec fn chrome_mobile_user_agent(v: u32) -> Seq<char> {
    "Mozilla/5.0 (Linux; Android 10) AppleWebKit/537.36 (KHTML, like Gecko) Chrome/"@ + decimal(v as nat)
        + ".0.0.0 Mobile Safari/537.36"@
}

/// User-Agent of Firefox `v` on Android.
pub open spec fn firefox_mobile_user_agent(v: u32) -> Seq<char> {
    "Mozilla/5.0 (Android 10; Mobile; rv:"@ + decimal(v as nat) + ".0) Gecko/"@ + decimal(v as nat)
        + ".0 Firefox/"@ + decimal(v as nat) + ".0"@
}

/// Metadata of Chrome `v` on Windows.
pub open spec fn is_chrome(m: ProfileMetadata, v: u32) -> bool {
    metadata_is(m, BrowserType::Chrome, v, chrome_user_agent(v), "Windows"@, false, decimal(v as nat))
}

/// Metadata of Firefox `v` on Windows.
pub open spec fn is_firefox(m: ProfileMetadata, v: u32) -> bool {
    metadata_is(m, BrowserType::Firefox, v, firefox_user_agent(v), "Windows"@, false, decimal(v as nat))
}

/// Metadata of Safari `vs` (numbered `n`) on macOS.
pub open spec fn is_safari(m: ProfileMetadata, vs: Seq<char>, n: u32) -> bool {
    metadata_is(m, BrowserType::Safari, n, safari_user_agent(vs), "macOS"@, false, vs)
}

/// Metadata of Safari `vs` (numbered `n`) on iOS.
pub open spec fn is_safari_ios(m: ProfileMetadata, vs: Seq<char>, n: u32) -> bool {
    metadata_is(m, BrowserType::Safari, n, safari_ios_user_agent(vs), "iOS"@, true, vs)
}

/// Metadata of Edge `v` on Windows.
pub open spec fn is_edge(m: ProfileMetadata, v: u32) -> bool {
    metadata_is(m, BrowserType::Edge, v, edge_user_agent(v), "Windows"@, false, decimal(v as nat))
}

/// Metadata of Opera `v`, built on Chrome `chrome`, on Windows.
pub open spec fn is_opera(m: ProfileMetadata, v: u32, chrome: u32) -> bool {
    metadata_is(m, BrowserType::Opera, v, opera_user_agent(v, chrome), "Windows"@, false, decimal(v as nat))
}

/// Metadata of Chrome `v` on Android.
pub open spec fn is_chrome_mobile(m: ProfileMetadata, v: u32) -> bool {
    metadata_is(m, BrowserType::Chrome, v, chrome_mobile_user_agent(v), "Android"@, true, decimal(v as nat))
}

/// Metadata of Firefox `v` on Android.
pub open spec fn is_firefox_mobile(m: ProfileMetadata, v: u32) -> bool {
    metadata_is(m, BrowserType::Firefox, v, firefox_mobile_user_agent(v), "Android"@, true, decimal(v as nat))
}

fn chrome_profile(v: u32) -> (r: BrowserProfile)
    ensures
        is_chrome(r.metadata, v),
{
    let mut ua: String = String::from_str(
        "Mozilla/5.0 (Windows NT 10.0; Win64; x64) AppleWebKit/537.36 (KHTML, like Gecko) Chrome/",
    );
    push_decimal(&mut ua, v as u64);
    ua.append(".0.0.0 Safari/537.36");
    BrowserProfile::create(BrowserType::Chrome, v, ua, "Windows", false)
}

fn firefox_profile(v: u32) -> (r: BrowserProfile)
    ensures
        is_firefox(r.metadata, v),
{
    let mut ua: String = String::from_str("Mozilla/5.0 (Windows NT 10.0; Win64; x64; rv:");
    push_decimal(&mut ua, v as u64);
    ua.append(".0) Gecko/20100101 Firefox/");
    push_decimal(&mut ua, v as u64);
    ua.append(".0");
    BrowserProfile::create(BrowserType::Firefox, v, ua, "Windows", false)
}

fn safari_profile(vs: &str, n: u32) -> (r: BrowserProfile)
    ensures
        is_safari(r.metadata, vs@, n),
{
    let mut ua: String = String::from_str(
        "Mozilla/5.0 (Macintosh; Intel Mac OS X 10_15_7) AppleWebKit/605.1.15 (KHTML, like Gecko) Version/",
    );
    ua.append(vs);
    ua.append(" Safari/605.1.15");
    BrowserProfile::create_with_version_string(BrowserType::Safari, n, ua, "macOS", false, String::from_str(vs))
}

fn safari_ios_profile(vs: &str, n: u32) -> (r: BrowserProfile)
    ensures
        is_safari_ios(r.metadata, vs@, n),
{
    let mut ua: String = String::from_str("Mozilla/5.0 (iPhone; CPU iPhone OS ");
    push_replaced(&mut ua, vs, '.', '_');
    ua.append(" like Mac OS X) AppleWebKit/605.1.15 (KHTML, like Gecko) Version/");
    ua.append(vs);
    ua.append(" Mobile/15E148 Safari/604.1");
    BrowserProfile::create_with_version_string(BrowserType::Safari, n, ua, "iOS", true, String::from_str(vs))
}

fn edge_profile(v: u32) -> (r: BrowserProfile)
    ensures
        is_edge(r.metadata, v),
{
    let mut ua: String = String::from_str(
        "Mozilla/5.0 (Windows NT 10.0; Win64; x64) AppleWebKit/537.36 (KHTML, like Gecko) Chrome/",
    );
    push_decimal(&mut ua, v as u64);
    ua.append(".0.0.0 Safari/537.36");
    ua.append(" Edg/");
    push_decimal(&mut ua, v as u64);
    ua.append(".0.0.0");
    BrowserProfile::create(BrowserType::Edge, v, ua, "Windows", false)
}

fn opera_profile(v: u32, chrome: u32) -> (r: BrowserProfile)
    ensures
        is_opera(r.metadata, v, chrome),
{
    let mut ua: String = String::from_str(
        "Mozilla/5.0 (Windows NT 10.0; Win64; x64) AppleWebKit/537.36 (KHTML, like Gecko) Chrome/",
    );
    push_decimal(&mut ua, chrome as u64);
    ua.append(".0.0.0 Safari/537.36");
    ua.append(" OPR/");
    push_decimal(&mut ua, v as u64);
    ua.append(".0.0.0");
    BrowserProfile::create(BrowserType::Opera, v, ua, "Windows", false)
}

fn chrome_mobile_profile(v: u32) -> (r: BrowserProfile)
    ensures
        is_chrome_mobile(r.metadata, v),
{
    let mut ua: String = String::from_str(
        "Mozilla/5.0 (Linux; Android 10) AppleWebKit/537.36 (KHTML, like Gecko) Chrome/",
    );
    push_decimal(&mut ua, v as u64);
    ua.append(".0.0.0 Mobile Safari/537.36");
    BrowserProfile::create(BrowserType::Chrome, v, ua, "Android", true)
}

fn firefox_mobile_profile(v: u32) -> (r: BrowserProfile)
    ensures
        is_firefox_mobile(r.metadata, v),
{
    let mut ua: String = String::from_str("Mozilla/5.0 (Android 10; Mobile; rv:");
    push_decimal(&mut ua, v as u64);
    ua.append(".0) Gecko/");
    push_decimal(&mut ua, v as u64);
    ua.append(".0 Firefox/");
    push_decimal(&mut ua, v as u64);
    ua.append(".0");
    BrowserProfile::create(BrowserType::Firefox, v, ua, "Android", true)
}

/// Chrome 103 on Windows.
pub fn chrome_103() -> (r: BrowserProfile)
    ensures
        is_chrome(r.metadata, 103),
{
    chrome_profile(103)
}

/// Chrome 104 on Windows.
pub fn chrome_104() -> (r: BrowserProfile)
    ensures
        is_chrome(r.metadata, 104),
{
    chrome_profile(104)
}

/// Chrome 105 on Windows.
pub fn chrome_105() -> (r: BrowserProfile)
    ensures
        is_chrome(r.metadata, 105),
{
    chrome_profile(105)
}

/// Chrome 106 on Windows.
pub fn chrome_106() -> (r: BrowserProfile)
    ensures
        is_chrome(r.metadata, 106),
{
    chrome_profile(106)
}

/// Chrome 107 on Windows.
pub fn chrome_107() -> (r: BrowserProfile)
    ensures
        is_chrome(r.metadata, 107),
{
    chrome_profile(107)
}

/// Chrome 108 on Windows.
pub fn chrome_108() -> (r: BrowserProfile)
    ensures
        is_chrome(r.metadata, 108),
{
    chrome_profile(108)
}

/// Chrome 109 on Windows.
pub fn chrome_109() -> (r: BrowserProfile)
    ensures
        is_chrome(r.metadata, 109),
{
    chrome_profile(109)
}

/// Chrome 110 on Windows.
pub fn chrome_110() -> (r: BrowserProfile)
    ensures
        is_chrome(r.metadata, 110),
{
    chrome_profile(110)
}

/// Chrome 111 on Windows.
pub fn chrome_111() -> (r: BrowserProfile)
    ensures
        is_chrome(r.metadata, 111),
{
    chrome_profile(111)
}

/// Chrome 112 on Windows.
pub fn chrome_112() -> (r: BrowserProfile)
    ensures
        is_chrome(r.metadata, 112),
{
    chrome_profile(112)
}

/// Chrome 116 on Windows, resuming sessions with a pre-shared key.
pub fn chrome_116_psk() -> (r: BrowserProfile)
    ensures
        is_chrome(r.metadata, 116),
{
    chrome_profile(116)
}

/// Chrome 116 on Windows, with a pre-shared key and post-quantum key exchange.
pub fn chrome_116_psk_pq() -> (r: BrowserProfile)
    ensures
        is_chrome(r.metadata, 116),
{
    chrome_profile(116)
}

/// Chrome 117 on Windows.
pub fn chrome_117() -> (r: BrowserProfile)
    ensures
        is_chrome(r.metadata, 117),
{
    chrome_profile(117)
}

/// Chrome 120 on Windows.
pub fn chrome_120() -> (r: BrowserProfile)
    ensures
        is_chrome(r.metadata, 120),
{
    chrome_profile(120)
}

/// Chrome 121 on Windows.
pub fn chrome_121() -> (r: BrowserProfile)
    ensures
        is_chrome(r.metadata, 121),
{
    chrome_profile(121)
}

/// Chrome 122 on Windows.
pub fn chrome_122() -> (r: BrowserProfile)
    ensures
        is_chrome(r.metadata, 122),
{
    chrome_profile(122)
}

/// Chrome 123 on Windows.
pub fn chrome_123() -> (r: BrowserProfile)
    ensures
        is_chrome(r.metadata, 123),
{
    chrome_profile(123)
}

/// Chrome 124 on Windows.
pub fn chrome_124() -> (r: BrowserProfile)
    ensures
        is_chrome(r.metadata, 124),
{
    chrome_profile(124)
}

/// Chrome 125 on Windows.
pub fn chrome_125() -> (r: BrowserProfile)
    ensures
        is_chrome(r.metadata, 125),
{
    chrome_profile(125)
}

/// Chrome 126 on Windows.
pub fn chrome_126() -> (r: BrowserProfile)
    ensures
        is_chrome(r.metadata, 126),
{
    chrome_profile(126)
}

/// Chrome 127 on Windows.
pub fn chrome_127() -> (r: BrowserProfile)
    ensures
        is_chrome(r.metadata, 127),
{
    chrome_profile(127)
}

/// Chrome 128 on Windows.
pub fn chrome_128() -> (r: BrowserProfile)
    ensures
        is_chrome(r.metadata, 128),
{
    chrome_profile(128)
}

/// Chrome 129 on Windows.
pub fn chrome_129() -> (r: BrowserProfile)
    ensures
        is_chrome(r.metadata, 129),
{
    chrome_profile(129)
}

/// Chrome 130 on Windows.
pub fn chrome_130() -> (r: BrowserProfile)
    ensures
        is_chrome(r.metadata, 130),
{
    chrome_profile(130)
}

/// Chrome 131 on Windows.
pub fn chrome_131() -> (r: BrowserProfile)
    ensures
        is_chrome(r.metadata, 131),
{
    chrome_profile(131)
}

/// Chrome 132 on Windows.
pub fn chrome_132() -> (r: BrowserProfile)
    ensures
        is_chrome(r.metadata, 132),
{
    chrome_profile(132)
}

/// Chrome 133 on Windows.
pub fn chrome_133() -> (r: BrowserProfile)
    ensures
        is_chrome(r.metadata, 133),
{
    chrome_profile(133)
}

/// Chrome 133 on Windows, resuming sessions with a pre-shared key.
pub fn chrome_133_psk() -> (r: BrowserProfile)
    ensures
        is_chrome(r.metadata, 133),
{
    chrome_profile(133)
}

/// Chrome 133 on Windows, sending early data.
pub fn chrome_133_0rtt() -> (r: BrowserProfile)
    ensures
        is_chrome(r.metadata, 133),
{
    chrome_profile(133)
}

/// Chrome 133 on Windows, with a pre-shared key and early data.
pub fn chrome_133_psk_0rtt() -> (r: BrowserProfile)
    ensures
        is_chrome(r.metadata, 133),
{
    chrome_profile(133)
}

/// Chrome 134 on Windows.
pub fn chrome_134() -> (r: BrowserProfile)
    ensures
        is_chrome(r.metadata, 134),
{
    chrome_profile(134)
}

/// Chrome 135 on Windows.
pub fn chrome_135() -> (r: BrowserProfile)
    ensures
        is_chrome(r.metadata, 135),
{
    chrome_profile(135)
}

/// Chrome 136 on Windows.
pub fn chrome_136() -> (r: BrowserProfile)
    ensures
        is_chrome(r.metadata, 136),
{
    chrome_profile(136)
}

/// Chrome 137 on Windows.
pub fn chrome_137() -> (r: BrowserProfile)
    ensures
        is_chrome(r.metadata, 137),
{
    chrome_profile(137)
}

/// Chrome 138 on Windows.
pub fn chrome_138() -> (r: BrowserProfile)
    ensures
        is_chrome(r.metadata, 138),
{
    chrome_profile(138)
}

/// Firefox 102 on Windows.
pub fn firefox_102() -> (r: BrowserProfile)
    ensures
        is_firefox(r.metadata, 102),
{
    firefox_profile(102)
}

/// Firefox 104 on Windows.
pub fn firefox_104() -> (r: BrowserProfile)
    ensures
        is_firefox(r.metadata, 104),
{
    firefox_profile(104)
}

/// Firefox 105 on Windows.
pub fn firefox_105() -> (r: BrowserProfile)
    ensures
        is_firefox(r.metadata, 105),
{
    firefox_profile(105)
}

/// Firefox 106 on Windows.
pub fn firefox_106() -> (r: BrowserProfile)
    ensures
        is_firefox(r.metadata, 106),
{
    firefox_profile(106)
}

/// Firefox 108 on Windows.
pub fn firefox_108() -> (r: BrowserProfile)
    ensures
        is_firefox(r.metadata, 108),
{
    firefox_profile(108)
}

/// Firefox 110 on Windows.
pub fn firefox_110() -> (r: BrowserProfile)
    ensures
        is_firefox(r.metadata, 110),
{
    firefox_profile(110)
}

/// Firefox 117 on Windows.
pub fn firefox_117() -> (r: BrowserProfile)
    ensures
        is_firefox(r.metadata, 117),
{
    firefox_profile(117)
}

/// Firefox 120 on Windows.
pub fn firefox_120() -> (r: BrowserProfile)
    ensures
        is_firefox(r.metadata, 120),
{
    firefox_profile(120)
}

/// Firefox 123 on Windows.
pub fn firefox_123() -> (r: BrowserProfile)
    ensures
        is_firefox(r.metadata, 123),
{
    firefox_profile(123)
}

/// Firefox 130 on Windows.
pub fn firefox_130() -> (r: BrowserProfile)
    ensures
        is_firefox(r.metadata, 130),
{
    firefox_profile(130)
}

/// Firefox 131 on Windows.
pub fn firefox_131() -> (r: BrowserProfile)
    ensures
        is_firefox(r.metadata, 131),
{
    firefox_profile(131)
}

/// Firefox 132 on Windows.
pub fn firefox_132() -> (r: BrowserProfile)
    ensures
        is_firefox(r.metadata, 132),
{
    firefox_profile(132)
}

/// Firefox 133 on Windows.
pub fn firefox_133() -> (r: BrowserProfile)
    ensures
        is_firefox(r.metadata, 133),
{
    firefox_profile(133)
}

/// Firefox 134 on Windows.
pub fn firefox_134() -> (r: BrowserProfile)
    ensures
        is_firefox(r.metadata, 134),
{
    firefox_profile(134)
}

/// Firefox 135 on Windows.
pub fn firefox_135() -> (r: BrowserProfile)
    ensures
        is_firefox(r.metadata, 135),
{
    firefox_profile(135)
}

/// Firefox 136 on Windows.
pub fn firefox_136() -> (r: BrowserProfile)
    ensures
        is_firefox(r.metadata, 136),
{
    firefox_profile(136)
}

/// Firefox 137 on Windows.
pub fn firefox_137() -> (r: BrowserProfile)
    ensures
        is_firefox(r.metadata, 137),
{
    firefox_profile(137)
}

/// Firefox 138 on Windows.
pub fn firefox_138() -> (r: BrowserProfile)
    ensures
        is_firefox(r.metadata, 138),
{
    firefox_profile(138)
}

/// Safari 15.0 on macOS.
pub fn safari_15_0() -> (r: BrowserProfile)
    ensures
        is_safari(r.metadata, "15.0"@, 150),
{
    safari_profile("15.0", 150)
}

/// Safari 15.6.1 on macOS.
pub fn safari_15_6_1() -> (r: BrowserProfile)
    ensures
        is_safari(r.metadata, "15.6.1"@, 1561),
{
    safari_profile("15.6.1", 1561)
}

/// Safari 15.7 on macOS.
pub fn safari_15_7() -> (r: BrowserProfile)
    ensures
        is_safari(r.metadata, "15.7"@, 157),
{
    safari_profile("15.7", 157)
}

/// Safari 16.0 on macOS.
pub fn safari_16_0() -> (r: BrowserProfile)
    ensures
        is_safari(r.metadata, "16.0"@, 160),
{
    safari_profile("16.0", 160)
}

/// Safari 17.0 on macOS.
pub fn safari_17_0() -> (r: BrowserProfile)
    ensures
        is_safari(r.metadata, "17.0"@, 170),
{
    safari_profile("17.0", 170)
}

/// Safari 17.5 on macOS.
pub fn safari_17_5() -> (r: BrowserProfile)
    ensures
        is_safari(r.metadata, "17.5"@, 175),
{
    safari_profile("17.5", 175)
}

/// Safari 18.0 on macOS.
pub fn safari_18_0() -> (r: BrowserProfile)
    ensures
        is_safari(r.metadata, "18.0"@, 180),
{
    safari_profile("18.0", 180)
}

/// Safari 18.1 on macOS.
pub fn safari_18_1() -> (r: BrowserProfile)
    ensures
        is_safari(r.metadata, "18.1"@, 181),
{
    safari_profile("18.1", 181)
}

/// Safari 18.2 on macOS.
pub fn safari_18_2() -> (r: BrowserProfile)
    ensures
        is_safari(r.metadata, "18.2"@, 182),
{
    safari_profile("18.2", 182)
}

/// Safari 18.3 on macOS.
pub fn safari_18_3() -> (r: BrowserProfile)
    ensures
        is_safari(r.metadata, "18.3"@, 183),
{
    safari_profile("18.3", 183)
}

/// Safari 15.5 on iOS.
pub fn safari_ios_15_5() -> (r: BrowserProfile)
    ensures
        is_safari_ios(r.metadata, "15.5"@, 155),
{
    safari_ios_profile("15.5", 155)
}

/// Safari 15.6 on iOS.
pub fn safari_ios_15_6() -> (r: BrowserProfile)
    ensures
        is_safari_ios(r.metadata, "15.6"@, 156),
{
    safari_ios_profile("15.6", 156)
}

/// Safari 16.0 on iOS.
pub fn safari_ios_16_0() -> (r: BrowserProfile)
    ensures
        is_safari_ios(r.metadata, "16.0"@, 160),
{
    safari_ios_profile("16.0", 160)
}

/// Safari 17.0 on iOS.
pub fn safari_ios_17_0() -> (r: BrowserProfile)
    ensures
        is_safari_ios(r.metadata, "17.0"@, 170),
{
    safari_ios_profile("17.0", 170)
}

/// Safari 18.0 on iOS.
pub fn safari_ios_18_0() -> (r: BrowserProfile)
    ensures
        is_safari_ios(r.metadata, "18.0"@, 180),
{
    safari_ios_profile("18.0", 180)
}

/// Safari 18.1 on iOS.
pub fn safari_ios_18_1() -> (r: BrowserProfile)
    ensures
        is_safari_ios(r.metadata, "18.1"@, 181),
{
    safari_ios_profile("18.1", 181)
}

/// Safari 18.2 on iOS.
pub fn safari_ios_18_2() -> (r: BrowserProfile)
    ensures
        is_safari_ios(r.metadata, "18.2"@, 182),
{
    safari_ios_profile("18.2", 182)
}

/// Safari 18.3 on iOS.
pub fn safari_ios_18_3() -> (r: BrowserProfile)
    ensures
        is_safari_ios(r.metadata, "18.3"@, 183),
{
    safari_ios_profile("18.3", 183)
}

/// Safari 18.5 on iOS.
pub fn safari_ios_18_5() -> (r: BrowserProfile)
    ensures
        is_safari_ios(r.metadata, "18.5"@, 185),
{
    safari_ios_profile("18.5", 185)
}

/// Safari 15.6 on iPadOS.
pub fn safari_ipad_15_6() -> (r: BrowserProfile)
    ensures
        metadata_is(r.metadata, BrowserType::Safari, 156, IPAD_USER_AGENT@, "iPadOS"@, true, decimal(156)),
{
    BrowserProfile::create(BrowserType::Safari, 156, String::from_str(IPAD_USER_AGENT), "iPadOS", true)
}

/// Edge 120 on Windows.
pub fn edge_120() -> (r: BrowserProfile)
    ensures
        is_edge(r.metadata, 120),
{
    edge_profile(120)
}

/// Edge 124 on Windows.
pub fn edge_124() -> (r: BrowserProfile)
    ensures
        is_edge(r.metadata, 124),
{
    edge_profile(124)
}

/// Edge 125 on Windows.
pub fn edge_125() -> (r: BrowserProfile)
    ensures
        is_edge(r.metadata, 125),
{
    edge_profile(125)
}

/// Edge 126 on Windows.
pub fn edge_126() -> (r: BrowserProfile)
    ensures
        is_edge(r.metadata, 126),
{
    edge_profile(126)
}

/// Edge 130 on Windows.
pub fn edge_130() -> (r: BrowserProfile)
    ensures
        is_edge(r.metadata, 130),
{
    edge_profile(130)
}

/// Edge 131 on Windows.
pub fn edge_131() -> (r: BrowserProfile)
    ensures
        is_edge(r.metadata, 131),
{
    edge_profile(131)
}

/// Edge 132 on Windows.
pub fn edge_132() -> (r: BrowserProfile)
    ensures
        is_edge(r.metadata, 132),
{
    edge_profile(132)
}

/// Edge 133 on Windows.
pub fn edge_133() -> (r: BrowserProfile)
    ensures
        is_edge(r.metadata, 133),
{
    edge_profile(133)
}

/// Edge 134 on Windows.
pub fn edge_134() -> (r: BrowserProfile)
    ensures
        is_edge(r.metadata, 134),
{
    edge_profile(134)
}

/// Edge 135 on Windows.
pub fn edge_135() -> (r: BrowserProfile)
    ensures
        is_edge(r.metadata, 135),
{
    edge_profile(135)
}

/// Edge 137 on Windows.
pub fn edge_137() -> (r: BrowserProfile)
    ensures
        is_edge(r.metadata, 137),
{
    edge_profile(137)
}

/// Opera 89 (Chrome 103) on Windows.
pub fn opera_89() -> (r: BrowserProfile)
    ensures
        is_opera(r.metadata, 89, 103),
{
    opera_profile(89, 103)
}

/// Opera 90 (Chrome 104) on Windows.
pub fn opera_90() -> (r: BrowserProfile)
    ensures
        is_opera(r.metadata, 90, 104),
{
    opera_profile(90, 104)
}

/// Opera 91 (Chrome 105) on Windows.
pub fn opera_91() -> (r: BrowserProfile)
    ensures
        is_opera(r.metadata, 91, 105),
{
    opera_profile(91, 105)
}

/// Opera 92 (Chrome 106) on Windows.
pub fn opera_92() -> (r: BrowserProfile)
    ensures
        is_opera(r.metadata, 92, 106),
{
    opera_profile(92, 106)
}

/// Opera 93 (Chrome 107) on Windows.
pub fn opera_93() -> (r: BrowserProfile)
    ensures
        is_opera(r.metadata, 93, 107),
{
    opera_profile(93, 107)
}

/// Opera 94 (Chrome 108) on Windows.
pub fn opera_94() -> (r: BrowserProfile)
    ensures
        is_opera(r.metadata, 94, 108),
{
    opera_profile(94, 108)
}

/// Chrome 120 on Android.
pub fn chrome_mobile_120() -> (r: BrowserProfile)
    ensures
        is_chrome_mobile(r.metadata, 120),
{
    chrome_mobile_profile(120)
}

/// Chrome 130 on Android.
pub fn chrome_mobile_130() -> (r: BrowserProfile)
    ensures
        is_chrome_mobile(r.metadata, 130),
{
    chrome_mobile_profile(130)
}

/// Chrome 134 on Android.
pub fn chrome_mobile_134() -> (r: BrowserProfile)
    ensures
        is_chrome_mobile(r.metadata, 134),
{
    chrome_mobile_profile(134)
}

/// Chrome 135 on Android.
pub fn chrome_mobile_135() -> (r: BrowserProfile)
    ensures
        is_chrome_mobile(r.metadata, 135),
{
    chrome_mobile_profile(135)
}

/// Chrome 137 on Android.
pub fn chrome_mobile_137() -> (r: BrowserProfile)
    ensures
        is_chrome_mobile(r.metadata, 137),
{
    chrome_mobile_profile(137)
}

/// Firefox 120 on Android.
pub fn firefox_mobile_120() -> (r: BrowserProfile)
    ensures
        is_firefox_mobile(r.metadata, 120),
{
    firefox_mobile_profile(120)
}

/// Firefox 130 on Android.
pub fn firefox_mobile_130() -> (r: BrowserProfile)
    ensures
        is_firefox_mobile(r.metadata, 130),
{
    firefox_mobile_profile(130)
}

/// Firefox 135 on Android.
pub fn firefox_mobile_135() -> (r: BrowserProfile)
    ensures
        is_firefox_mobile(r.metadata, 135),
{
    firefox_mobile_profile(135)
}

/// The profiles offered by name: `chrome_133`, `chrome_136`, `firefox_133`
/// and `safari_16_0`, in that order.
pub fn mapped_tls_clients() -> (r: Vec<(String, BrowserProfile)>)
    ensures
        r@.len() == 4,
        r@[0].0@ == "chrome_133"@ && is_chrome(r@[0].1.metadata, 133),
        r@[1].0@ == "chrome_136"@ && is_chrome(r@[1].1.metadata, 136),
        r@[2].0@ == "firefox_133"@ && is_firefox(r@[2].1.metadata, 133),
        r@[3].0@ == "safari_16_0"@ && is_safari(r@[3].1.metadata, "16.0"@, 160),
{
    let mut map: Vec<(String, BrowserProfile)> = Vec::new();
    map.push((String::from_str("chrome_133"), chrome_133()));
    map.push((String::from_str("chrome_136"), chrome_136()));
    map.push((String::from_str("firefox_133"), firefox_133()));
    map.push((String::from_str("safari_16_0"), safari_16_0()));
    map
}

} // verus!
