//! WebGL fingerprints: GPU vendor and renderer, extensions, and a shader
//! fingerprint derived from the extensions.
use vstd::prelude::*;
use vstd::utf8::encode_utf8;
use crate::text::{hex, push_hex};

verus! {

broadcast use vstd::string::group_string_axioms;

/// WebGL fingerprint
#[derive(Debug, Clone)]
pub struct WebGLFingerprint {
    pub gpu_vendor: String,
    pub gpu_renderer: String,
    pub extensions: Vec<String>,
    pub shader_fingerprint: String,
    pub precision_high: bool,
    pub max_texture_size: u32,
}

/// A known GPU configuration.
#[derive(Debug, Clone)]
pub struct WebGLProfile {
    pub gpu_vendor: String,
    pub gpu_renderer: String,
}

/// WebGL analyzer
pub struct WebGLAnalyzer {
    profiles: Vec<(String, WebGLProfile)>,
}

/// Total UTF-8 length of some strings.
pub open spec fn total_bytes(s: Seq<&str>) -> nat
    decreases s.len(),
{
    if s.len() == 0 {
        0
    } else {
        total_bytes(s.drop_last()) + encode_utf8(s.last()@).len()
    }
}

impl WebGLAnalyzer {
    /// The known GPU configurations, by name.
    pub closed spec fn profile_table(&self) -> Seq<(Seq<char>, Seq<char>, Seq<char>)> {
        Seq::new(self.profiles@.len(), |i: int| (self.profiles@[i].0@, self.profiles@[i].1.gpu_vendor@, self.profiles@[i].1.gpu_renderer@))
    }

    /// An analyzer that knows the ANGLE (Google, Angle) and Apple (Apple,
    /// Metal) GPU configurations.
    pub fn new() -> (r: Self)
        ensures
            r.profile_table() == seq![("ANGLE"@, "Google"@, "Angle"@), ("Apple"@, "Apple"@, "Metal"@)],
    {
        let mut profiles: Vec<(String, WebGLProfile)> = Vec::new();
        profiles.push((
            String::from_str("ANGLE"),
            WebGLProfile { gpu_vendor: String::from_str("Google"), gpu_renderer: String::from_str("Angle") },
        ));
        profiles.push((
            String::from_str("Apple"),
            WebGLProfile { gpu_vendor: String::from_str("Apple"), gpu_renderer: String::from_str("Metal") },
        ));
        let r = WebGLAnalyzer { profiles };
        assert(r.profile_table() =~= seq![("ANGLE"@, "Google"@, "Angle"@), ("Apple"@, "Apple"@, "Metal"@)]);
        r
    }

    /// The fingerprint of some WebGL data: vendor, renderer and extensions
    /// as given, high precision, texture size 16384, and as shader
    /// fingerprint the total byte length of the extension names in
    /// lower-case hexadecimal.
    pub fn analyze(&self, vendor: &str, renderer: &str, extensions: &[&str]) -> (r: WebGLFingerprint)
        requires
            total_bytes(extensions@) <= usize::MAX,
        ensures
            r.gpu_vendor@ == vendor@,
            r.gpu_renderer@ == renderer@,
            r.extensions@.len() == extensions@.len(),
            forall|i: int| 0 <= i < extensions@.len() ==> #[trigger] r.extensions@[i]@ == extensions@[i]@,
            r.shader_fingerprint@ == hex(total_bytes(extensions@)),
            r.precision_high,
            r.max_texture_size == 16384,
    {
        let mut names: Vec<String> = Vec::new();
        let mut total: usize = 0;
        let mut i: usize = 0;
        while i < extensions.len()
            invariant
                i <= extensions@.len(),
                total_bytes(extensions@) <= usize::MAX,
                names@.len() == i,
                forall|k: int| 0 <= k < i ==> #[trigger] names@[k]@ == extensions@[k]@,
                total == total_bytes(extensions@.subrange(0, i as int)),
            decreases extensions@.len() - i,
        {
            assert(extensions@.subrange(0, i + 1).drop_last() =~= extensions@.subrange(0, i as int));
            proof { lemma_total_bytes_prefix(extensions@, i + 1); }
            names.push(String::from_str(extensions[i]));
            total = total + extensions[i].as_bytes().len();
            i = i + 1;
        }
        assert(extensions@.subrange(0, i as int) =~= extensions@);
        let mut fp: String = String::new();
        push_hex(&mut fp, total as u64);
        WebGLFingerprint {
            gpu_vendor: String::from_str(vendor),
            gpu_renderer: String::from_str(renderer),
            extensions: names,
            shader_fingerprint: fp,
            precision_high: true,
            max_texture_size: 16384,
        }
    }
}

/// The total of a prefix is at most the whole total.
pub proof fn lemma_total_bytes_prefix(s: Seq<&str>, k: int)
    requires
        0 <= k <= s.len(),
    ensures
        total_bytes(s.subrange(0, k)) <= total_bytes(s),
    decreases s.len() - k,
{
    if k < s.len() {
        lemma_total_bytes_prefix(s, k + 1);
        assert(s.subrange(0, k + 1).drop_last() =~= s.subrange(0, k));
    } else {
        assert(s.subrange(0, k) =~= s);
    }
}

impl Default for WebGLAnalyzer {
    /// The same as [`WebGLAnalyzer::new`].
    fn default() -> (r: Self)
        ensures
            r.profile_table() == seq![("ANGLE"@, "Google"@, "Angle"@), ("Apple"@, "Apple"@, "Metal"@)],
    {
        Self::new()
    }
}

} // verus!
