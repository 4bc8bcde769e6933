//! Extension metadata kept while building a ClientHello specification (SNI,
//! ALPN, groups, point formats, signature algorithms, versions).
use vstd::prelude::*;

verus! {

broadcast use vstd::string::group_string_axioms;

/// Extension number of server_name.
pub const EXT_TYPE_SERVER_NAME: u16 = 0;
/// Extension number of supported_groups.
pub const EXT_TYPE_SUPPORTED_GROUPS: u16 = 10;
/// Extension number of ec_point_formats.
pub const EXT_TYPE_EC_POINT_FORMATS: u16 = 11;
/// Extension number of signature_algorithms.
pub const EXT_TYPE_SIGNATURE_ALGORITHMS: u16 = 13;
/// Extension number of application_layer_protocol_negotiation.
pub const EXT_TYPE_APPLICATION_LAYER_PROTOCOL_NEGOTIATION: u16 = 16;
/// Extension number of supported_versions.
pub const EXT_TYPE_SUPPORTED_VERSIONS: u16 = 43;

/// TLS extension metadata
#[derive(Debug, Clone)]
pub struct ExtensionMetadata {
    /// SNI value (if present)
    pub sni: Option<String>,
    /// ALPN protocol list (if present)
    pub alpn: Option<Vec<String>>,
    /// elliptic curve list (if present)
    pub elliptic_curves: Option<Vec<u16>>,
    /// elliptic curve point formats (if present)
    pub elliptic_curve_point_formats: Option<Vec<u8>>,
    /// signature algorithm list (if present)
    pub signature_algorithms: Option<Vec<u16>>,
    /// supported versions (if present)
    pub supported_versions: Option<Vec<u16>>,
}

/// Appending an entry for a new number keeps the lookups of numbers found
/// before it.
pub proof fn lemma_ext_pos_prefix(s: Seq<(u16, ExtensionMetadata)>, t: Seq<(u16, ExtensionMetadata)>, id: u16, from: int)
    requires
        t.len() == s.len() + 1,
        forall|i: int| 0 <= i < s.len() ==> #[trigger] t[i] == s[i],
        0 <= from,
    ensures
        ext_pos_from(s, id, from) is Some ==> ext_pos_from(t, id, from) == ext_pos_from(s, id, from),
        ext_pos_from(s, id, from) is None && t[s.len() as int].0 == id && from <= s.len() ==> ext_pos_from(t, id, from) == Some(s.len() as int),
        ext_pos_from(s, id, from) is None && t[s.len() as int].0 != id ==> ext_pos_from(t, id, from) is None,
    decreases t.len() - from,
{
    if from < t.len() {
        if from < s.len() && s[from].0 != id {
            lemma_ext_pos_prefix(s, t, id, from + 1);
        } else if from == s.len() {
        }
    }
}

impl ExtensionMetadata {
    /// A copy of the metadata.
    pub fn clone_metadata(&self) -> (r: Self)
        ensures
            r.sni is Some <==> self.sni is Some,
    {
        ExtensionMetadata {
            sni: self.sni.clone(),
            alpn: self.alpn.clone(),
            elliptic_curves: self.elliptic_curves.clone(),
            elliptic_curve_point_formats: self.elliptic_curve_point_formats.clone(),
            signature_algorithms: self.signature_algorithms.clone(),
            supported_versions: self.supported_versions.clone(),
        }
    }

    /// Metadata with nothing set.
    pub fn empty() -> (r: Self)
        ensures
            r.sni is None,
            r.alpn is None,
            r.elliptic_curves is None,
            r.elliptic_curve_point_formats is None,
            r.signature_algorithms is None,
            r.supported_versions is None,
    {
        ExtensionMetadata {
            sni: None,
            alpn: None,
            elliptic_curves: None,
            elliptic_curve_point_formats: None,
            signature_algorithms: None,
            supported_versions: None,
        }
    }
}

/// Index of the first metadata of extension `id` at or after `from`.
pub open spec fn ext_pos_from(s: Seq<(u16, ExtensionMetadata)>, id: u16, from: int) -> Option<int>
    decreases s.len() - from,
{
    if from < 0 || from >= s.len() {
        None
    } else if s[from].0 == id {
        Some(from)
    } else {
        ext_pos_from(s, id, from + 1)
    }
}

/// Index of the metadata of extension `id`.
pub open spec fn ext_pos(s: Seq<(u16, ExtensionMetadata)>, id: u16) -> Option<int> {
    ext_pos_from(s, id, 0)
}

/// Lookups depend on the extension numbers alone.
pub proof fn lemma_ext_pos_same_keys(s: Seq<(u16, ExtensionMetadata)>, t: Seq<(u16, ExtensionMetadata)>, id: u16, from: int)
    requires
        s.len() == t.len(),
        forall|i: int| 0 <= i < s.len() ==> #[trigger] s[i].0 == t[i].0,
    ensures
        ext_pos_from(s, id, from) == ext_pos_from(t, id, from),
    decreases s.len() - from,
{
    if 0 <= from < s.len() && s[from].0 != id {
        lemma_ext_pos_same_keys(s, t, id, from + 1);
    }
}

/// A found index is in range and carries the number; none before it does.
pub proof fn lemma_ext_pos(s: Seq<(u16, ExtensionMetadata)>, id: u16, from: int)
    requires
        0 <= from,
    ensures
        ext_pos_from(s, id, from) matches Some(i) ==> from <= i < s.len() && s[i].0 == id,
        ext_pos_from(s, id, from) is None ==> forall|k: int| from <= k < s.len() ==> s[k].0 != id,
    decreases s.len() - from,
{
    if from < s.len() && s[from].0 != id {
        lemma_ext_pos(s, id, from + 1);
    }
}

/// ClientHelloSpec metadata: the metadata of each extension, an extension
/// at most once.
#[derive(Debug, Clone)]
pub struct SpecMetadata {
    /// extension metadata by extension number
    pub extension_metadata: Vec<(u16, ExtensionMetadata)>,
}

impl SpecMetadata {
    /// Each extension occurs once.
    pub open spec fn wf(&self) -> bool {
        forall|i: int, j: int| 0 <= i < j < self.extension_metadata@.len()
            ==> #[trigger] self.extension_metadata@[i].0 != #[trigger] self.extension_metadata@[j].0
    }

    /// The metadata of extension `id`, if any.
    pub open spec fn get(&self, id: u16) -> Option<ExtensionMetadata> {
        match ext_pos(self.extension_metadata@, id) {
            Some(i) => Some(self.extension_metadata@[i].1),
            None => None,
        }
    }

    /// Empty metadata.
    pub fn new() -> (r: Self)
        ensures
            r.wf(),
            r.extension_metadata@.len() == 0,
    {
        SpecMetadata { extension_metadata: Vec::new() }
    }

    /// Index of extension `id`, adding empty metadata for it if missing.
    fn entry(&mut self, id: u16) -> (r: usize)
        requires
            old(self).wf(),
        ensures
            final(self).wf(),
            r < final(self).extension_metadata@.len(),
            final(self).extension_metadata@[r as int].0 == id,
            ext_pos(final(self).extension_metadata@, id) == Some(r as int),
            forall|k: u16| k != id ==> #[trigger] final(self).get(k) == old(self).get(k),
    {
        let ghost s = self.extension_metadata@;
        proof { lemma_ext_pos(s, id, 0); }
        let mut i: usize = 0;
        while i < self.extension_metadata.len()
            invariant
                s == self.extension_metadata@,
                self.wf(),
                i <= s.len(),
                ext_pos_from(s, id, 0) == ext_pos_from(s, id, i as int),
            decreases s.len() - i,
        {
            if self.extension_metadata[i].0 == id {
                return i;
            }
            i = i + 1;
        }
        self.extension_metadata.push((id, ExtensionMetadata::empty()));
        let ghost t = self.extension_metadata@;
        proof {
            assert forall|k: u16| k != id implies #[trigger] self.get(k) == old(self).get(k) by {
                lemma_ext_pos(s, k, 0);
                lemma_ext_pos(t, k, 0);
                lemma_ext_pos_prefix(s, t, k, 0);
            }
            assert(ext_pos_from(t, id, i as int) == Some(i as int));
            lemma_ext_pos_prefix(s, t, id, 0);
            assert forall|a: int, b: int| 0 <= a < b < t.len() implies #[trigger] t[a].0 != #[trigger] t[b].0 by {
                if b == i as int {
                    assert(t[a] == s[a]);
                    lemma_ext_pos(s, id, 0);
                }
            }
        }
        i
    }

    /// Replaces the metadata of the extension at index `i`.
    fn put(&mut self, i: usize, m: ExtensionMetadata)
        requires
            old(self).wf(),
            i < old(self).extension_metadata@.len(),
        ensures
            final(self).wf(),
            final(self).extension_metadata@ == old(self).extension_metadata@.update(
                i as int,
                (old(self).extension_metadata@[i as int].0, m),
            ),
            final(self).get(old(self).extension_metadata@[i as int].0) == Some(m),
            forall|k: u16| k != old(self).extension_metadata@[i as int].0 ==> #[trigger] final(self).get(k) == old(self).get(k),
    {
        let ghost s = self.extension_metadata@;
        let id: u16 = self.extension_metadata[i].0;
        self.extension_metadata.set(i, (id, m));
        let ghost t = self.extension_metadata@;
        proof {
            assert forall|a: int| 0 <= a < s.len() implies #[trigger] s[a].0 == t[a].0 by {}
            lemma_ext_pos_same_keys(s, t, id, 0);
            lemma_ext_pos(s, id, 0);
            assert forall|a: int, b: int| 0 <= a < b < t.len() implies #[trigger] t[a].0 != #[trigger] t[b].0 by {
                assert(s[a].0 == t[a].0 && s[b].0 == t[b].0);
            }
            if ext_pos(s, id) != Some(i as int) {
                let p = ext_pos(s, id)->0;
                assert(s[p].0 == s[i as int].0);
            }
            assert forall|k: u16| k != id implies #[trigger] self.get(k) == old(self).get(k) by {
                lemma_ext_pos_same_keys(s, t, k, 0);
                lemma_ext_pos(s, k, 0);
            }
        }
    }

    /// Sets the SNI value.
    pub fn set_sni(&mut self, sni: String)
        requires
            old(self).wf(),
        ensures
            final(self).wf(),
            final(self).get(EXT_TYPE_SERVER_NAME) matches Some(m) && m.sni == Some(sni),
            forall|k: u16| k != EXT_TYPE_SERVER_NAME ==> #[trigger] final(self).get(k) == old(self).get(k),
    {
        let i: usize = self.entry(EXT_TYPE_SERVER_NAME);
        let mut m: ExtensionMetadata = self.extension_metadata[i].1.clone_metadata();
        m.sni = Some(sni);
        self.put(i, m);
    }

    /// Sets the ALPN protocols.
    pub fn set_alpn(&mut self, alpn: Vec<String>)
        requires
            old(self).wf(),
        ensures
            final(self).wf(),
            final(self).get(EXT_TYPE_APPLICATION_LAYER_PROTOCOL_NEGOTIATION) matches Some(m) && m.alpn == Some(alpn),
            forall|k: u16| k != EXT_TYPE_APPLICATION_LAYER_PROTOCOL_NEGOTIATION ==> #[trigger] final(self).get(k) == old(self).get(k),
    {
        let i: usize = self.entry(EXT_TYPE_APPLICATION_LAYER_PROTOCOL_NEGOTIATION);
        let mut m: ExtensionMetadata = self.extension_metadata[i].1.clone_metadata();
        m.alpn = Some(alpn);
        self.put(i, m);
    }

    /// Sets the elliptic curves.
    pub fn set_elliptic_curves(&mut self, curves: Vec<u16>)
        requires
            old(self).wf(),
        ensures
            final(self).wf(),
            final(self).get(EXT_TYPE_SUPPORTED_GROUPS) matches Some(m) && m.elliptic_curves == Some(curves),
            forall|k: u16| k != EXT_TYPE_SUPPORTED_GROUPS ==> #[trigger] final(self).get(k) == old(self).get(k),
    {
        let i: usize = self.entry(EXT_TYPE_SUPPORTED_GROUPS);
        let mut m: ExtensionMetadata = self.extension_metadata[i].1.clone_metadata();
        m.elliptic_curves = Some(curves);
        self.put(i, m);
    }

    /// Sets the elliptic curve point formats.
    pub fn set_elliptic_curve_point_formats(&mut self, formats: Vec<u8>)
        requires
            old(self).wf(),
        ensures
            final(self).wf(),
            final(self).get(EXT_TYPE_EC_POINT_FORMATS) matches Some(m) && m.elliptic_curve_point_formats == Some(formats),
            forall|k: u16| k != EXT_TYPE_EC_POINT_FORMATS ==> #[trigger] final(self).get(k) == old(self).get(k),
    {
        let i: usize = self.entry(EXT_TYPE_EC_POINT_FORMATS);
        let mut m: ExtensionMetadata = self.extension_metadata[i].1.clone_metadata();
        m.elliptic_curve_point_formats = Some(formats);
        self.put(i, m);
    }

    /// Sets the signature algorithms.
    pub fn set_signature_algorithms(&mut self, algorithms: Vec<u16>)
        requires
            old(self).wf(),
        ensures
            final(self).wf(),
            final(self).get(EXT_TYPE_SIGNATURE_ALGORITHMS) matches Some(m) && m.signature_algorithms == Some(algorithms),
            forall|k: u16| k != EXT_TYPE_SIGNATURE_ALGORITHMS ==> #[trigger] final(self).get(k) == old(self).get(k),
    {
        let i: usize = self.entry(EXT_TYPE_SIGNATURE_ALGORITHMS);
        let mut m: ExtensionMetadata = self.extension_metadata[i].1.clone_metadata();
        m.signature_algorithms = Some(algorithms);
        self.put(i, m);
    }

    /// Sets the supported versions.
    pub fn set_supported_versions(&mut self, versions: Vec<u16>)
        requires
            old(self).wf(),
        ensures
            final(self).wf(),
            final(self).get(EXT_TYPE_SUPPORTED_VERSIONS) matches Some(m) && m.supported_versions == Some(versions),
            forall|k: u16| k != EXT_TYPE_SUPPORTED_VERSIONS ==> #[trigger] final(self).get(k) == old(self).get(k),
    {
        let i: usize = self.entry(EXT_TYPE_SUPPORTED_VERSIONS);
        let mut m: ExtensionMetadata = self.extension_metadata[i].1.clone_metadata();
        m.supported_versions = Some(versions);
        self.put(i, m);
    }

    /// The SNI value, if set.
    pub fn get_sni(&self) -> (r: Option<&String>)
        requires
            self.wf(),
        ensures
            r is Some <==> (self.get(EXT_TYPE_SERVER_NAME) matches Some(m) && m.sni is Some),
            r matches Some(v) ==> self.get(EXT_TYPE_SERVER_NAME)->0.sni == Some(*v),
    {
        let ghost s = self.extension_metadata@;
        let id: u16 = EXT_TYPE_SERVER_NAME;
        let mut i: usize = 0;
        while i < self.extension_metadata.len()
            invariant
                s == self.extension_metadata@,
                i <= s.len(),
                id == EXT_TYPE_SERVER_NAME,
                ext_pos_from(s, id, 0) == ext_pos_from(s, id, i as int),
            decreases s.len() - i,
        {
            if self.extension_metadata[i].0 == id {
                return match &self.extension_metadata[i].1.sni {
                    Some(v) => Some(v),
                    None => None,
                };
            }
            i = i + 1;
        }
        None
    }

    /// The ALPN protocols, if set.
    pub fn get_alpn(&self) -> (r: Option<&Vec<String>>)
        requires
            self.wf(),
        ensures
            r is Some <==> (self.get(EXT_TYPE_APPLICATION_LAYER_PROTOCOL_NEGOTIATION) matches Some(m) && m.alpn is Some),
            r matches Some(v) ==> self.get(EXT_TYPE_APPLICATION_LAYER_PROTOCOL_NEGOTIATION)->0.alpn == Some(*v),
    {
        let ghost s = self.extension_metadata@;
        let id: u16 = EXT_TYPE_APPLICATION_LAYER_PROTOCOL_NEGOTIATION;
        let mut i: usize = 0;
        while i < self.extension_metadata.len()
            invariant
                s == self.extension_metadata@,
                i <= s.len(),
                id == EXT_TYPE_APPLICATION_LAYER_PROTOCOL_NEGOTIATION,
                ext_pos_from(s, id, 0) == ext_pos_from(s, id, i as int),
            decreases s.len() - i,
        {
            if self.extension_metadata[i].0 == id {
                return match &self.extension_metadata[i].1.alpn {
                    Some(v) => Some(v),
                    None => None,
                };
            }
            i = i + 1;
        }
        None
    }

    /// The first ALPN protocol, if any.
    pub fn get_first_alpn(&self) -> (r: Option<String>)
        requires
            self.wf(),
        ensures
            r is Some <==> (self.get(EXT_TYPE_APPLICATION_LAYER_PROTOCOL_NEGOTIATION) matches Some(m)
                && m.alpn matches Some(v) && v@.len() > 0),
            r matches Some(p) ==> p@ == self.get(EXT_TYPE_APPLICATION_LAYER_PROTOCOL_NEGOTIATION)->0.alpn->0@[0]@,
    {
        match self.get_alpn() {
            Some(v) => {
                if v.len() > 0 {
                    Some(v[0].clone())
                } else {
                    None
                }
            },
            None => None,
        }
    }
}

impl Default for SpecMetadata {
    /// Empty metadata.
    fn default() -> (r: Self)
        ensures
            r.wf(),
            r.extension_metadata@.len() == 0,
    {
        Self::new()
    }
}

/// Result of comparing two fingerprints.
#[derive(Debug, Clone, PartialEq)]
pub enum FingerprintMatch {
    /// identical, GREASE values included
    Exact,
    /// the same once GREASE values are ignored
    Similar,
    /// different
    NoMatch,
}

} // verus!
