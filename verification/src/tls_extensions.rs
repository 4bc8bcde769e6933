//! TLS extensions of a ClientHello and their wire encoding.
use vstd::prelude::*;
use crate::grease::{spec_is_grease, TLS_GREASE_VALUES};
use crate::tls_handshake::{be16_bytes, push_all, push_be16};
use crate::tls_metadata::{
    EXT_TYPE_APPLICATION_LAYER_PROTOCOL_NEGOTIATION, EXT_TYPE_EC_POINT_FORMATS, EXT_TYPE_SERVER_NAME,
    EXT_TYPE_SIGNATURE_ALGORITHMS, EXT_TYPE_SUPPORTED_GROUPS, EXT_TYPE_SUPPORTED_VERSIONS,
};
use vstd::utf8::encode_utf8;

verus! {

broadcast use vstd::string::group_string_axioms;

/// TLS extension ID
pub type ExtensionID = u16;

/// A named group (elliptic curve) code point.
pub type CurveID = u16;

/// A signature scheme code point.
pub type SignatureScheme = u16;

/// Extension number of status_request.
pub const EXT_TYPE_STATUS_REQUEST: u16 = 5;
/// Extension number of signed_certificate_timestamp.
pub const EXT_TYPE_SIGNED_CERTIFICATE_TIMESTAMP: u16 = 18;
/// Extension number of padding.
pub const EXT_TYPE_PADDING: u16 = 21;
/// Extension number of extended_master_secret.
pub const EXT_TYPE_EXTENDED_MASTER_SECRET: u16 = 23;
/// Extension number of compress_certificate.
pub const EXT_TYPE_COMPRESS_CERTIFICATE: u16 = 27;
/// Extension number of session_ticket.
pub const EXT_TYPE_SESSION_TICKET: u16 = 35;
/// Extension number of pre_shared_key.
pub const EXT_TYPE_PRE_SHARED_KEY: u16 = 41;
/// Extension number of psk_key_exchange_modes.
pub const EXT_TYPE_PSK_KEY_EXCHANGE_MODES: u16 = 45;
/// Extension number of key_share.
pub const EXT_TYPE_KEY_SHARE: u16 = 51;
/// Extension number of the new application_settings (ALPS) codepoint.
pub const EXT_TYPE_APPLICATION_SETTINGS_NEW: u16 = 17613;
/// Extension number of encrypted_client_hello.
pub const EXT_TYPE_ECH: u16 = 0xfe0d;
/// Extension number of renegotiation_info.
pub const EXT_TYPE_RENEGOTIATION_INFO: u16 = 0xff01;

/// What a `read` into a buffer does: an extension that claims no bytes
/// reads nothing; a buffer shorter than the claim is an error and stays as
/// it was; otherwise the written bytes replace the buffer's front and the
/// claim is returned (an extension writes at most what it claims).
pub open spec fn read_outcome(
    claimed: nat,
    written: Seq<u8>,
    before: Seq<u8>,
    after: Seq<u8>,
    r: Result<usize, std::io::Error>,
) -> bool {
    if claimed == 0 {
        r matches Ok(n) && n == 0 && after == before
    } else if before.len() < claimed {
        r is Err && after == before
    } else {
        r matches Ok(n) && n == claimed && written.len() <= claimed
            && after == written + before.skip(written.len() as int)
    }
}

/// A TLS extension: its ID, the bytes it takes in a ClientHello, and how it
/// writes them.
pub trait TLSExtension {
    /// Whether the extension's sizes fit in a `usize`.
    spec fn fits(&self) -> bool;

    /// The number of bytes the extension takes, header included.
    spec fn claimed_len(&self) -> nat;

    /// The bytes the extension writes at the front of a buffer.
    spec fn written(&self) -> Seq<u8>;

    /// The extension ID.
    spec fn id(&self) -> u16;

    /// The extension's length, header included.
    fn len(&self) -> (r: usize)
        requires
            self.fits(),
        ensures
            r == self.claimed_len(),
    ;

    /// Whether the extension takes no bytes.
    fn is_empty(&self) -> (r: bool)
        requires
            self.fits(),
        ensures
            r == (self.claimed_len() == 0),
    {
        self.len() == 0
    }

    /// Writes the extension to the front of `buf`.
    fn read(&self, buf: &mut [u8]) -> (r: Result<usize, std::io::Error>)
        requires
            self.fits(),
        ensures
            read_outcome(self.claimed_len(), self.written(), old(buf)@, final(buf)@, r),
    ;

    /// The extension ID.
    fn extension_id(&self) -> (r: ExtensionID)
        ensures
            r == self.id(),
    ;
}

/// A TLS extension that can take bytes received for it.
pub trait TLSExtensionWriter: TLSExtension {
    /// Takes the bytes of the extension; every byte is accepted and the
    /// extension's encoding stays as it was.
    fn write(&mut self, buf: &[u8]) -> (r: Result<usize, std::io::Error>)
        ensures
            r matches Ok(n) && n == buf@.len(),
            final(self).fits() == old(self).fits(),
            final(self).claimed_len() == old(self).claimed_len(),
            final(self).written() == old(self).written(),
            final(self).id() == old(self).id(),
    ;
}

/// A uniformly drawn index below `n`, from the thread's random generator.
#[verifier::external_body]
fn random_index(n: usize) -> (r: usize)
    requires
        n > 0,
    ensures
        r < n,
{
    rand::Rng::gen_range(&mut rand::thread_rng(), 0..n)
}

/// The error of a buffer too short for an extension.
#[verifier::external_body]
fn buffer_too_short() -> std::io::Error {
    std::io::Error::new(std::io::ErrorKind::InvalidInput, "buffer too short")
}

/// Copies `bytes` to the front of `buf`.
fn copy_front(buf: &mut [u8], bytes: &Vec<u8>)
    requires
        bytes@.len() <= old(buf)@.len(),
    ensures
        final(buf)@ == bytes@ + old(buf)@.skip(bytes@.len() as int),
{
    let mut i: usize = 0;
    while i < bytes.len()
        invariant
            bytes@.len() <= buf@.len(),
            buf@.len() == old(buf)@.len(),
            i <= bytes@.len(),
            forall|k: int| 0 <= k < i ==> #[trigger] buf@[k] == bytes@[k],
            forall|k: int| i <= k < buf@.len() ==> #[trigger] buf@[k] == old(buf)@[k],
        decreases bytes@.len() - i,
    {
        buf[i] = bytes[i];
        i = i + 1;
    }
    assert(buf@ =~= bytes@ + old(buf)@.skip(bytes@.len() as int));
}

/// SNI extension
#[derive(Debug, Clone)]
pub struct SNIExtension {
    pub server_name: String,
}

impl SNIExtension {
    /// An SNI extension for a host name.
    pub fn new(server_name: String) -> (r: Self)
        ensures
            r.server_name == server_name,
    {
        SNIExtension { server_name }
    }
}

impl TLSExtension for SNIExtension {
    open spec fn fits(&self) -> bool {
        encode_utf8(self.server_name@).len() + 9 <= usize::MAX
    }

    open spec fn claimed_len(&self) -> nat {
        if self.server_name@.len() == 0 {
            0
        } else {
            9 + encode_utf8(self.server_name@).len()
        }
    }

    open spec fn written(&self) -> Seq<u8> {
        let n = encode_utf8(self.server_name@).len();
        be16_bytes(EXT_TYPE_SERVER_NAME as nat) + be16_bytes(n + 5) + be16_bytes(n + 3) + seq![0u8] + be16_bytes(n)
            + encode_utf8(self.server_name@)
    }

    open spec fn id(&self) -> u16 {
        EXT_TYPE_SERVER_NAME
    }

    fn len(&self) -> (r: usize) {
        if self.server_name.unicode_len() == 0 {
            return 0;
        }
        9 + self.server_name.as_str().as_bytes().len()
    }

    fn read(&self, buf: &mut [u8]) -> (r: Result<usize, std::io::Error>) {
        if self.server_name.unicode_len() == 0 {
            return Ok(0);
        }
        let len: usize = self.len();
        if buf.len() < len {
            return Err(buffer_too_short());
        }
        let name: &[u8] = self.server_name.as_str().as_bytes();
        let n: usize = name.len();
        let mut out: Vec<u8> = Vec::new();
        push_be16(&mut out, EXT_TYPE_SERVER_NAME as usize);
        push_be16(&mut out, n + 5);
        push_be16(&mut out, n + 3);
        out.push(0u8);
        push_be16(&mut out, n);
        push_all(&mut out, name);
        assert(out@ =~= self.written());
        copy_front(buf, &out);
        Ok(len)
    }

    fn extension_id(&self) -> (r: ExtensionID) {
        EXT_TYPE_SERVER_NAME
    }
}

impl TLSExtensionWriter for SNIExtension {
    fn write(&mut self, buf: &[u8]) -> (r: Result<usize, std::io::Error>) {
        Ok(buf.len())
    }
}

/// Bytes of an extension with an empty body: its ID and a zero length.
pub open spec fn empty_body(id: u16) -> Seq<u8> {
    be16_bytes(id as nat) + seq![0u8, 0u8]
}

/// Reads an extension of `bytes.len()` bytes into `buf`.
fn read_bytes(buf: &mut [u8], bytes: &Vec<u8>) -> (r: Result<usize, std::io::Error>)
    requires
        bytes@.len() > 0,
    ensures
        read_outcome(bytes@.len(), bytes@, old(buf)@, final(buf)@, r),
{
    if buf.len() < bytes.len() {
        return Err(buffer_too_short());
    }
    copy_front(buf, bytes);
    Ok(bytes.len())
}

/// The bytes of an extension with an empty body.
fn empty_body_bytes(id: u16) -> (r: Vec<u8>)
    ensures
        r@ == empty_body(id),
{
    let mut out: Vec<u8> = Vec::new();
    push_be16(&mut out, id as usize);
    out.push(0u8);
    out.push(0u8);
    assert(out@ =~= empty_body(id));
    out
}

/// GREASE extension
#[derive(Debug, Clone)]
pub struct UtlsGREASEExtension {
    pub value: u16,
}

impl UtlsGREASEExtension {
    /// A GREASE extension with a GREASE value drawn at random.
    pub fn new() -> (r: Self)
        ensures
            spec_is_grease(r.value),
    {
        let i: usize = random_index(16);
        let value: u16 = TLS_GREASE_VALUES[i];
        proof { crate::grease::lemma_grease_table_and_filter(Seq::empty()); }
        UtlsGREASEExtension { value }
    }
}

impl Default for UtlsGREASEExtension {
    /// A GREASE extension with a GREASE value drawn at random.
    fn default() -> (r: Self)
        ensures
            spec_is_grease(r.value),
    {
        Self::new()
    }
}

impl TLSExtension for UtlsGREASEExtension {
    open spec fn fits(&self) -> bool {
        true
    }

    open spec fn claimed_len(&self) -> nat {
        4
    }

    open spec fn written(&self) -> Seq<u8> {
        empty_body(self.value)
    }

    open spec fn id(&self) -> u16 {
        self.value
    }

    fn len(&self) -> (r: usize) {
        4
    }

    fn read(&self, buf: &mut [u8]) -> (r: Result<usize, std::io::Error>) {
        read_bytes(buf, &empty_body_bytes(self.value))
    }

    fn extension_id(&self) -> (r: ExtensionID) {
        self.value
    }
}

/// Status Request extension
#[derive(Debug, Clone)]
pub struct StatusRequestExtension;

/// Bytes of the status_request extension: an OCSP request with no
/// responder IDs and no request extensions.
pub open spec fn status_request_bytes() -> Seq<u8> {
    be16_bytes(EXT_TYPE_STATUS_REQUEST as nat) + seq![0u8, 5u8, 1u8, 0u8, 0u8, 0u8, 0u8]
}

impl TLSExtension for StatusRequestExtension {
    open spec fn fits(&self) -> bool {
        true
    }

    open spec fn claimed_len(&self) -> nat {
        9
    }

    open spec fn written(&self) -> Seq<u8> {
        status_request_bytes()
    }

    open spec fn id(&self) -> u16 {
        EXT_TYPE_STATUS_REQUEST
    }

    fn len(&self) -> (r: usize) {
        9
    }

    fn read(&self, buf: &mut [u8]) -> (r: Result<usize, std::io::Error>) {
        let mut out: Vec<u8> = Vec::new();
        push_be16(&mut out, EXT_TYPE_STATUS_REQUEST as usize);
        out.push(0u8);
        out.push(5u8);
        out.push(1u8);
        out.push(0u8);
        out.push(0u8);
        out.push(0u8);
        out.push(0u8);
        assert(out@ =~= status_request_bytes());
        read_bytes(buf, &out)
    }

    fn extension_id(&self) -> (r: ExtensionID) {
        EXT_TYPE_STATUS_REQUEST
    }
}

/// The big-endian bytes of each value, in order.
pub open spec fn be16_list(s: Seq<u16>) -> Seq<u8>
    decreases s.len(),
{
    if s.len() == 0 {
        Seq::empty()
    } else {
        be16_list(s.drop_last()) + be16_bytes(s.last() as nat)
    }
}

/// The encoding is two bytes per value.
pub proof fn lemma_be16_list_len(s: Seq<u16>)
    ensures
        be16_list(s).len() == 2 * s.len(),
    decreases s.len(),
{
    if s.len() > 0 {
        lemma_be16_list_len(s.drop_last());
    }
}

/// Appends the big-endian bytes of each value.
fn push_be16_list(v: &mut Vec<u8>, values: &[u16])
    ensures
        final(v)@ == old(v)@ + be16_list(values@),
{
    let mut i: usize = 0;
    while i < values.len()
        invariant
            i <= values@.len(),
            v@ == old(v)@ + be16_list(values@.subrange(0, i as int)),
        decreases values@.len() - i,
    {
        assert(values@.subrange(0, i + 1).drop_last() =~= values@.subrange(0, i as int));
        push_be16(v, values[i] as usize);
        i = i + 1;
        assert(v@ =~= old(v)@ + be16_list(values@.subrange(0, i as int)));
    }
    assert(values@.subrange(0, i as int) =~= values@);
}

/// Bytes of an extension that carries a list of 16-bit values behind a
/// two-byte list length.
pub open spec fn u16_list_ext(id: u16, values: Seq<u16>) -> Seq<u8> {
    be16_bytes(id as nat) + be16_bytes(2 + 2 * values.len()) + be16_bytes(2 * values.len()) + be16_list(values)
}

/// The bytes of an extension carrying a list of 16-bit values.
fn u16_list_ext_bytes(id: u16, values: &Vec<u16>) -> (r: Vec<u8>)
    requires
        6 + 2 * values@.len() <= usize::MAX,
    ensures
        r@ == u16_list_ext(id, values@),
        r@.len() == 6 + 2 * values@.len(),
{
    let n: usize = values.len();
    let mut out: Vec<u8> = Vec::new();
    push_be16(&mut out, id as usize);
    push_be16(&mut out, 2 + 2 * n);
    push_be16(&mut out, 2 * n);
    push_be16_list(&mut out, values.as_slice());
    proof { lemma_be16_list_len(values@); }
    assert(out@ =~= u16_list_ext(id, values@));
    out
}

/// Supported Curves extension
#[derive(Debug, Clone)]
pub struct SupportedCurvesExtension {
    pub curves: Vec<CurveID>,
}

impl SupportedCurvesExtension {
    /// A supported_groups extension with these groups.
    pub fn new(curves: Vec<CurveID>) -> (r: Self)
        ensures
            r.curves == curves,
    {
        SupportedCurvesExtension { curves }
    }
}

impl TLSExtension for SupportedCurvesExtension {
    open spec fn fits(&self) -> bool {
        6 + 2 * self.curves@.len() <= usize::MAX
    }

    open spec fn claimed_len(&self) -> nat {
        6 + 2 * self.curves@.len()
    }

    open spec fn written(&self) -> Seq<u8> {
        u16_list_ext(EXT_TYPE_SUPPORTED_GROUPS, self.curves@)
    }

    open spec fn id(&self) -> u16 {
        EXT_TYPE_SUPPORTED_GROUPS
    }

    fn len(&self) -> (r: usize) {
        6 + 2 * self.curves.len()
    }

    fn read(&self, buf: &mut [u8]) -> (r: Result<usize, std::io::Error>) {
        read_bytes(buf, &u16_list_ext_bytes(EXT_TYPE_SUPPORTED_GROUPS, &self.curves))
    }

    fn extension_id(&self) -> (r: ExtensionID) {
        EXT_TYPE_SUPPORTED_GROUPS
    }
}

/// Bytes of an extension that carries bytes behind a one-byte length.
pub open spec fn u8_list_ext(id: u16, values: Seq<u8>) -> Seq<u8> {
    be16_bytes(id as nat) + be16_bytes(1 + values.len()) + seq![(values.len() % 256) as u8] + values
}

/// The bytes of an extension carrying bytes behind a one-byte length.
fn u8_list_ext_bytes(id: u16, values: &Vec<u8>) -> (r: Vec<u8>)
    requires
        5 + values@.len() <= usize::MAX,
    ensures
        r@ == u8_list_ext(id, values@),
        r@.len() == 5 + values@.len(),
{
    let n: usize = values.len();
    let mut out: Vec<u8> = Vec::new();
    push_be16(&mut out, id as usize);
    push_be16(&mut out, 1 + n);
    out.push((n % 256) as u8);
    push_all(&mut out, values.as_slice());
    assert(out@ =~= u8_list_ext(id, values@));
    out
}

/// Supported Points extension
#[derive(Debug, Clone)]
pub struct SupportedPointsExtension {
    pub supported_points: Vec<u8>,
}

impl SupportedPointsExtension {
    /// An ec_point_formats extension with these formats.
    pub fn new(supported_points: Vec<u8>) -> (r: Self)
        ensures
            r.supported_points == supported_points,
    {
        SupportedPointsExtension { supported_points }
    }
}

impl TLSExtension for SupportedPointsExtension {
    open spec fn fits(&self) -> bool {
        5 + self.supported_points@.len() <= usize::MAX
    }

    open spec fn claimed_len(&self) -> nat {
        5 + self.supported_points@.len()
    }

    open spec fn written(&self) -> Seq<u8> {
        u8_list_ext(EXT_TYPE_EC_POINT_FORMATS, self.supported_points@)
    }

    open spec fn id(&self) -> u16 {
        EXT_TYPE_EC_POINT_FORMATS
    }

    fn len(&self) -> (r: usize) {
        5 + self.supported_points.len()
    }

    fn read(&self, buf: &mut [u8]) -> (r: Result<usize, std::io::Error>) {
        read_bytes(buf, &u8_list_ext_bytes(EXT_TYPE_EC_POINT_FORMATS, &self.supported_points))
    }

    fn extension_id(&self) -> (r: ExtensionID) {
        EXT_TYPE_EC_POINT_FORMATS
    }
}

/// Signature Algorithms extension
#[derive(Debug, Clone)]
pub struct SignatureAlgorithmsExtension {
    pub supported_signature_algorithms: Vec<SignatureScheme>,
}

impl SignatureAlgorithmsExtension {
    /// A signature_algorithms extension with these schemes.
    pub fn new(supported_signature_algorithms: Vec<SignatureScheme>) -> (r: Self)
        ensures
            r.supported_signature_algorithms == supported_signature_algorithms,
    {
        SignatureAlgorithmsExtension { supported_signature_algorithms }
    }
}

impl TLSExtension for SignatureAlgorithmsExtension {
    open spec fn fits(&self) -> bool {
        6 + 2 * self.supported_signature_algorithms@.len() <= usize::MAX
    }

    open spec fn claimed_len(&self) -> nat {
        6 + 2 * self.supported_signature_algorithms@.len()
    }

    open spec fn written(&self) -> Seq<u8> {
        u16_list_ext(EXT_TYPE_SIGNATURE_ALGORITHMS, self.supported_signature_algorithms@)
    }

    open spec fn id(&self) -> u16 {
        EXT_TYPE_SIGNATURE_ALGORITHMS
    }

    fn len(&self) -> (r: usize) {
        6 + 2 * self.supported_signature_algorithms.len()
    }

    fn read(&self, buf: &mut [u8]) -> (r: Result<usize, std::io::Error>) {
        read_bytes(buf, &u16_list_ext_bytes(EXT_TYPE_SIGNATURE_ALGORITHMS, &self.supported_signature_algorithms))
    }

    fn extension_id(&self) -> (r: ExtensionID) {
        EXT_TYPE_SIGNATURE_ALGORITHMS
    }
}

/// Total size of a protocol name list: a length byte and the UTF-8 bytes
/// of each name.
pub open spec fn protocols_len(s: Seq<String>) -> nat
    decreases s.len(),
{
    if s.len() == 0 {
        0
    } else {
        protocols_len(s.drop_last()) + 1 + encode_utf8(s.last()@).len()
    }
}

/// A protocol name list: each name's length (its low byte) and bytes.
pub open spec fn protocols_bytes(s: Seq<String>) -> Seq<u8>
    decreases s.len(),
{
    if s.len() == 0 {
        Seq::empty()
    } else {
        protocols_bytes(s.drop_last()) + seq![(encode_utf8(s.last()@).len() % 256) as u8]
            + encode_utf8(s.last()@)
    }
}

/// The list of a prefix is no longer than the whole list.
pub proof fn lemma_protocols_len_prefix(s: Seq<String>, k: int)
    requires
        0 <= k <= s.len(),
    ensures
        protocols_len(s.subrange(0, k)) <= protocols_len(s),
    decreases s.len() - k,
{
    if k < s.len() {
        lemma_protocols_len_prefix(s, k + 1);
        assert(s.subrange(0, k + 1).drop_last() =~= s.subrange(0, k));
    } else {
        assert(s.subrange(0, k) =~= s);
    }
}

/// The size of a protocol name list.
fn protocols_total(names: &Vec<String>) -> (r: usize)
    requires
        protocols_len(names@) <= usize::MAX,
    ensures
        r == protocols_len(names@),
{
    let mut total: usize = 0;
    let mut i: usize = 0;
    while i < names.len()
        invariant
            i <= names@.len(),
            protocols_len(names@) <= usize::MAX,
            total == protocols_len(names@.subrange(0, i as int)),
        decreases names@.len() - i,
    {
        assert(names@.subrange(0, i + 1).drop_last() =~= names@.subrange(0, i as int));
        proof { lemma_protocols_len_prefix(names@, i + 1); }
        total = total + 1 + names[i].as_str().as_bytes().len();
        i = i + 1;
    }
    assert(names@.subrange(0, i as int) =~= names@);
    total
}

/// Appends a protocol name list.
fn push_protocols(v: &mut Vec<u8>, names: &Vec<String>)
    ensures
        final(v)@ == old(v)@ + protocols_bytes(names@),
{
    let mut i: usize = 0;
    while i < names.len()
        invariant
            i <= names@.len(),
            v@ == old(v)@ + protocols_bytes(names@.subrange(0, i as int)),
        decreases names@.len() - i,
    {
        assert(names@.subrange(0, i + 1).drop_last() =~= names@.subrange(0, i as int));
        let b: &[u8] = names[i].as_str().as_bytes();
        v.push((b.len() % 256) as u8);
        push_all(v, b);
        i = i + 1;
        assert(v@ =~= old(v)@ + protocols_bytes(names@.subrange(0, i as int)));
    }
    assert(names@.subrange(0, i as int) =~= names@);
}

/// Bytes of an extension that carries a protocol name list behind a
/// two-byte list length.
pub open spec fn protocols_ext(id: u16, names: Seq<String>) -> Seq<u8> {
    be16_bytes(id as nat) + be16_bytes(2 + protocols_len(names)) + be16_bytes(protocols_len(names)) + protocols_bytes(names)
}

/// The encoded list is as long as its size.
pub proof fn lemma_protocols_bytes_len(s: Seq<String>)
    ensures
        protocols_bytes(s).len() == protocols_len(s),
    decreases s.len(),
{
    if s.len() > 0 {
        lemma_protocols_bytes_len(s.drop_last());
    }
}

/// The bytes of an extension carrying a protocol name list.
fn protocols_ext_bytes(id: u16, names: &Vec<String>) -> (r: Vec<u8>)
    requires
        6 + protocols_len(names@) <= usize::MAX,
    ensures
        r@ == protocols_ext(id, names@),
        r@.len() == 6 + protocols_len(names@),
{
    let total: usize = protocols_total(names);
    let mut out: Vec<u8> = Vec::new();
    push_be16(&mut out, id as usize);
    push_be16(&mut out, 2 + total);
    push_be16(&mut out, total);
    push_protocols(&mut out, names);
    proof { lemma_protocols_bytes_len(names@); }
    assert(out@ =~= protocols_ext(id, names@));
    out
}

/// ALPN extension
#[derive(Debug, Clone)]
pub struct ALPNExtension {
    pub alpn_protocols: Vec<String>,
}

impl ALPNExtension {
    /// An ALPN extension offering these protocols.
    pub fn new(alpn_protocols: Vec<String>) -> (r: Self)
        ensures
            r.alpn_protocols == alpn_protocols,
    {
        ALPNExtension { alpn_protocols }
    }
}

impl TLSExtension for ALPNExtension {
    open spec fn fits(&self) -> bool {
        6 + protocols_len(self.alpn_protocols@) <= usize::MAX
    }

    open spec fn claimed_len(&self) -> nat {
        6 + protocols_len(self.alpn_protocols@)
    }

    open spec fn written(&self) -> Seq<u8> {
        protocols_ext(EXT_TYPE_APPLICATION_LAYER_PROTOCOL_NEGOTIATION, self.alpn_protocols@)
    }

    open spec fn id(&self) -> u16 {
        EXT_TYPE_APPLICATION_LAYER_PROTOCOL_NEGOTIATION
    }

    fn len(&self) -> (r: usize) {
        6 + protocols_total(&self.alpn_protocols)
    }

    fn read(&self, buf: &mut [u8]) -> (r: Result<usize, std::io::Error>) {
        read_bytes(buf, &protocols_ext_bytes(EXT_TYPE_APPLICATION_LAYER_PROTOCOL_NEGOTIATION, &self.alpn_protocols))
    }

    fn extension_id(&self) -> (r: ExtensionID) {
        EXT_TYPE_APPLICATION_LAYER_PROTOCOL_NEGOTIATION
    }
}

/// Extended Master Secret extension
#[derive(Debug, Clone)]
pub struct ExtendedMasterSecretExtension;

impl TLSExtension for ExtendedMasterSecretExtension {
    open spec fn fits(&self) -> bool {
        true
    }

    open spec fn claimed_len(&self) -> nat {
        4
    }

    open spec fn written(&self) -> Seq<u8> {
        empty_body(EXT_TYPE_EXTENDED_MASTER_SECRET)
    }

    open spec fn id(&self) -> u16 {
        EXT_TYPE_EXTENDED_MASTER_SECRET
    }

    fn len(&self) -> (r: usize) {
        4
    }

    fn read(&self, buf: &mut [u8]) -> (r: Result<usize, std::io::Error>) {
        read_bytes(buf, &empty_body_bytes(EXT_TYPE_EXTENDED_MASTER_SECRET))
    }

    fn extension_id(&self) -> (r: ExtensionID) {
        EXT_TYPE_EXTENDED_MASTER_SECRET
    }
}

/// Session Ticket extension
#[derive(Debug, Clone)]
pub struct SessionTicketExtension;

impl TLSExtension for SessionTicketExtension {
    open spec fn fits(&self) -> bool {
        true
    }

    open spec fn claimed_len(&self) -> nat {
        4
    }

    open spec fn written(&self) -> Seq<u8> {
        empty_body(EXT_TYPE_SESSION_TICKET)
    }

    open spec fn id(&self) -> u16 {
        EXT_TYPE_SESSION_TICKET
    }

    fn len(&self) -> (r: usize) {
        4
    }

    fn read(&self, buf: &mut [u8]) -> (r: Result<usize, std::io::Error>) {
        read_bytes(buf, &empty_body_bytes(EXT_TYPE_SESSION_TICKET))
    }

    fn extension_id(&self) -> (r: ExtensionID) {
        EXT_TYPE_SESSION_TICKET
    }
}

/// Supported Versions extension
#[derive(Debug, Clone)]
pub struct SupportedVersionsExtension {
    pub versions: Vec<u16>,
}

impl SupportedVersionsExtension {
    /// A supported_versions extension offering these versions.
    pub fn new(versions: Vec<u16>) -> (r: Self)
        ensures
            r.versions == versions,
    {
        SupportedVersionsExtension { versions }
    }
}

/// Bytes that the supported_versions extension writes: its ID, a length of
/// one plus two per version, a one-byte list length and the versions. Its
/// length counts one byte more than it writes.
pub open spec fn supported_versions_bytes(versions: Seq<u16>) -> Seq<u8> {
    be16_bytes(EXT_TYPE_SUPPORTED_VERSIONS as nat) + be16_bytes(1 + 2 * versions.len()) + seq![((2 * versions.len()) % 256) as u8]
        + be16_list(versions)
}

impl TLSExtension for SupportedVersionsExtension {
    open spec fn fits(&self) -> bool {
        6 + 2 * self.versions@.len() <= usize::MAX
    }

    open spec fn claimed_len(&self) -> nat {
        6 + 2 * self.versions@.len()
    }

    open spec fn written(&self) -> Seq<u8> {
        supported_versions_bytes(self.versions@)
    }

    open spec fn id(&self) -> u16 {
        EXT_TYPE_SUPPORTED_VERSIONS
    }

    fn len(&self) -> (r: usize) {
        6 + 2 * self.versions.len()
    }

    fn read(&self, buf: &mut [u8]) -> (r: Result<usize, std::io::Error>) {
        let len: usize = self.len();
        if buf.len() < len {
            return Err(buffer_too_short());
        }
        let n: usize = self.versions.len();
        let mut out: Vec<u8> = Vec::new();
        push_be16(&mut out, EXT_TYPE_SUPPORTED_VERSIONS as usize);
        push_be16(&mut out, 1 + 2 * n);
        out.push(((2 * n) % 256) as u8);
        push_be16_list(&mut out, self.versions.as_slice());
        proof { lemma_be16_list_len(self.versions@); }
        assert(out@ =~= supported_versions_bytes(self.versions@));
        copy_front(buf, &out);
        Ok(len)
    }

    fn extension_id(&self) -> (r: ExtensionID) {
        EXT_TYPE_SUPPORTED_VERSIONS
    }
}

/// PSK Key Exchange Modes extension
#[derive(Debug, Clone)]
pub struct PSKKeyExchangeModesExtension {
    pub modes: Vec<u8>,
}

impl PSKKeyExchangeModesExtension {
    /// A psk_key_exchange_modes extension offering these modes.
    pub fn new(modes: Vec<u8>) -> (r: Self)
        ensures
            r.modes == modes,
    {
        PSKKeyExchangeModesExtension { modes }
    }
}

impl TLSExtension for PSKKeyExchangeModesExtension {
    open spec fn fits(&self) -> bool {
        5 + self.modes@.len() <= usize::MAX
    }

    open spec fn claimed_len(&self) -> nat {
        5 + self.modes@.len()
    }

    open spec fn written(&self) -> Seq<u8> {
        u8_list_ext(EXT_TYPE_PSK_KEY_EXCHANGE_MODES, self.modes@)
    }

    open spec fn id(&self) -> u16 {
        EXT_TYPE_PSK_KEY_EXCHANGE_MODES
    }

    fn len(&self) -> (r: usize) {
        5 + self.modes.len()
    }

    fn read(&self, buf: &mut [u8]) -> (r: Result<usize, std::io::Error>) {
        read_bytes(buf, &u8_list_ext_bytes(EXT_TYPE_PSK_KEY_EXCHANGE_MODES, &self.modes))
    }

    fn extension_id(&self) -> (r: ExtensionID) {
        EXT_TYPE_PSK_KEY_EXCHANGE_MODES
    }
}

/// Key Share Entry
#[derive(Debug, Clone)]
pub struct KeyShare {
    pub group: CurveID,
    pub data: Vec<u8>,
}

/// Total size of key share entries: group, length and data of each.
pub open spec fn shares_len(s: Seq<KeyShare>) -> nat
    decreases s.len(),
{
    if s.len() == 0 {
        0
    } else {
        shares_len(s.drop_last()) + 4 + s.last().data@.len()
    }
}

/// Key share entries: each group, data length (low 16 bits) and data.
pub open spec fn shares_bytes(s: Seq<KeyShare>) -> Seq<u8>
    decreases s.len(),
{
    if s.len() == 0 {
        Seq::empty()
    } else {
        shares_bytes(s.drop_last()) + be16_bytes(s.last().group as nat) + be16_bytes(s.last().data@.len()) + s.last().data@
    }
}

/// The entries of a prefix take no more than all entries.
pub proof fn lemma_shares_len_prefix(s: Seq<KeyShare>, k: int)
    requires
        0 <= k <= s.len(),
    ensures
        shares_len(s.subrange(0, k)) <= shares_len(s),
    decreases s.len() - k,
{
    if k < s.len() {
        lemma_shares_len_prefix(s, k + 1);
        assert(s.subrange(0, k + 1).drop_last() =~= s.subrange(0, k));
    } else {
        assert(s.subrange(0, k) =~= s);
    }
}

/// The encoded entries are as long as their size.
pub proof fn lemma_shares_bytes_len(s: Seq<KeyShare>)
    ensures
        shares_bytes(s).len() == shares_len(s),
    decreases s.len(),
{
    if s.len() > 0 {
        lemma_shares_bytes_len(s.drop_last());
    }
}

/// Key Share extension
#[derive(Debug, Clone)]
pub struct KeyShareExtension {
    pub key_shares: Vec<KeyShare>,
}

/// Bytes of the key_share extension.
pub open spec fn key_share_ext(s: Seq<KeyShare>) -> Seq<u8> {
    be16_bytes(EXT_TYPE_KEY_SHARE as nat) + be16_bytes(2 + shares_len(s)) + be16_bytes(shares_len(s)) + shares_bytes(s)
}

impl KeyShareExtension {
    /// A key_share extension with these entries.
    pub fn new(key_shares: Vec<KeyShare>) -> (r: Self)
        ensures
            r.key_shares == key_shares,
    {
        KeyShareExtension { key_shares }
    }

    /// Total size of the entries.
    fn key_shares_len(&self) -> (r: usize)
        requires
            shares_len(self.key_shares@) <= usize::MAX,
        ensures
            r == shares_len(self.key_shares@),
    {
        let ghost s = self.key_shares@;
        let mut len: usize = 0;
        let mut i: usize = 0;
        while i < self.key_shares.len()
            invariant
                s == self.key_shares@,
                i <= s.len(),
                shares_len(s) <= usize::MAX,
                len == shares_len(s.subrange(0, i as int)),
            decreases s.len() - i,
        {
            assert(s.subrange(0, i + 1).drop_last() =~= s.subrange(0, i as int));
            proof { lemma_shares_len_prefix(s, i + 1); }
            len = len + 4 + self.key_shares[i].data.len();
            i = i + 1;
        }
        assert(s.subrange(0, i as int) =~= s);
        len
    }
}

impl TLSExtension for KeyShareExtension {
    open spec fn fits(&self) -> bool {
        6 + shares_len(self.key_shares@) <= usize::MAX
    }

    open spec fn claimed_len(&self) -> nat {
        6 + shares_len(self.key_shares@)
    }

    open spec fn written(&self) -> Seq<u8> {
        key_share_ext(self.key_shares@)
    }

    open spec fn id(&self) -> u16 {
        EXT_TYPE_KEY_SHARE
    }

    fn len(&self) -> (r: usize) {
        6 + self.key_shares_len()
    }

    fn read(&self, buf: &mut [u8]) -> (r: Result<usize, std::io::Error>) {
        let ghost s = self.key_shares@;
        let total: usize = self.key_shares_len();
        let mut out: Vec<u8> = Vec::new();
        push_be16(&mut out, EXT_TYPE_KEY_SHARE as usize);
        push_be16(&mut out, 2 + total);
        push_be16(&mut out, total);
        let ghost head = out@;
        let mut i: usize = 0;
        while i < self.key_shares.len()
            invariant
                s == self.key_shares@,
                i <= s.len(),
                out@ == head + shares_bytes(s.subrange(0, i as int)),
            decreases s.len() - i,
        {
            assert(s.subrange(0, i + 1).drop_last() =~= s.subrange(0, i as int));
            let ks: &KeyShare = &self.key_shares[i];
            push_be16(&mut out, ks.group as usize);
            push_be16(&mut out, ks.data.len());
            push_all(&mut out, ks.data.as_slice());
            i = i + 1;
            assert(out@ =~= head + shares_bytes(s.subrange(0, i as int)));
        }
        assert(s.subrange(0, i as int) =~= s);
        proof { lemma_shares_bytes_len(s); }
        assert(out@ =~= key_share_ext(s));
        read_bytes(buf, &out)
    }

    fn extension_id(&self) -> (r: ExtensionID) {
        EXT_TYPE_KEY_SHARE
    }
}

/// Signed Certificate Timestamp extension
#[derive(Debug, Clone)]
pub struct SCTExtension;

impl TLSExtension for SCTExtension {
    open spec fn fits(&self) -> bool {
        true
    }

    open spec fn claimed_len(&self) -> nat {
        4
    }

    open spec fn written(&self) -> Seq<u8> {
        empty_body(EXT_TYPE_SIGNED_CERTIFICATE_TIMESTAMP)
    }

    open spec fn id(&self) -> u16 {
        EXT_TYPE_SIGNED_CERTIFICATE_TIMESTAMP
    }

    fn len(&self) -> (r: usize) {
        4
    }

    fn read(&self, buf: &mut [u8]) -> (r: Result<usize, std::io::Error>) {
        read_bytes(buf, &empty_body_bytes(EXT_TYPE_SIGNED_CERTIFICATE_TIMESTAMP))
    }

    fn extension_id(&self) -> (r: ExtensionID) {
        EXT_TYPE_SIGNED_CERTIFICATE_TIMESTAMP
    }
}

/// Renegotiation Info extension
#[derive(Debug, Clone)]
pub struct RenegotiationInfoExtension {
    pub renegotiation: u8,
}

impl RenegotiationInfoExtension {
    /// A renegotiation_info extension with this value.
    pub fn new(renegotiation: u8) -> (r: Self)
        ensures
            r.renegotiation == renegotiation,
    {
        RenegotiationInfoExtension { renegotiation }
    }
}

impl TLSExtension for RenegotiationInfoExtension {
    open spec fn fits(&self) -> bool {
        true
    }

    open spec fn claimed_len(&self) -> nat {
        5
    }

    open spec fn written(&self) -> Seq<u8> {
        be16_bytes(EXT_TYPE_RENEGOTIATION_INFO as nat) + seq![0u8, 1u8, self.renegotiation]
    }

    open spec fn id(&self) -> u16 {
        EXT_TYPE_RENEGOTIATION_INFO
    }

    fn len(&self) -> (r: usize) {
        5
    }

    fn read(&self, buf: &mut [u8]) -> (r: Result<usize, std::io::Error>) {
        let mut out: Vec<u8> = Vec::new();
        push_be16(&mut out, EXT_TYPE_RENEGOTIATION_INFO as usize);
        out.push(0u8);
        out.push(1u8);
        out.push(self.renegotiation);
        assert(out@ =~= self.written());
        read_bytes(buf, &out)
    }

    fn extension_id(&self) -> (r: ExtensionID) {
        EXT_TYPE_RENEGOTIATION_INFO
    }
}

/// Application Settings (ALPS, new codepoint) extension
#[derive(Debug, Clone)]
pub struct ApplicationSettingsExtensionNew {
    pub supported_protocols: Vec<String>,
}

impl ApplicationSettingsExtensionNew {
    /// An application_settings extension for these protocols.
    pub fn new(supported_protocols: Vec<String>) -> (r: Self)
        ensures
            r.supported_protocols == supported_protocols,
    {
        ApplicationSettingsExtensionNew { supported_protocols }
    }
}

impl TLSExtension for ApplicationSettingsExtensionNew {
    open spec fn fits(&self) -> bool {
        6 + protocols_len(self.supported_protocols@) <= usize::MAX
    }

    open spec fn claimed_len(&self) -> nat {
        6 + protocols_len(self.supported_protocols@)
    }

    open spec fn written(&self) -> Seq<u8> {
        protocols_ext(EXT_TYPE_APPLICATION_SETTINGS_NEW, self.supported_protocols@)
    }

    open spec fn id(&self) -> u16 {
        EXT_TYPE_APPLICATION_SETTINGS_NEW
    }

    fn len(&self) -> (r: usize) {
        6 + protocols_total(&self.supported_protocols)
    }

    fn read(&self, buf: &mut [u8]) -> (r: Result<usize, std::io::Error>) {
        read_bytes(buf, &protocols_ext_bytes(EXT_TYPE_APPLICATION_SETTINGS_NEW, &self.supported_protocols))
    }

    fn extension_id(&self) -> (r: ExtensionID) {
        EXT_TYPE_APPLICATION_SETTINGS_NEW
    }
}

/// Compress Certificate extension
#[derive(Debug, Clone)]
pub struct UtlsCompressCertExtension {
    pub algorithms: Vec<u16>,
}

impl UtlsCompressCertExtension {
    /// A compress_certificate extension offering these algorithms.
    pub fn new(algorithms: Vec<u16>) -> (r: Self)
        ensures
            r.algorithms == algorithms,
    {
        UtlsCompressCertExtension { algorithms }
    }
}

impl TLSExtension for UtlsCompressCertExtension {
    open spec fn fits(&self) -> bool {
        6 + 2 * self.algorithms@.len() <= usize::MAX
    }

    open spec fn claimed_len(&self) -> nat {
        6 + 2 * self.algorithms@.len()
    }

    open spec fn written(&self) -> Seq<u8> {
        u16_list_ext(EXT_TYPE_COMPRESS_CERTIFICATE, self.algorithms@)
    }

    open spec fn id(&self) -> u16 {
        EXT_TYPE_COMPRESS_CERTIFICATE
    }

    fn len(&self) -> (r: usize) {
        6 + 2 * self.algorithms.len()
    }

    fn read(&self, buf: &mut [u8]) -> (r: Result<usize, std::io::Error>) {
        read_bytes(buf, &u16_list_ext_bytes(EXT_TYPE_COMPRESS_CERTIFICATE, &self.algorithms))
    }

    fn extension_id(&self) -> (r: ExtensionID) {
        EXT_TYPE_COMPRESS_CERTIFICATE
    }
}

/// Pre-Shared Key extension (an empty placeholder)
#[derive(Debug, Clone)]
pub struct UtlsPreSharedKeyExtension;

impl TLSExtension for UtlsPreSharedKeyExtension {
    open spec fn fits(&self) -> bool {
        true
    }

    open spec fn claimed_len(&self) -> nat {
        4
    }

    open spec fn written(&self) -> Seq<u8> {
        empty_body(EXT_TYPE_PRE_SHARED_KEY)
    }

    open spec fn id(&self) -> u16 {
        EXT_TYPE_PRE_SHARED_KEY
    }

    fn len(&self) -> (r: usize) {
        4
    }

    fn read(&self, buf: &mut [u8]) -> (r: Result<usize, std::io::Error>) {
        read_bytes(buf, &empty_body_bytes(EXT_TYPE_PRE_SHARED_KEY))
    }

    fn extension_id(&self) -> (r: ExtensionID) {
        EXT_TYPE_PRE_SHARED_KEY
    }
}

/// GREASE Encrypted Client Hello extension
#[derive(Debug, Clone)]
pub struct GREASEEncryptedClientHelloExtension {
    pub value: u16,
}

impl GREASEEncryptedClientHelloExtension {
    /// An ECH placeholder under the encrypted_client_hello ID.
    pub fn new() -> (r: Self)
        ensures
            r.value == EXT_TYPE_ECH,
    {
        GREASEEncryptedClientHelloExtension { value: EXT_TYPE_ECH }
    }
}

impl Default for GREASEEncryptedClientHelloExtension {
    /// An ECH placeholder under the encrypted_client_hello ID.
    fn default() -> (r: Self)
        ensures
            r.value == EXT_TYPE_ECH,
    {
        Self::new()
    }
}

impl TLSExtension for GREASEEncryptedClientHelloExtension {
    open spec fn fits(&self) -> bool {
        true
    }

    open spec fn claimed_len(&self) -> nat {
        4
    }

    open spec fn written(&self) -> Seq<u8> {
        empty_body(self.value)
    }

    open spec fn id(&self) -> u16 {
        self.value
    }

    fn len(&self) -> (r: usize) {
        4
    }

    fn read(&self, buf: &mut [u8]) -> (r: Result<usize, std::io::Error>) {
        read_bytes(buf, &empty_body_bytes(self.value))
    }

    fn extension_id(&self) -> (r: ExtensionID) {
        self.value
    }
}

impl TLSExtensionWriter for UtlsGREASEExtension {
    fn write(&mut self, buf: &[u8]) -> (r: Result<usize, std::io::Error>) {
        Ok(buf.len())
    }
}

impl TLSExtensionWriter for StatusRequestExtension {
    fn write(&mut self, buf: &[u8]) -> (r: Result<usize, std::io::Error>) {
        Ok(buf.len())
    }
}

impl TLSExtensionWriter for SupportedCurvesExtension {
    fn write(&mut self, buf: &[u8]) -> (r: Result<usize, std::io::Error>) {
        Ok(buf.len())
    }
}

impl TLSExtensionWriter for SupportedPointsExtension {
    fn write(&mut self, buf: &[u8]) -> (r: Result<usize, std::io::Error>) {
        Ok(buf.len())
    }
}

impl TLSExtensionWriter for SignatureAlgorithmsExtension {
    fn write(&mut self, buf: &[u8]) -> (r: Result<usize, std::io::Error>) {
        Ok(buf.len())
    }
}

impl TLSExtensionWriter for ALPNExtension {
    fn write(&mut self, buf: &[u8]) -> (r: Result<usize, std::io::Error>) {
        Ok(buf.len())
    }
}

impl TLSExtensionWriter for ExtendedMasterSecretExtension {
    fn write(&mut self, buf: &[u8]) -> (r: Result<usize, std::io::Error>) {
        Ok(buf.len())
    }
}

impl TLSExtensionWriter for SessionTicketExtension {
    fn write(&mut self, buf: &[u8]) -> (r: Result<usize, std::io::Error>) {
        Ok(buf.len())
    }
}

impl TLSExtensionWriter for SupportedVersionsExtension {
    fn write(&mut self, buf: &[u8]) -> (r: Result<usize, std::io::Error>) {
        Ok(buf.len())
    }
}

impl TLSExtensionWriter for PSKKeyExchangeModesExtension {
    fn write(&mut self, buf: &[u8]) -> (r: Result<usize, std::io::Error>) {
        Ok(buf.len())
    }
}

impl TLSExtensionWriter for KeyShareExtension {
    fn write(&mut self, buf: &[u8]) -> (r: Result<usize, std::io::Error>) {
        Ok(buf.len())
    }
}

impl TLSExtensionWriter for SCTExtension {
    fn write(&mut self, buf: &[u8]) -> (r: Result<usize, std::io::Error>) {
        Ok(buf.len())
    }
}

impl TLSExtensionWriter for RenegotiationInfoExtension {
    fn write(&mut self, buf: &[u8]) -> (r: Result<usize, std::io::Error>) {
        Ok(buf.len())
    }
}

impl TLSExtensionWriter for ApplicationSettingsExtensionNew {
    fn write(&mut self, buf: &[u8]) -> (r: Result<usize, std::io::Error>) {
        Ok(buf.len())
    }
}

impl TLSExtensionWriter for UtlsCompressCertExtension {
    fn write(&mut self, buf: &[u8]) -> (r: Result<usize, std::io::Error>) {
        Ok(buf.len())
    }
}

impl TLSExtensionWriter for UtlsPreSharedKeyExtension {
    fn write(&mut self, buf: &[u8]) -> (r: Result<usize, std::io::Error>) {
        Ok(buf.len())
    }
}

impl TLSExtensionWriter for GREASEEncryptedClientHelloExtension {
    fn write(&mut self, buf: &[u8]) -> (r: Result<usize, std::io::Error>) {
        Ok(buf.len())
    }
}

/// A rule that gives the padding length, and whether to pad, for an
/// unpadded ClientHello length.
#[derive(Debug, Clone, Copy, PartialEq, Eq, Structural)]
pub enum PaddingLengthFn {
    /// BoringSSL's rule, [`boring_padding`].
    BoringStyle,
}

impl PaddingLengthFn {
    /// The padding length, and whether to pad, for `unpadded_len` bytes.
    pub fn call(&self, unpadded_len: usize) -> (r: (usize, bool))
        ensures
            (r.0 as nat, r.1) == boring_padding(unpadded_len as nat),
    {
        match self {
            PaddingLengthFn::BoringStyle => UtlsPaddingExtension::boring_padding_style(unpadded_len),
        }
    }
}

/// BoringSSL's padding rule: a ClientHello of 256 to 511 bytes is padded
/// towards 512 bytes, less the four header bytes (at least one byte);
/// others are not padded.
pub open spec fn boring_padding(unpadded_len: nat) -> (nat, bool) {
    if 0xff < unpadded_len < 0x200 {
        let p = (0x200 - unpadded_len) as nat;
        if p > 4 {
            ((p - 4) as nat, true)
        } else {
            (1, true)
        }
    } else {
        (0, false)
    }
}

/// Padding extension
pub struct UtlsPaddingExtension {
    pub padding_len: usize,
    pub will_pad: bool,
    pub get_padding_len: Option<PaddingLengthFn>,
}

impl UtlsPaddingExtension {
    /// A padding extension that does not pad.
    pub fn new() -> (r: Self)
        ensures
            r.padding_len == 0,
            !r.will_pad,
            r.get_padding_len is None,
    {
        UtlsPaddingExtension { padding_len: 0, will_pad: false, get_padding_len: None }
    }

    /// The padding for a ClientHello of `unpadded_len` bytes, by
    /// BoringSSL's rule, and whether to pad.
    pub fn boring_padding_style(unpadded_len: usize) -> (r: (usize, bool))
        ensures
            (r.0 as nat, r.1) == boring_padding(unpadded_len as nat),
    {
        if unpadded_len > 0xff && unpadded_len < 0x200 {
            let mut padding_len: usize = 0x200 - unpadded_len;
            if padding_len > 4 {
                padding_len = padding_len - 4;
            } else {
                padding_len = 1;
            }
            return (padding_len, true);
        }
        (0, false)
    }
}

impl Clone for UtlsPaddingExtension {
    /// A copy with the same length and flag, without the length function.
    fn clone(&self) -> (r: Self)
        ensures
            r.padding_len == self.padding_len,
            r.will_pad == self.will_pad,
            r.get_padding_len is None,
    {
        UtlsPaddingExtension { padding_len: self.padding_len, will_pad: self.will_pad, get_padding_len: None }
    }
}

impl Default for UtlsPaddingExtension {
    /// A padding extension that does not pad.
    fn default() -> (r: Self)
        ensures
            r.padding_len == 0,
            !r.will_pad,
            r.get_padding_len is None,
    {
        Self::new()
    }
}

/// `n` zero bytes.
pub open spec fn zeros(n: nat) -> Seq<u8> {
    Seq::new(n, |i: int| 0u8)
}

impl TLSExtension for UtlsPaddingExtension {
    open spec fn fits(&self) -> bool {
        4 + self.padding_len <= usize::MAX
    }

    open spec fn claimed_len(&self) -> nat {
        if self.will_pad {
            (4 + self.padding_len) as nat
        } else {
            0
        }
    }

    open spec fn written(&self) -> Seq<u8> {
        be16_bytes(EXT_TYPE_PADDING as nat) + be16_bytes(self.padding_len as nat) + zeros(self.padding_len as nat)
    }

    open spec fn id(&self) -> u16 {
        EXT_TYPE_PADDING
    }

    fn len(&self) -> (r: usize) {
        if self.will_pad {
            4 + self.padding_len
        } else {
            0
        }
    }

    fn read(&self, buf: &mut [u8]) -> (r: Result<usize, std::io::Error>) {
        if !self.will_pad {
            return Ok(0);
        }
        let mut out: Vec<u8> = Vec::new();
        push_be16(&mut out, EXT_TYPE_PADDING as usize);
        push_be16(&mut out, self.padding_len);
        let ghost head = out@;
        let mut i: usize = 0;
        while i < self.padding_len
            invariant
                i <= self.padding_len,
                out@ == head + zeros(i as nat),
            decreases self.padding_len - i,
        {
            out.push(0u8);
            i = i + 1;
            assert(out@ =~= head + zeros(i as nat));
        }
        assert(out@ =~= self.written());
        read_bytes(buf, &out)
    }

    fn extension_id(&self) -> (r: ExtensionID) {
        EXT_TYPE_PADDING
    }
}

impl TLSExtensionWriter for UtlsPaddingExtension {
    /// Takes the bytes and switches to BoringSSL's padding rule.
    fn write(&mut self, buf: &[u8]) -> (r: Result<usize, std::io::Error>)
        ensures
            final(self).get_padding_len == Some(PaddingLengthFn::BoringStyle),
    {
        self.get_padding_len = Some(PaddingLengthFn::BoringStyle);
        Ok(buf.len())
    }
}

/// Whether a 16-bit value is a GREASE value: both bytes equal and with
/// low nibble `0xa`.
pub open spec fn is_grease_u16(v: u16) -> bool {
    (v & 0xff) == ((v >> 8) & 0xff) && ((v & 0xff) & 0x0f) == 0x0a
}

/// Whether a 16-bit value is a GREASE value.
fn is_grease_uint16(v: u16) -> (r: bool)
    ensures
        r == is_grease_u16(v),
{
    let low: u16 = v & 0xff;
    let high: u16 = (v >> 8) & 0xff;
    low == high && (low & 0x0f) == 0x0a
}

/// The byte test for GREASE values (both bytes equal, low nibble `0xa`)
/// and the GREASE table of the library name the same sixteen values.
pub proof fn lemma_grease_definitions_agree(v: u16)
    ensures
        is_grease_u16(v) == spec_is_grease(v),
{
    assert(((v & 0xff) == ((v >> 8) & 0xff) && ((v & 0xff) & 0x0f) == 0x0a) == (v % 0x1010 == 0x0a0a))
        by (bit_vector);
}

/// None of the known extension IDs is a GREASE value.
proof fn lemma_known_ids_not_grease()
    ensures
        !is_grease_u16(0u16) && !is_grease_u16(5u16) && !is_grease_u16(10u16) && !is_grease_u16(11u16)
            && !is_grease_u16(13u16) && !is_grease_u16(16u16) && !is_grease_u16(18u16)
            && !is_grease_u16(23u16) && !is_grease_u16(27u16) && !is_grease_u16(35u16)
            && !is_grease_u16(41u16) && !is_grease_u16(43u16) && !is_grease_u16(45u16)
            && !is_grease_u16(51u16) && !is_grease_u16(17613u16) && !is_grease_u16(0xfe0du16)
            && !is_grease_u16(0xff01u16),
{
    assert(!is_grease_u16(0u16) && !is_grease_u16(5u16) && !is_grease_u16(10u16) && !is_grease_u16(11u16)
        && !is_grease_u16(13u16) && !is_grease_u16(16u16) && !is_grease_u16(18u16)
        && !is_grease_u16(23u16) && !is_grease_u16(27u16) && !is_grease_u16(35u16)
        && !is_grease_u16(41u16) && !is_grease_u16(43u16) && !is_grease_u16(45u16)
        && !is_grease_u16(51u16) && !is_grease_u16(17613u16) && !is_grease_u16(0xfe0du16)
        && !is_grease_u16(0xff01u16)) by (bit_vector);
}

/// The extension for a known ID, with empty contents (a GREASE ID gives a
/// GREASE extension with a random GREASE value); none for other IDs.
pub fn extension_from_id(id: ExtensionID) -> (r: Option<Box<dyn TLSExtension>>)
    ensures
        r is Some <==> (id == EXT_TYPE_SERVER_NAME || id == EXT_TYPE_STATUS_REQUEST
            || id == EXT_TYPE_SUPPORTED_GROUPS || id == EXT_TYPE_EC_POINT_FORMATS
            || id == EXT_TYPE_SIGNATURE_ALGORITHMS || id == EXT_TYPE_APPLICATION_LAYER_PROTOCOL_NEGOTIATION
            || id == EXT_TYPE_EXTENDED_MASTER_SECRET || id == EXT_TYPE_SESSION_TICKET
            || id == EXT_TYPE_SUPPORTED_VERSIONS || id == EXT_TYPE_PSK_KEY_EXCHANGE_MODES
            || id == EXT_TYPE_KEY_SHARE || id == EXT_TYPE_SIGNED_CERTIFICATE_TIMESTAMP
            || id == EXT_TYPE_RENEGOTIATION_INFO || id == EXT_TYPE_APPLICATION_SETTINGS_NEW
            || id == EXT_TYPE_COMPRESS_CERTIFICATE || id == EXT_TYPE_PRE_SHARED_KEY || id == EXT_TYPE_ECH
            || is_grease_u16(id)),
        !is_grease_u16(id) ==> (r matches Some(e) ==> e.id() == id),
        is_grease_u16(id) ==> (r matches Some(e) ==> spec_is_grease(e.id())),
{
    proof { lemma_known_ids_not_grease(); }
    if id == EXT_TYPE_SERVER_NAME {
        Some(Box::new(SNIExtension::new(String::new())))
    } else if id == EXT_TYPE_STATUS_REQUEST {
        Some(Box::new(StatusRequestExtension))
    } else if id == EXT_TYPE_SUPPORTED_GROUPS {
        Some(Box::new(SupportedCurvesExtension::new(Vec::new())))
    } else if id == EXT_TYPE_EC_POINT_FORMATS {
        Some(Box::new(SupportedPointsExtension::new(Vec::new())))
    } else if id == EXT_TYPE_SIGNATURE_ALGORITHMS {
        Some(Box::new(SignatureAlgorithmsExtension::new(Vec::new())))
    } else if id == EXT_TYPE_APPLICATION_LAYER_PROTOCOL_NEGOTIATION {
        Some(Box::new(ALPNExtension::new(Vec::new())))
    } else if id == EXT_TYPE_EXTENDED_MASTER_SECRET {
        Some(Box::new(ExtendedMasterSecretExtension))
    } else if id == EXT_TYPE_SESSION_TICKET {
        Some(Box::new(SessionTicketExtension))
    } else if id == EXT_TYPE_SUPPORTED_VERSIONS {
        Some(Box::new(SupportedVersionsExtension::new(Vec::new())))
    } else if id == EXT_TYPE_PSK_KEY_EXCHANGE_MODES {
        Some(Box::new(PSKKeyExchangeModesExtension::new(Vec::new())))
    } else if id == EXT_TYPE_KEY_SHARE {
        Some(Box::new(KeyShareExtension::new(Vec::new())))
    } else if id == EXT_TYPE_SIGNED_CERTIFICATE_TIMESTAMP {
        Some(Box::new(SCTExtension))
    } else if id == EXT_TYPE_RENEGOTIATION_INFO {
        Some(Box::new(RenegotiationInfoExtension::new(1)))
    } else if id == EXT_TYPE_APPLICATION_SETTINGS_NEW {
        Some(Box::new(ApplicationSettingsExtensionNew::new(Vec::new())))
    } else if id == EXT_TYPE_COMPRESS_CERTIFICATE {
        Some(Box::new(UtlsCompressCertExtension::new(Vec::new())))
    } else if id == EXT_TYPE_PRE_SHARED_KEY {
        Some(Box::new(UtlsPreSharedKeyExtension))
    } else if id == EXT_TYPE_ECH {
        Some(Box::new(GREASEEncryptedClientHelloExtension::new()))
    } else if is_grease_uint16(id) {
        Some(Box::new(UtlsGREASEExtension::new()))
    } else {
        None
    }
}

/// Observable data of a TLS ClientHello: version, SNI, ALPN, cipher
/// suites, extensions, signature algorithms and groups.
#[derive(Debug, Clone, PartialEq)]
pub struct TlsClientObserved {
    /// TLS version as text, such as "13" or "12"
    pub version: String,
    pub sni: Option<String>,
    pub alpn: Option<String>,
    pub cipher_suites: Vec<u16>,
    pub extensions: Vec<u16>,
    pub signature_algorithms: Vec<u16>,
    pub elliptic_curves: Vec<CurveID>,
}

impl TlsClientObserved {
    /// Number of cipher suites.
    pub fn cipher_suite_count(&self) -> (r: usize)
        ensures
            r == self.cipher_suites@.len(),
    {
        self.cipher_suites.len()
    }

    /// Number of extensions.
    pub fn extension_count(&self) -> (r: usize)
        ensures
            r == self.extensions@.len(),
    {
        self.extensions.len()
    }

    /// Number of signature algorithms.
    pub fn signature_algorithm_count(&self) -> (r: usize)
        ensures
            r == self.signature_algorithms@.len(),
    {
        self.signature_algorithms.len()
    }

    /// Whether the extension is present.
    pub fn has_extension(&self, ext_id: u16) -> (r: bool)
        ensures
            r == self.extensions@.contains(ext_id),
    {
        contains_u16(&self.extensions, ext_id)
    }

    /// Whether the cipher suite is offered.
    pub fn has_cipher_suite(&self, suite: u16) -> (r: bool)
        ensures
            r == self.cipher_suites@.contains(suite),
    {
        contains_u16(&self.cipher_suites, suite)
    }
}

/// Whether `v` holds `x`.
fn contains_u16(v: &Vec<u16>, x: u16) -> (r: bool)
    ensures
        r == v@.contains(x),
{
    let mut i: usize = 0;
    while i < v.len()
        invariant
            i <= v@.len(),
            forall|k: int| 0 <= k < i ==> v@[k] != x,
        decreases v@.len() - i,
    {
        if v[i] == x {
            assert(v@[i as int] == x);
            return true;
        }
        i = i + 1;
    }
    false
}

} // verus!
