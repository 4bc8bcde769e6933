//! HTTP/1.1 response parsing: status line, headers, chunked transfer coding
//! and gzip, deflate or brotli content coding.
use vstd::prelude::*;
use std::io::Read;
use vstd::utf8::{decode_utf8, valid_utf8};
use crate::unicode::{lowercase, string_from_utf8, to_lowercase, utf8_decode, utf8_lossy, utf8_lossy_decode};
use crate::text::{
    parse_unsigned, parse_unsigned_chars, str_contains, chars_of, decimal, find_char, first_index_from, lines, next_line, push_decimal, seq_contains, str_eq,
    string_of_range, trim, trim_bounds,
};
use crate::header_map::{header_get, header_insert, keys_unique, map_of, pairs_of};

verus! {

broadcast use vstd::string::group_string_axioms;

/// A decoding outcome as bytes or error text.
pub open spec fn outcome_view(r: Result<Vec<u8>, String>) -> Result<Seq<u8>, Seq<char>> {
    match r {
        Ok(v) => Ok(v@),
        Err(e) => Err(e@),
    }
}

// ---------------------------------------------------------------------------
// Outside functions
// ---------------------------------------------------------------------------

/// A point in time of the monotonic clock.
#[verifier::external_type_specification]
#[verifier::external_body]
pub struct ExInstant(std::time::Instant);

/// Calls `Instant::now`.
#[verifier::external_body]
pub(crate) fn instant_now() -> std::time::Instant {
    std::time::Instant::now()
}

/// Calls `Instant::elapsed` and gives the milliseconds, truncated to 64 bits;
/// the time is whatever the clock says.
#[verifier::external_body]
pub(crate) fn millis_since(start: &std::time::Instant) -> u64 {
    start.elapsed().as_millis() as u64
}

/// What reading a `flate2::read::GzDecoder` over some bytes to the end gives:
/// the decompressed bytes, or the text of the I/O error.
pub uninterp spec fn gzip_decoded(data: Seq<u8>) -> Result<Seq<u8>, Seq<char>>;

/// Decompresses gzip data with `flate2::read::GzDecoder` and `read_to_end`.
#[verifier::external_body]
pub(crate) fn gzip_decode(data: &[u8]) -> (r: Result<Vec<u8>, String>)
    ensures
        outcome_view(r) == gzip_decoded(data@),
{
    let mut decoder = flate2::read::GzDecoder::new(data);
    let mut result = Vec::new();
    match decoder.read_to_end(&mut result) {
        Ok(_) => Ok(result),
        Err(e) => Err(e.to_string()),
    }
}

/// What reading a `flate2::read::DeflateDecoder` over some bytes to the end
/// gives: the decompressed bytes, or the text of the I/O error.
pub uninterp spec fn deflate_decoded(data: Seq<u8>) -> Result<Seq<u8>, Seq<char>>;

/// Decompresses raw deflate data with `flate2::read::DeflateDecoder` and
/// `read_to_end`.
#[verifier::external_body]
pub(crate) fn deflate_decode(data: &[u8]) -> (r: Result<Vec<u8>, String>)
    ensures
        outcome_view(r) == deflate_decoded(data@),
{
    let mut decoder = flate2::read::DeflateDecoder::new(data);
    let mut result = Vec::new();
    match decoder.read_to_end(&mut result) {
        Ok(_) => Ok(result),
        Err(e) => Err(e.to_string()),
    }
}

/// What reading a `brotli_decompressor::Decompressor` with the given buffer
/// size over some bytes to the end gives: the decompressed bytes, or the
/// text of the I/O error.
pub uninterp spec fn brotli_decoded(data: Seq<u8>, buffer_size: usize) -> Result<Seq<u8>, Seq<char>>;

/// Decompresses brotli data with `brotli_decompressor::Decompressor` and
/// `read_to_end`.
#[verifier::external_body]
pub(crate) fn brotli_decode(data: &[u8], buffer_size: usize) -> (r: Result<Vec<u8>, String>)
    ensures
        outcome_view(r) == brotli_decoded(data@, buffer_size),
{
    let mut decompressor = brotli_decompressor::Decompressor::new(data, buffer_size);
    let mut result = Vec::new();
    match decompressor.read_to_end(&mut result) {
        Ok(_) => Ok(result),
        Err(e) => Err(e.to_string()),
    }
}


// ---------------------------------------------------------------------------
// Header block
// ---------------------------------------------------------------------------

/// Whether `s[i..i + 4]` is `"\r\n\r\n"`.
pub open spec fn blank_line_at(s: Seq<u8>, i: int) -> bool {
    0 <= i && i + 4 <= s.len() && s[i] == 13 && s[i + 1] == 10 && s[i + 2] == 13 && s[i + 3] == 10
}

/// First position at or after `from` where `"\r\n\r\n"` starts.
pub open spec fn blank_line_from(s: Seq<u8>, from: int) -> Option<int>
    decreases s.len() - from,
{
    if from < 0 || from + 4 > s.len() {
        None
    } else if blank_line_at(s, from) {
        Some(from)
    } else {
        blank_line_from(s, from + 1)
    }
}

/// A blank line found from `from` lies at or after it and within `s`.
pub proof fn lemma_blank_line_bounds(s: Seq<u8>, from: int)
    ensures
        blank_line_from(s, from) matches Some(i) ==> from <= i && blank_line_at(s, i),
    decreases s.len() - from,
{
    if 0 <= from && from + 4 <= s.len() && !blank_line_at(s, from) {
        lemma_blank_line_bounds(s, from + 1);
    }
}

/// End of the header block and start of the body, or the error text.
pub open spec fn headers_end(s: Seq<u8>) -> Result<(int, int), Seq<char>> {
    if s.len() < 4 {
        Err("countdatatoo short，unable toincluding headers endmarker"@)
    } else {
        match blank_line_from(s, 0) {
            Some(i) => Ok((i, i + 4)),
            None => Err("not找 to headers endmarker"@),
        }
    }
}

/// Finds the `"\r\n\r\n"` that ends the header block.
pub fn find_headers_end(data: &[u8]) -> (r: Result<(usize, usize), String>)
    ensures
        r is Ok <==> headers_end(data@) is Ok,
        r matches Ok((a, b)) ==> headers_end(data@) == Ok::<(int, int), Seq<char>>((a as int, b as int)),
        r matches Ok((a, b)) ==> a + 4 == b <= data@.len(),
        r matches Err(e) ==> headers_end(data@) == Err::<(int, int), Seq<char>>(e@),
{
    proof { lemma_blank_line_bounds(data@, 0); }
    if data.len() < 4 {
        return Err(String::from_str("countdatatoo short，unable toincluding headers endmarker"));
    }
    let mut i: usize = 0;
    while i < data.len() - 3
        invariant
            data@.len() >= 4,
            i <= data@.len() - 3,
            blank_line_from(data@, 0) == blank_line_from(data@, i as int),
        decreases data@.len() - i,
    {
        if data[i] == 13 && data[i + 1] == 10 && data[i + 2] == 13 && data[i + 3] == 10 {
            return Ok((i, i + 4));
        }
        i = i + 1;
    }
    Err(String::from_str("not找 to headers endmarker"))
}

// ---------------------------------------------------------------------------
// Status line
// ---------------------------------------------------------------------------

/// Decoding of a status line `VERSION CODE [REASON]`, split at the first two
/// spaces, or the error text.
pub open spec fn status_line(line: Seq<char>) -> Result<(Seq<char>, u16, Seq<char>), Seq<char>> {
    match first_index_from(line, ' ', 0) {
        None => Err("invalidstatus row : "@ + line),
        Some(i) => {
            let (code_text, reason) = match first_index_from(line, ' ', i + 1) {
                None => (line.subrange(i + 1, line.len() as int), Seq::<char>::empty()),
                Some(j) => (line.subrange(i + 1, j), line.subrange(j + 1, line.len() as int)),
            };
            match parse_unsigned(code_text, 65535) {
                None => Err("invalidstatus code: "@ + code_text),
                Some(code) => Ok((line.subrange(0, i), code as u16, reason)),
            }
        },
    }
}

/// Parses the status line held in `cs[lo..hi]`.
fn parse_status_line(cs: &Vec<char>, lo: usize, hi: usize) -> (r: Result<(String, u16, String), String>)
    requires
        lo <= hi <= cs@.len(),
    ensures
        ({
            let line = cs@.subrange(lo as int, hi as int);
            &&& r is Ok <==> status_line(line) is Ok
            &&& r matches Ok((v, c, t)) ==> status_line(line) == Ok::<(Seq<char>, u16, Seq<char>), Seq<char>>((v@, c, t@))
            &&& r matches Err(e) ==> status_line(line) == Err::<(Seq<char>, u16, Seq<char>), Seq<char>>(e@)
        }),
{
    let ghost line = cs@.subrange(lo as int, hi as int);
    let line_cs: Vec<char> = vstd::slice::slice_to_vec(&cs.as_slice()[lo..hi]);
    assert(line_cs@ =~= line);
    let n: usize = line_cs.len();
    match find_char(line_cs.as_slice(), ' ', 0, n) {
        None => {
            let mut e: String = String::from_str("invalidstatus row : ");
            let l: String = string_of_range(line_cs.as_slice(), 0, n);
            assert(l@ =~= line);
            e.append(l.as_str());
            Err(e)
        },
        Some(i) => {
            proof { crate::text::lemma_first_index_props(line, ' ', 0); }
            let (code_lo, code_hi, reason_lo, reason_hi) = match find_char(line_cs.as_slice(), ' ', i + 1, n) {
                None => (i + 1, n, n, n),
                Some(j) => {
                    proof { crate::text::lemma_first_index_props(line, ' ', i + 1); }
                    (i + 1, j, j + 1, n)
                },
            };
            match parse_unsigned_chars(line_cs.as_slice(), code_lo, code_hi, 65535) {
                None => {
                    let mut e: String = String::from_str("invalidstatus code: ");
                    let t: String = string_of_range(line_cs.as_slice(), code_lo, code_hi);
                    e.append(t.as_str());
                    Err(e)
                },
                Some(code64) => {
                    let code: u16 = code64 as u16;
                    let version: String = string_of_range(line_cs.as_slice(), 0, i);
                    let reason: String = string_of_range(line_cs.as_slice(), reason_lo, reason_hi);
                    assert(line.subrange(n as int, n as int) =~= Seq::<char>::empty());
                    Ok((version, code, reason))
                },
            }
        },
    }
}

// ---------------------------------------------------------------------------
// Header lines
// ---------------------------------------------------------------------------

/// The header map that a sequence of header lines gives: each line with a
/// `:` sets the lower-cased trimmed name before it to the trimmed text after
/// it, later lines winning; other lines are skipped.
pub open spec fn headers_from_lines(ls: Seq<Seq<char>>) -> Map<Seq<char>, Seq<char>>
    decreases ls.len(),
{
    if ls.len() == 0 {
        Map::empty()
    } else {
        let m = headers_from_lines(ls.drop_last());
        let line = ls.last();
        match first_index_from(line, ':', 0) {
            None => m,
            Some(p) => m.insert(
                lowercase(trim(line.subrange(0, p))),
                trim(line.subrange(p + 1, line.len() as int)),
            ),
        }
    }
}

/// Adds the header that the line `cs[lo..hi]` holds, if it has a `:`.
fn add_header_line(headers: &mut Vec<(String, String)>, cs: &Vec<char>, lo: usize, hi: usize)
    requires
        lo <= hi <= cs@.len(),
        keys_unique(pairs_of(old(headers)@)),
    ensures
        keys_unique(pairs_of(final(headers)@)),
        ({
            let line = cs@.subrange(lo as int, hi as int);
            map_of(pairs_of(final(headers)@)) == (match first_index_from(line, ':', 0) {
                None => map_of(pairs_of(old(headers)@)),
                Some(p) => map_of(pairs_of(old(headers)@)).insert(
                    lowercase(trim(line.subrange(0, p))),
                    trim(line.subrange(p + 1, line.len() as int)),
                ),
            })
        }),
{
    let ghost line = cs@.subrange(lo as int, hi as int);
    let line_cs: Vec<char> = vstd::slice::slice_to_vec(&cs.as_slice()[lo..hi]);
    assert(line_cs@ =~= line);
    let n: usize = line_cs.len();
    match find_char(line_cs.as_slice(), ':', 0, n) {
        None => {},
        Some(p) => {
            proof { crate::text::lemma_first_index_props(line, ':', 0); }
            let (a, b) = trim_bounds(line_cs.as_slice(), 0, p);
            let raw_key: String = string_of_range(line_cs.as_slice(), a, b);
            let key: String = to_lowercase(raw_key.as_str());
            let (c, d) = trim_bounds(line_cs.as_slice(), p + 1, n);
            let value: String = string_of_range(line_cs.as_slice(), c, d);
            header_insert(headers, key, value);
        },
    }
}


// ---------------------------------------------------------------------------
// Chunked transfer coding
// ---------------------------------------------------------------------------

/// Largest chunk accepted (10 MiB).
pub const MAX_CHUNK_SIZE: usize = 10485760;

/// `ParseIntError` text for an empty string.
pub open spec fn int_error_empty() -> Seq<char> {
    "cannot parse integer from empty string"@
}

/// `ParseIntError` text for a character that is not a digit.
pub open spec fn int_error_digit() -> Seq<char> {
    "invalid digit found in string"@
}

/// `ParseIntError` text for a value above the type's maximum.
pub open spec fn int_error_overflow() -> Seq<char> {
    "number too large to fit in target type"@
}

/// Value of a hexadecimal digit, either case.
pub open spec fn hex_value(c: char) -> Option<nat> {
    if '0' <= c && c <= '9' {
        Some((c as u32 - '0' as u32) as nat)
    } else if 'a' <= c && c <= 'f' {
        Some((c as u32 - 'a' as u32 + 10) as nat)
    } else if 'A' <= c && c <= 'F' {
        Some((c as u32 - 'A' as u32 + 10) as nat)
    } else {
        None
    }
}

/// Hexadecimal value of `d` read after `acc`, scanning left to right: a
/// non-digit or a prefix above `usize::MAX` stops it with the error text.
pub open spec fn hex_scan(d: Seq<char>, acc: nat) -> Result<nat, Seq<char>>
    decreases d.len(),
{
    if d.len() == 0 {
        Ok(acc)
    } else {
        match hex_value(d[0]) {
            None => Err(int_error_digit()),
            Some(x) => if acc * 16 + x > usize::MAX {
                Err(int_error_overflow())
            } else {
                hex_scan(d.drop_first(), acc * 16 + x)
            },
        }
    }
}

/// `usize::from_str_radix(s, 16)`, with its error text.
pub open spec fn parse_hex_usize(s: Seq<char>) -> Result<nat, Seq<char>> {
    if s.len() == 0 {
        Err(int_error_empty())
    } else if (s[0] == '+' || s[0] == '-') && s.len() == 1 {
        Err(int_error_digit())
    } else if s[0] == '+' {
        hex_scan(s.drop_first(), 0)
    } else {
        hex_scan(s, 0)
    }
}

/// Parses `cs[lo..hi]` as a hexadecimal `usize`.
fn parse_hex_chars(cs: &[char], lo: usize, hi: usize) -> (r: Result<usize, String>)
    requires
        lo <= hi <= cs@.len(),
    ensures
        r matches Ok(v) ==> parse_hex_usize(cs@.subrange(lo as int, hi as int)) == Ok::<nat, Seq<char>>(v as nat),
        r matches Err(e) ==> parse_hex_usize(cs@.subrange(lo as int, hi as int)) == Err::<nat, Seq<char>>(e@),
{
    let ghost s = cs@.subrange(lo as int, hi as int);
    if lo == hi {
        return Err(String::from_str("cannot parse integer from empty string"));
    }
    if (cs[lo] == '+' || cs[lo] == '-') && hi - lo == 1 {
        return Err(String::from_str("invalid digit found in string"));
    }
    let mut i: usize = lo;
    if cs[lo] == '+' {
        i = lo + 1;
        assert(s.drop_first() =~= cs@.subrange(i as int, hi as int));
    } else {
        assert(s =~= cs@.subrange(i as int, hi as int));
    }
    let mut acc: usize = 0;
    while i < hi
        invariant
            lo <= i <= hi <= cs@.len(),
            s == cs@.subrange(lo as int, hi as int),
            parse_hex_usize(s) == hex_scan(cs@.subrange(i as int, hi as int), acc as nat),
        decreases hi - i,
    {
        let c: char = cs[i];
        assert(cs@.subrange(i as int, hi as int)[0] == c);
        assert(cs@.subrange(i as int, hi as int).drop_first() =~= cs@.subrange(i + 1, hi as int));
        let x: usize;
        if '0' <= c && c <= '9' {
            x = ((c as u32) - ('0' as u32)) as usize;
        } else if 'a' <= c && c <= 'f' {
            x = ((c as u32) - ('a' as u32) + 10) as usize;
        } else if 'A' <= c && c <= 'F' {
            x = ((c as u32) - ('A' as u32) + 10) as usize;
        } else {
            assert(hex_value(c) is None);
            return Err(String::from_str("invalid digit found in string"));
        }
        assert(hex_value(c) == Some(x as nat));
        match acc.checked_mul(16) {
            None => {
                return Err(String::from_str("number too large to fit in target type"));
            },
            Some(m) => match m.checked_add(x) {
                None => {
                    return Err(String::from_str("number too large to fit in target type"));
                },
                Some(v) => {
                    acc = v;
                },
            },
        }
        i = i + 1;
    }
    Ok(acc)
}

/// First position at or after `from` where `"\r\n"` starts.
pub open spec fn crlf_from(s: Seq<u8>, from: int) -> Option<int>
    decreases s.len() - from,
{
    if from < 0 || from + 2 > s.len() {
        None
    } else if s[from] == 13 && s[from + 1] == 10 {
        Some(from)
    } else {
        crlf_from(s, from + 1)
    }
}

/// A CRLF found from `from` lies at or after it and within `s`.
pub proof fn lemma_crlf_from_bounds(s: Seq<u8>, from: int)
    ensures
        crlf_from(s, from) matches Some(e) ==> from <= e && e + 2 <= s.len() && s[e] == 13 && s[e + 1] == 10,
    decreases s.len() - from,
{
    if 0 <= from && from + 2 <= s.len() && !(s[from] == 13 && s[from + 1] == 10) {
        lemma_crlf_from_bounds(s, from + 1);
    }
}

/// The part of a chunk-size line before the first `;` (chunk extensions
/// dropped), trimmed.
pub open spec fn chunk_size_text(line: Seq<char>) -> Seq<char> {
    match first_index_from(line, ';', 0) {
        None => trim(line),
        Some(i) => trim(line.subrange(0, i)),
    }
}

/// Body of a chunked message from `pos` on: each chunk is a hexadecimal size
/// line ended by CRLF, the data and a CRLF; a chunk of size 0 ends the body.
/// Each failure has its error text.
pub open spec fn chunked_from(s: Seq<u8>, pos: int) -> Result<Seq<u8>, Seq<char>>
    decreases s.len() - pos,
{
    match crlf_from(s, pos) {
        None => Err("Invalid chunked encoding: missing CRLF after size"@),
        Some(e) => {
            proof {
                lemma_crlf_from_bounds(s, pos);
            }
            let line = s.subrange(pos, e);
            if !valid_utf8(line) {
                Err("Invalid chunk size: not UTF-8"@)
            } else {
                let size_text = chunk_size_text(decode_utf8(line));
                match parse_hex_usize(size_text) {
                    Err(msg) => Err("Invalid chunk size '"@ + size_text + "': "@ + msg),
                    Ok(size) => if size > MAX_CHUNK_SIZE {
                        Err("Chunk size "@ + decimal(size) + " exceeds maximum allowed size "@
                            + decimal(MAX_CHUNK_SIZE as nat) + " bytes"@)
                    } else if size == 0 {
                        Ok(Seq::empty())
                    } else {
                        let start = e + 2;
                        let end = start + size;
                        if end > s.len() {
                            Err("Chunk size "@ + decimal(size) + " exceeds available data"@)
                        } else if end + 2 <= s.len() && s[end] == 13 && s[end + 1] == 10 {
                            match chunked_from(s, end + 2) {
                                Ok(rest) => Ok(s.subrange(start, end) + rest),
                                Err(m) => Err(m),
                            }
                        } else {
                            Err("Invalid chunked encoding: missing CRLF after chunk data"@)
                        }
                    },
                }
            }
        },
    }
}

/// `r` with `prefix` put in front of its bytes.
pub open spec fn prefixed(prefix: Seq<u8>, r: Result<Seq<u8>, Seq<char>>) -> Result<Seq<u8>, Seq<char>> {
    match r {
        Ok(x) => Ok(prefix + x),
        Err(e) => Err(e),
    }
}

/// Decodes a chunked body.
pub fn parse_chunked(data: &[u8]) -> (r: Result<Vec<u8>, String>)
    ensures
        outcome_view(r) == chunked_from(data@, 0),
{
    let mut result: Vec<u8> = Vec::new();
    let mut pos: usize = 0;
    loop
        invariant
            pos <= data@.len(),
            chunked_from(data@, 0) == prefixed(result@, chunked_from(data@, pos as int)),
        decreases data@.len() - pos,
    {
        let mut e: usize = pos;
        while data.len() - e >= 2 && !(data[e] == 13 && data[e + 1] == 10)
            invariant
                pos <= e <= data@.len(),
                crlf_from(data@, pos as int) == crlf_from(data@, e as int),
            decreases data@.len() - e,
        {
            e = e + 1;
        }
        if data.len() - e < 2 {
            assert(crlf_from(data@, e as int) is None);
            return Err(String::from_str("Invalid chunked encoding: missing CRLF after size"));
        }
        let line_bytes: &[u8] = &data[pos..e];
        assert(line_bytes@ == data@.subrange(pos as int, e as int));
        let text: String = match utf8_decode(line_bytes) {
            Some(t) => t,
            None => {
                return Err(String::from_str("Invalid chunk size: not UTF-8"));
            },
        };
        let cs: Vec<char> = chars_of(text.as_str());
        let n: usize = cs.len();
        let cut: usize = match find_char(cs.as_slice(), ';', 0, n) {
            Some(k) => {
                proof { crate::text::lemma_first_index_props(cs@, ';', 0); }
                k
            },
            None => {
                assert(cs@.subrange(0, n as int) =~= cs@);
                n
            },
        };
        let (a, b) = trim_bounds(cs.as_slice(), 0, cut);
        let ghost size_text = cs@.subrange(a as int, b as int);
        assert(size_text == chunk_size_text(decode_utf8(data@.subrange(pos as int, e as int))));
        let size: usize = match parse_hex_chars(cs.as_slice(), a, b) {
            Ok(v) => v,
            Err(msg) => {
                let mut m: String = String::from_str("Invalid chunk size '");
                let t: String = string_of_range(cs.as_slice(), a, b);
                m.append(t.as_str());
                m.append("': ");
                m.append(msg.as_str());
                return Err(m);
            },
        };
        if size > MAX_CHUNK_SIZE {
            let mut m: String = String::from_str("Chunk size ");
            push_decimal(&mut m, size as u64);
            m.append(" exceeds maximum allowed size ");
            push_decimal(&mut m, MAX_CHUNK_SIZE as u64);
            m.append(" bytes");
            return Err(m);
        }
        if size == 0 {
            assert(result@ + Seq::<u8>::empty() =~= result@);
            return Ok(result);
        }
        let start: usize = e + 2;
        if size > data.len() - start {
            let mut m: String = String::from_str("Chunk size ");
            push_decimal(&mut m, size as u64);
            m.append(" exceeds available data");
            return Err(m);
        }
        let end: usize = start + size;
        if !(data.len() - end >= 2 && data[end] == 13 && data[end + 1] == 10) {
            return Err(String::from_str("Invalid chunked encoding: missing CRLF after chunk data"));
        }
        let ghost before = result@;
        let mut k: usize = start;
        while k < end
            invariant
                start <= k <= end <= data@.len(),
                result@ == before + data@.subrange(start as int, k as int),
            decreases end - k,
        {
            result.push(data[k]);
            k = k + 1;
            assert(result@ =~= before + data@.subrange(start as int, k as int));
        }
        proof {
            match chunked_from(data@, end + 2) {
                Ok(rest) => {
                    assert(before + (data@.subrange(start as int, end as int) + rest) =~= result@ + rest);
                },
                Err(_) => {},
            }
        }
        pos = end + 2;
    }
}

// ---------------------------------------------------------------------------
// Content coding
// ---------------------------------------------------------------------------

/// Decoding of a body under a `Content-Encoding` value, matched in lower case:
/// gzip, deflate and br are decompressed, identity and the empty value leave
/// the body as it is, any other value is refused.
pub open spec fn decompressed(data: Seq<u8>, encoding: Seq<char>) -> Result<Seq<u8>, Seq<char>> {
    let l = lowercase(encoding);
    if l == "gzip"@ {
        match gzip_decoded(data) {
            Ok(d) => Ok(d),
            Err(e) => Err("gzip decompression failure: "@ + e),
        }
    } else if l == "deflate"@ {
        match deflate_decoded(data) {
            Ok(d) => Ok(d),
            Err(e) => Err("deflate decompression failure: "@ + e),
        }
    } else if l == "br"@ {
        match brotli_decoded(data, 4096) {
            Ok(d) => Ok(d),
            Err(e) => Err("brotli decompression failure: "@ + e),
        }
    } else if l == "identity"@ || l.len() == 0 {
        Ok(data)
    } else {
        Err(" not supportencoding: "@ + encoding)
    }
}

/// Brotli is a supported encoding: for `br` in any case, the result is what
/// the brotli decoder gives (its bytes, or its error behind the brotli
/// prefix), never the unsupported-encoding error. Likewise gzip and
/// deflate go to their decoders, and `identity` or no encoding gives the
/// data unchanged.
pub proof fn lemma_supported_encodings(data: Seq<u8>, encoding: Seq<char>)
    ensures
        lowercase(encoding) == "br"@ ==> (match brotli_decoded(data, 4096) {
            Ok(d) => decompressed(data, encoding) == Ok::<Seq<u8>, Seq<char>>(d),
            Err(e) => decompressed(data, encoding) == Err::<Seq<u8>, Seq<char>>("brotli decompression failure: "@ + e),
        }),
        lowercase(encoding) == "gzip"@ ==> (match gzip_decoded(data) {
            Ok(d) => decompressed(data, encoding) == Ok::<Seq<u8>, Seq<char>>(d),
            Err(e) => decompressed(data, encoding) == Err::<Seq<u8>, Seq<char>>("gzip decompression failure: "@ + e),
        }),
        lowercase(encoding) == "deflate"@ ==> (match deflate_decoded(data) {
            Ok(d) => decompressed(data, encoding) == Ok::<Seq<u8>, Seq<char>>(d),
            Err(e) => decompressed(data, encoding) == Err::<Seq<u8>, Seq<char>>("deflate decompression failure: "@ + e),
        }),
        lowercase(encoding) == "identity"@ || lowercase(encoding).len() == 0 ==> decompressed(data, encoding) == Ok::<
            Seq<u8>,
            Seq<char>,
        >(data),
        lowercase(encoding) != "br"@ && lowercase(encoding) != "gzip"@ && lowercase(encoding) != "deflate"@
            && lowercase(encoding) != "identity"@ && lowercase(encoding).len() != 0 ==> decompressed(data, encoding)
            == Err::<Seq<u8>, Seq<char>>(" not supportencoding: "@ + encoding),
{
    reveal_strlit("br");
    reveal_strlit("gzip");
    reveal_strlit("deflate");
    reveal_strlit("identity");
    assert("br"@.len() == 2 && "gzip"@.len() == 4 && "deflate"@.len() == 7);
    assert("br"@ != "gzip"@ && "br"@ != "deflate"@ && "deflate"@ != "gzip"@);
}

/// `r` with `prefix` put in front of its error text.
pub fn prefix_error(prefix: &str, r: Result<Vec<u8>, String>) -> (out: Result<Vec<u8>, String>)
    ensures
        outcome_view(out) == (match outcome_view(r) {
            Ok(d) => Ok(d),
            Err(e) => Err(prefix@ + e),
        }),
{
    match r {
        Ok(d) => Ok(d),
        Err(e) => {
            let mut m: String = String::from_str(prefix);
            m.append(e.as_str());
            Err(m)
        },
    }
}

/// Decodes a body under a `Content-Encoding` value.
pub fn decompress(data: &[u8], encoding: &str) -> (r: Result<Vec<u8>, String>)
    ensures
        outcome_view(r) == decompressed(data@, encoding@),
{
    let l: String = to_lowercase(encoding);
    if str_eq(l.as_str(), "gzip") {
        prefix_error("gzip decompression failure: ", gzip_decode(data))
    } else if str_eq(l.as_str(), "deflate") {
        prefix_error("deflate decompression failure: ", deflate_decode(data))
    } else if str_eq(l.as_str(), "br") {
        prefix_error("brotli decompression failure: ", brotli_decode(data, 4096))
    } else if str_eq(l.as_str(), "identity") || l.unicode_len() == 0 {
        Ok(vstd::slice::slice_to_vec(data))
    } else {
        let mut m: String = String::from_str(" not supportencoding: ");
        m.append(encoding);
        Err(m)
    }
}


// ---------------------------------------------------------------------------
// Response
// ---------------------------------------------------------------------------

/// Decoding of a body under the headers: first the chunked transfer coding
/// when `transfer-encoding` names it, then the `content-encoding`, if any.
pub open spec fn decoded_body(body: Seq<u8>, m: Map<Seq<char>, Seq<char>>) -> Result<Seq<u8>, Seq<char>> {
    let after = if m.dom().contains("transfer-encoding"@) && seq_contains(m["transfer-encoding"@], "chunked"@) {
        chunked_from(body, 0)
    } else {
        Ok(body)
    };
    match after {
        Err(e) => Err(e),
        Ok(b) => if m.dom().contains("content-encoding"@) {
            decompressed(b, m["content-encoding"@])
        } else {
            Ok(b)
        },
    }
}

/// Decodes a body under a header table.
fn process_body(body_bytes: &[u8], headers: &Vec<(String, String)>) -> (r: Result<Vec<u8>, String>)
    requires
        keys_unique(pairs_of(headers@)),
    ensures
        outcome_view(r) == decoded_body(body_bytes@, map_of(pairs_of(headers@))),
{
    let mut body: Vec<u8> = vstd::slice::slice_to_vec(body_bytes);
    match header_get(headers, "transfer-encoding") {
        Some(te) => {
            if str_contains(te.as_str(), "chunked") {
                body = match parse_chunked(body.as_slice()) {
                    Ok(b) => b,
                    Err(e) => {
                        return Err(e);
                    },
                };
            }
        },
        None => {},
    }
    match header_get(headers, "content-encoding") {
        Some(ce) => decompress(body.as_slice(), ce.as_str()),
        None => Ok(body),
    }
}

/// The parts of a raw HTTP/1.x response: version, status code, reason text,
/// header map and decoded body; or the error text. The header block (up to
/// the first blank line) is decoded as UTF-8 with replacement and split into
/// lines; the first is the status line, the others are header lines.
pub open spec fn response_parts(raw: Seq<u8>) -> Result<
    (Seq<char>, u16, Seq<char>, Map<Seq<char>, Seq<char>>, Seq<u8>),
    Seq<char>,
> {
    match headers_end(raw) {
        Err(e) => Err(e),
        Ok((i, j)) => {
            let ls = lines(utf8_lossy(raw.subrange(0, i)));
            if ls.len() == 0 {
                Err("missingstatus row "@)
            } else {
                match status_line(ls[0]) {
                    Err(e) => Err(e),
                    Ok((version, code, reason)) => {
                        let m = headers_from_lines(ls.subrange(1, ls.len() as int));
                        match decoded_body(raw.subrange(j, raw.len() as int), m) {
                            Err(e) => Err(e),
                            Ok(b) => Ok((version, code, reason, m, b)),
                        }
                    },
                }
            }
        },
    }
}

/// HTTP response
#[derive(Debug, Clone)]
pub struct HttpResponse {
    pub status_code: u16,
    pub status_text: String,
    /// Header names (lower case when parsed) and values; no name twice.
    pub headers: Vec<(String, String)>,
    pub body: Vec<u8>,
    pub http_version: String,
    /// Time the parsing took, in milliseconds.
    pub response_time_ms: u64,
}

impl HttpResponse {
    /// No header name occurs twice.
    pub open spec fn wf(&self) -> bool {
        keys_unique(pairs_of(self.headers@))
    }

    /// The header map.
    pub open spec fn header_map(&self) -> Map<Seq<char>, Seq<char>> {
        map_of(pairs_of(self.headers@))
    }

    /// An empty HTTP/1.1 response with the given status code.
    pub fn new(status_code: u16) -> (r: Self)
        ensures
            r.status_code == status_code,
            r.status_text@ == Seq::<char>::empty(),
            r.headers@.len() == 0,
            r.body@.len() == 0,
            r.http_version@ == "HTTP/1.1"@,
            r.response_time_ms == 0,
            r.wf(),
    {
        HttpResponse {
            status_code,
            status_text: String::new(),
            headers: Vec::new(),
            body: Vec::new(),
            http_version: String::from_str("HTTP/1.1"),
            response_time_ms: 0,
        }
    }

    /// Parses a complete raw response.
    pub fn parse(raw_response: &[u8]) -> (r: Result<Self, String>)
        ensures
            r is Ok <==> response_parts(raw_response@) is Ok,
            r matches Ok(resp) ==> {
                &&& resp.wf()
                &&& response_parts(raw_response@) == Ok::<(Seq<char>, u16, Seq<char>, Map<Seq<char>, Seq<char>>, Seq<u8>), Seq<char>>(
                    (resp.http_version@, resp.status_code, resp.status_text@, resp.header_map(), resp.body@),
                )
            },
            r matches Err(e) ==> response_parts(raw_response@) == Err::<(Seq<char>, u16, Seq<char>, Map<Seq<char>, Seq<char>>, Seq<u8>), Seq<char>>(e@),
    {
        let start = instant_now();
        let (headers_end, body_start) = match find_headers_end(raw_response) {
            Ok(x) => x,
            Err(e) => {
                return Err(e);
            },
        };
        let header_bytes: &[u8] = &raw_response[0..headers_end];
        let header_text: String = utf8_lossy_decode(header_bytes);
        let cs: Vec<char> = chars_of(header_text.as_str());
        let n: usize = cs.len();
        if n == 0 {
            assert(lines(cs@) =~= Seq::<Seq<char>>::empty());
            return Err(String::from_str("missingstatus row "));
        }
        let (line_end, first_next) = next_line(cs.as_slice(), 0);
        assert(cs@.subrange(0, n as int) =~= cs@);
        let (http_version, status_code, status_text) = match parse_status_line(&cs, 0, line_end) {
            Ok(x) => x,
            Err(e) => {
                return Err(e);
            },
        };
        let mut headers: Vec<(String, String)> = Vec::new();
        let ghost first = cs@.subrange(0, line_end as int);
        let ghost mut done: Seq<Seq<char>> = Seq::empty();
        let mut pos: usize = first_next;
        assert(pairs_of(headers@) =~= Seq::<(Seq<char>, Seq<char>)>::empty());
        assert(map_of(pairs_of(headers@)) =~= headers_from_lines(done));
        while pos < n
            invariant
                pos <= n == cs@.len(),
                lines(cs@) == seq![first] + done + lines(cs@.subrange(pos as int, n as int)),
                keys_unique(pairs_of(headers@)),
                map_of(pairs_of(headers@)) == headers_from_lines(done),
            decreases n - pos,
        {
            let (le, next) = next_line(cs.as_slice(), pos);
            add_header_line(&mut headers, &cs, pos, le);
            proof {
                let line = cs@.subrange(pos as int, le as int);
                assert(done.push(line).drop_last() =~= done);
                assert(seq![first] + done + (seq![line] + lines(cs@.subrange(next as int, n as int)))
                    =~= seq![first] + done.push(line) + lines(cs@.subrange(next as int, n as int)));
                done = done.push(line);
            }
            pos = next;
        }
        proof {
            assert(cs@.subrange(n as int, n as int).len() == 0);
            assert(lines(cs@.subrange(n as int, n as int)) =~= Seq::<Seq<char>>::empty());
            let ls = lines(cs@);
            assert(ls =~= seq![first] + done);
            assert(ls.subrange(1, ls.len() as int) =~= done);
        }
        let body_bytes: &[u8] = &raw_response[body_start..raw_response.len()];
        let body: Vec<u8> = match process_body(body_bytes, &headers) {
            Ok(b) => b,
            Err(e) => {
                return Err(e);
            },
        };
        let response_time_ms: u64 = millis_since(&start);
        Ok(HttpResponse { status_code, status_text, headers, body, http_version, response_time_ms })
    }

    /// The body decoded as UTF-8.
    pub fn body_as_string(&self) -> (r: Result<String, std::string::FromUtf8Error>)
        ensures
            r is Ok <==> valid_utf8(self.body@),
            r matches Ok(s) ==> s@ == decode_utf8(self.body@),
    {
        string_from_utf8(vstd::slice::slice_to_vec(self.body.as_slice()))
    }

    /// Whether the status code is a 2xx code.
    pub fn is_success(&self) -> (r: bool)
        ensures
            r == (200 <= self.status_code < 300),
    {
        self.status_code >= 200 && self.status_code < 300
    }

    /// The value of the header named `key` (names as stored, lower case after
    /// parsing).
    pub fn get_header(&self, key: &str) -> (r: Option<&String>)
        ensures
            r is None <==> forall|i: int| 0 <= i < self.headers@.len() ==> #[trigger] self.headers@[i].0@ != key@,
            r matches Some(v) ==> exists|i: int| 0 <= i < self.headers@.len() && #[trigger] self.headers@[i].0@ == key@
                && self.headers@[i].1@ == v@,
            self.wf() ==> (r is Some <==> self.header_map().dom().contains(key@)),
            self.wf() && r is Some ==> r->0@ == self.header_map()[key@],
    {
        proof { crate::header_map::lemma_map_of_dom(pairs_of(self.headers@), key@); }
        match crate::header_map::header_index(&self.headers, key) {
            Some(i) => {
                proof {
                    if self.wf() {
                        crate::header_map::lemma_map_of_index(pairs_of(self.headers@), i as int);
                    }
                }
                Some(&self.headers[i].1)
            },
            None => {
                assert forall|i: int| 0 <= i < pairs_of(self.headers@).len() implies
                    #[trigger] pairs_of(self.headers@)[i].0 != key@ by {
                    assert(pairs_of(self.headers@)[i].0 == self.headers@[i].0@);
                }
                None
            },
        }
    }
}

} // verus!
