//! Deciding when an HTTP/1.x response has been read completely: after the
//! header block, at `Content-Length` bytes of body, at the end of a chunked
//! body, or at end of input; with a cap on the response size. The caller
//! reads from the connection and feeds the bytes in.
use vstd::prelude::*;
use crate::response::{blank_line_from, lemma_blank_line_bounds};
use crate::text::{
    ascii_lower, chars_of, decimal, eq_ignore_ascii_case, find_char, first_index_from, lines, next_line,
    parse_unsigned, parse_unsigned_chars, push_char, push_decimal, range_eq_ignore_ascii_case, seq_contains,
    str_contains, to_ascii_lower, trim, trim_bounds,
};
use crate::unicode::{utf8_lossy, utf8_lossy_decode};

verus! {

broadcast use vstd::string::group_string_axioms;

/// Default cap on a response's size (16 MiB).
pub const DEFAULT_MAX_RESPONSE_BYTES: usize = 16777216;

/// Largest `Content-Length` accepted (100 MiB).
pub const MAX_CONTENT_LENGTH: usize = 104857600;

/// First position at or after `from` where `needle` occurs in `hay`.
pub open spec fn first_occurrence(hay: Seq<u8>, needle: Seq<u8>, from: int) -> Option<int>
    decreases hay.len() + 1 - from,
{
    if from < 0 || from + needle.len() > hay.len() {
        None
    } else if hay.subrange(from, from + needle.len()) == needle {
        Some(from)
    } else {
        first_occurrence(hay, needle, from + 1)
    }
}

/// Position of the first occurrence of `needle` in `hay`; an empty needle is
/// found at 0.
pub open spec fn subsequence_pos(hay: Seq<u8>, needle: Seq<u8>) -> Option<int> {
    if needle.len() == 0 {
        Some(0)
    } else {
        first_occurrence(hay, needle, 0)
    }
}

/// Finds the first occurrence of `needle` in `haystack`.
pub fn find_subsequence(haystack: &[u8], needle: &[u8]) -> (r: Option<usize>)
    ensures
        r matches Some(i) ==> subsequence_pos(haystack@, needle@) == Some(i as int),
        r is None ==> subsequence_pos(haystack@, needle@) is None,
{
    let n: usize = needle.len();
    if n == 0 {
        return Some(0);
    }
    if n > haystack.len() {
        return None;
    }
    let hl: usize = haystack.len();
    let mut i: usize = 0;
    while i <= hl - n
        invariant
            hl == haystack@.len(),
            n == needle@.len(),
            n > 0,
            n <= haystack@.len(),
            i <= haystack@.len() - n + 1,
            first_occurrence(haystack@, needle@, 0) == first_occurrence(haystack@, needle@, i as int),
        decreases haystack@.len() - n + 1 - i,
    {
        let mut j: usize = 0;
        while j < n && haystack[i + j] == needle[j]
            invariant
                hl == haystack@.len(),
                n == needle@.len(),
                n <= haystack@.len(),
                i <= haystack@.len() - n,
                first_occurrence(haystack@, needle@, 0) == first_occurrence(haystack@, needle@, i as int),
                j <= n,
                forall|k: int| 0 <= k < j ==> haystack@[i + k] == needle@[k],
            decreases n - j,
        {
            j = j + 1;
        }
        if j == n {
            assert(haystack@.subrange(i as int, i + n) =~= needle@);
            return Some(i);
        }
        assert(haystack@.subrange(i as int, i + n)[j as int] != needle@[j as int]);
        i = i + 1;
    }
    None
}

/// `s` with ASCII upper-case letters turned to lower case.
pub open spec fn ascii_lowercase(s: Seq<char>) -> Seq<char> {
    Seq::new(s.len(), |i: int| ascii_lower(s[i]))
}

/// `Content-Length` and whether the body is chunked, from header lines: a
/// line with a `:` and the trimmed name `content-length` (up to ASCII case)
/// and a valid number sets the length, later lines winning; the name
/// `transfer-encoding` with a value holding `chunked` (up to ASCII case)
/// marks the body chunked.
pub open spec fn length_and_chunked(ls: Seq<Seq<char>>) -> (Option<nat>, bool)
    decreases ls.len(),
{
    if ls.len() == 0 {
        (None, false)
    } else {
        step_framing(length_and_chunked(ls.drop_last()), ls.last())
    }
}

/// `Content-Length` and chunkedness of a header block: its lines after the
/// status line, decoded as UTF-8 with replacement.
pub open spec fn header_framing(header: Seq<u8>) -> (Option<nat>, bool) {
    let ls = lines(utf8_lossy(header));
    if ls.len() == 0 {
        (None, false)
    } else {
        length_and_chunked(ls.drop_first())
    }
}

/// Reads the framing of the header line `cs[lo..hi]` into `cl` and `chunked`.
fn scan_header_line(cs: &Vec<char>, lo: usize, hi: usize, cl: &mut Option<usize>, chunked: &mut bool)
    requires
        lo <= hi <= cs@.len(),
    ensures
        ({
            let prev = (match *old(cl) { Some(n) => Some(n as nat), None => None }, *old(chunked));
            let line = cs@.subrange(lo as int, hi as int);
            (match *final(cl) { Some(n) => Some(n as nat), None => None }, *final(chunked))
                == step_framing(prev, line)
        }),
{
    let ghost line = cs@.subrange(lo as int, hi as int);
    let lc: Vec<char> = vstd::slice::slice_to_vec(&cs.as_slice()[lo..hi]);
    assert(lc@ =~= line);
    let n: usize = lc.len();
    match find_char(lc.as_slice(), ':', 0, n) {
        None => {},
        Some(p) => {
            proof { crate::text::lemma_first_index_props(line, ':', 0); }
            let (a, b) = trim_bounds(lc.as_slice(), 0, p);
            let (c, d) = trim_bounds(lc.as_slice(), p + 1, n);
            if range_eq_ignore_ascii_case(lc.as_slice(), a, b, "content-length") {
                match parse_unsigned_chars(lc.as_slice(), c, d, usize::MAX as u64) {
                    Some(v) => {
                        *cl = Some(v as usize);
                    },
                    None => {},
                }
            } else if range_eq_ignore_ascii_case(lc.as_slice(), a, b, "transfer-encoding") {
                let mut lower: String = String::new();
                let mut k: usize = c;
                while k < d
                    invariant
                        c <= k <= d <= lc@.len(),
                        lower@ == ascii_lowercase(lc@.subrange(c as int, k as int)),
                    decreases d - k,
                {
                    push_char(&mut lower, to_ascii_lower(lc[k]));
                    k = k + 1;
                    assert(lower@ =~= ascii_lowercase(lc@.subrange(c as int, k as int)));
                }
                if str_contains(lower.as_str(), "chunked") {
                    *chunked = true;
                }
            }
        },
    }
}

/// Framing after one more header line.
pub open spec fn step_framing(prev: (Option<nat>, bool), line: Seq<char>) -> (Option<nat>, bool) {
    let (cl, ch) = prev;
    match first_index_from(line, ':', 0) {
        None => (cl, ch),
        Some(p) => {
            let k = trim(line.subrange(0, p));
            let v = trim(line.subrange(p + 1, line.len() as int));
            if eq_ignore_ascii_case(k, "content-length"@) {
                match parse_unsigned(v, usize::MAX as nat) {
                    Some(n) => (Some(n), ch),
                    None => (cl, ch),
                }
            } else if eq_ignore_ascii_case(k, "transfer-encoding"@) && seq_contains(ascii_lowercase(v), "chunked"@) {
                (cl, true)
            } else {
                (cl, ch)
            }
        },
    }
}


/// Option of a count as a number.
pub open spec fn opt_nat(o: Option<usize>) -> Option<nat> {
    match o {
        Some(n) => Some(n as nat),
        None => None,
    }
}

/// `Content-Length` and whether the body is chunked, from a header block.
pub fn parse_headers_for_length_and_chunked(header_bytes: &[u8]) -> (r: (Option<usize>, bool))
    ensures
        (opt_nat(r.0), r.1) == header_framing(header_bytes@),
{
    let text: String = utf8_lossy_decode(header_bytes);
    let cs: Vec<char> = chars_of(text.as_str());
    let n: usize = cs.len();
    let mut cl: Option<usize> = None;
    let mut chunked: bool = false;
    if n == 0 {
        assert(lines(cs@) =~= Seq::<Seq<char>>::empty());
        return (cl, chunked);
    }
    let (_e, first_next) = next_line(cs.as_slice(), 0);
    assert(cs@.subrange(0, n as int) =~= cs@);
    let ghost first = cs@.subrange(0, _e as int);
    let ghost mut done: Seq<Seq<char>> = Seq::empty();
    let mut pos: usize = first_next;
    while pos < n
        invariant
            pos <= n == cs@.len(),
            lines(cs@) == seq![first] + done + lines(cs@.subrange(pos as int, n as int)),
            (opt_nat(cl), chunked) == length_and_chunked(done),
        decreases n - pos,
    {
        let (le, next) = next_line(cs.as_slice(), pos);
        scan_header_line(&cs, pos, le, &mut cl, &mut chunked);
        proof {
            let line = cs@.subrange(pos as int, le as int);
            assert(done.push(line).drop_last() =~= done);
            assert(seq![first] + done + (seq![line] + lines(cs@.subrange(next as int, n as int)))
                =~= seq![first] + done.push(line) + lines(cs@.subrange(next as int, n as int)));
            done = done.push(line);
        }
        pos = next;
    }
    proof {
        assert(lines(cs@.subrange(n as int, n as int)) =~= Seq::<Seq<char>>::empty());
        assert(lines(cs@) =~= seq![first] + done);
        assert(lines(cs@).drop_first() =~= done);
    }
    (cl, chunked)
}

/// Progress of reading one HTTP/1.x response.
pub struct ResponseReader {
    buf: Vec<u8>,
    headers_end: Option<usize>,
    target_len: Option<usize>,
    is_chunked: bool,
    max_bytes: usize,
}

/// What to do before the next read.
#[derive(Debug, Clone, PartialEq, Eq)]
pub enum ReadDecision {
    /// The response is complete.
    Finish,
    /// Read more bytes.
    ReadMore,
    /// Stop with this error text: the response is too large.
    Fail(String),
}

/// Whether the `Content-Length` target has been reached.
pub open spec fn target_reached(target: Option<usize>, len: nat) -> bool {
    match target {
        Some(t) => len >= t,
        None => false,
    }
}

/// Whether a `Content-Length` is above the accepted maximum.
pub open spec fn length_too_large(cl: Option<nat>) -> bool {
    match cl {
        Some(n) => n > MAX_CONTENT_LENGTH,
        None => false,
    }
}

/// The target after the header block ends at `end`: end plus the
/// `Content-Length` (saturating), or the old target when there is none.
pub open spec fn target_after(old_target: Option<usize>, end: int, cl: Option<nat>) -> Option<usize> {
    match cl {
        Some(n) => Some(if end + n > usize::MAX { usize::MAX } else { (end + n) as usize }),
        None => old_target,
    }
}

/// Whether a chunked body's last chunk has been read.
pub open spec fn last_chunk_seen(chunked: bool, header_end: Option<usize>, bytes: Seq<u8>) -> bool {
    chunked && match header_end {
        Some(e) => has_last_chunk(bytes.subrange(e as int, bytes.len() as int)),
        None => false,
    }
}

/// Whether `"0\r\n\r\n"` occurs in `s`.
pub open spec fn has_last_chunk(s: Seq<u8>) -> bool {
    first_occurrence(s, seq![48u8, 13u8, 10u8, 13u8, 10u8], 0) is Some
}

impl ResponseReader {
    /// The bytes read so far.
    pub closed spec fn bytes(&self) -> Seq<u8> {
        self.buf@
    }

    /// End of the header block, once found.
    pub closed spec fn header_end(&self) -> Option<usize> {
        self.headers_end
    }

    /// Length of the whole response, once a `Content-Length` is known.
    pub closed spec fn target(&self) -> Option<usize> {
        self.target_len
    }

    /// Whether the body is chunked.
    pub closed spec fn chunked(&self) -> bool {
        self.is_chunked
    }

    /// The size cap.
    pub closed spec fn cap(&self) -> usize {
        self.max_bytes
    }

    /// The header end, when found, lies within the bytes read.
    pub closed spec fn wf(&self) -> bool {
        self.headers_end matches Some(e) ==> e <= self.buf@.len()
    }

    /// A reader that has read nothing, with a cap of `max_bytes`.
    pub fn new(max_bytes: usize) -> (r: Self)
        ensures
            r.wf(),
            r.bytes() == Seq::<u8>::empty(),
            r.header_end() is None,
            r.target() is None,
            !r.chunked(),
            r.cap() == max_bytes,
    {
        let r = ResponseReader { buf: Vec::new(), headers_end: None, target_len: None, is_chunked: false, max_bytes };
        assert(r.buf@ =~= Seq::<u8>::empty());
        r
    }

    /// Before a read: finished once the `Content-Length` target is reached,
    /// refused once the cap is reached, otherwise read on.
    pub fn next_decision(&self) -> (r: ReadDecision)
        ensures
            target_reached(self.target(), self.bytes().len()) ==> r == ReadDecision::Finish,
            !target_reached(self.target(), self.bytes().len()) && self.bytes().len() >= self.cap() ==> r is Fail,
            r matches ReadDecision::Fail(m) ==> m@ == "responsetoo large (>"@ + decimal(self.cap() as nat) + " bytes)"@,
            !target_reached(self.target(), self.bytes().len()) && self.bytes().len() < self.cap()
                ==> r == ReadDecision::ReadMore,
    {
        if let Some(t) = self.target_len {
            if self.buf.len() >= t {
                return ReadDecision::Finish;
            }
        }
        if self.buf.len() >= self.max_bytes {
            let mut m: String = String::from_str("responsetoo large (>");
            push_decimal(&mut m, self.max_bytes as u64);
            m.append(" bytes)");
            return ReadDecision::Fail(m);
        }
        ReadDecision::ReadMore
    }

    /// Takes in bytes that were read: finds the header block if not found
    /// yet (a `Content-Length` above [`MAX_CONTENT_LENGTH`] is refused), and
    /// says whether a chunked body has reached its last chunk.
    pub fn feed(&mut self, data: &[u8]) -> (r: Result<bool, String>)
        requires
            old(self).wf(),
            old(self).bytes().len() + data@.len() <= usize::MAX,
        ensures
            final(self).wf(),
            final(self).bytes() == old(self).bytes() + data@,
            final(self).cap() == old(self).cap(),
            old(self).header_end() is Some ==> {
                &&& final(self).header_end() == old(self).header_end()
                &&& final(self).target() == old(self).target()
                &&& final(self).chunked() == old(self).chunked()
            },
            old(self).header_end() is None ==> match blank_line_from(final(self).bytes(), 0) {
                None => {
                    &&& final(self).header_end() is None
                    &&& final(self).target() == old(self).target()
                    &&& final(self).chunked() == old(self).chunked()
                    &&& r is Ok
                },
                Some(p) => {
                    let (cl, ch) = header_framing(final(self).bytes().subrange(0, p + 4));
                    &&& final(self).header_end() == Some((p + 4) as usize)
                    &&& final(self).chunked() == ch
                    &&& (r is Err <==> length_too_large(cl))
                    &&& r matches Err(m) ==> m@ == "Content-Length too large: "@ + decimal(cl->0) + " bytes (maximum: "@
                        + decimal(MAX_CONTENT_LENGTH as nat) + " bytes)"@
                    &&& r is Ok ==> final(self).target() == target_after(old(self).target(), p + 4, cl)
                },
            },
            r matches Ok(done) ==> done == last_chunk_seen(final(self).chunked(), final(self).header_end(), final(self).bytes()),
            r is Err ==> old(self).header_end() is None,
    {
        let mut i: usize = 0;
        let ghost start = self.buf@;
        while i < data.len()
            invariant
                i <= data@.len(),
                self.buf@ == start + data@.subrange(0, i as int),
                start.len() + data@.len() <= usize::MAX,
                self.headers_end == old(self).headers_end,
                self.target_len == old(self).target_len,
                self.is_chunked == old(self).is_chunked,
                self.max_bytes == old(self).max_bytes,
                self.wf(),
            decreases data@.len() - i,
        {
            self.buf.push(data[i]);
            i = i + 1;
            assert(self.buf@ =~= start + data@.subrange(0, i as int));
        }
        assert(data@.subrange(0, i as int) =~= data@);
        if self.headers_end.is_none() {
            let marker: [u8; 4] = [13u8, 10u8, 13u8, 10u8];
            proof { lemma_blank_line_bounds(self.buf@, 0); }
            match find_subsequence(self.buf.as_slice(), &marker) {
                Some(pos) => {
                    proof { lemma_first_occurrence_blank(self.buf@, 0); }
                    let end: usize = pos + 4;
                    self.headers_end = Some(end);
                    let (cl, chunked) = parse_headers_for_length_and_chunked(&self.buf.as_slice()[0..end]);
                    self.is_chunked = chunked;
                    if let Some(cl) = cl {
                        if cl > MAX_CONTENT_LENGTH {
                            let mut m: String = String::from_str("Content-Length too large: ");
                            push_decimal(&mut m, cl as u64);
                            m.append(" bytes (maximum: ");
                            push_decimal(&mut m, MAX_CONTENT_LENGTH as u64);
                            m.append(" bytes)");
                            return Err(m);
                        }
                        self.target_len = Some(end.saturating_add(cl));
                    }
                },
                None => {
                    proof { lemma_first_occurrence_blank(self.buf@, 0); }
                },
            }
        }
        if self.is_chunked {
            if let Some(end) = self.headers_end {
                let last: [u8; 5] = [48u8, 13u8, 10u8, 13u8, 10u8];
                assert(last@ =~= seq![48u8, 13u8, 10u8, 13u8, 10u8]);
                let found = find_subsequence(&self.buf.as_slice()[end..self.buf.len()], &last);
                return Ok(found.is_some());
            }
        }
        Ok(false)
    }

    /// The bytes read, handed over.
    pub fn into_bytes(self) -> (r: Vec<u8>)
        ensures
            r@ == self.bytes(),
    {
        self.buf
    }
}

/// Searching for `"\r\n\r\n"` as a byte string finds the first blank line.
pub proof fn lemma_first_occurrence_blank(s: Seq<u8>, from: int)
    requires
        0 <= from,
    ensures
        first_occurrence(s, seq![13u8, 10u8, 13u8, 10u8], from) == blank_line_from(s, from),
    decreases s.len() + 1 - from,
{
    if from + 4 <= s.len() {
        let m = seq![13u8, 10u8, 13u8, 10u8];
        if s.subrange(from, from + 4) == m {
            assert(s[from] == s.subrange(from, from + 4)[0]);
            assert(s[from + 1] == s.subrange(from, from + 4)[1]);
            assert(s[from + 2] == s.subrange(from, from + 4)[2]);
            assert(s[from + 3] == s.subrange(from, from + 4)[3]);
        } else if s[from] == 13 && s[from + 1] == 10 && s[from + 2] == 13 && s[from + 3] == 10 {
            assert(s.subrange(from, from + 4) =~= m);
        }
        lemma_first_occurrence_blank(s, from + 1);
    }
}

} // verus!
