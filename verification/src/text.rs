//! Character-sequence helpers shared by the formatting and parsing code.
use vstd::prelude::*;

verus! {

broadcast use vstd::string::group_string_axioms;

/// The ASCII digit for `d` in `0..16` (lower-case letters above nine).
pub open spec fn hex_digit(d: nat) -> char {
    if d == 0 { '0' } else if d == 1 { '1' } else if d == 2 { '2' } else if d == 3 { '3' }
    else if d == 4 { '4' } else if d == 5 { '5' } else if d == 6 { '6' } else if d == 7 { '7' }
    else if d == 8 { '8' } else if d == 9 { '9' } else if d == 10 { 'a' } else if d == 11 { 'b' }
    else if d == 12 { 'c' } else if d == 13 { 'd' } else if d == 14 { 'e' } else { 'f' }
}

/// The decimal representation of `n`, as `{}` prints an unsigned integer.
pub open spec fn decimal(n: nat) -> Seq<char>
    decreases n,
{
    if n < 10 {
        seq![hex_digit(n)]
    } else {
        decimal(n / 10).push(hex_digit(n % 10))
    }
}

/// The lower-case hexadecimal representation of `n`, as `{:x}` prints it.
pub open spec fn hex(n: nat) -> Seq<char>
    decreases n,
{
    if n < 16 {
        seq![hex_digit(n)]
    } else {
        hex(n / 16).push(hex_digit(n % 16))
    }
}

/// `n` copies of `c`.
pub open spec fn repeat_char(c: char, n: nat) -> Seq<char> {
    Seq::new(n, |i: int| c)
}

/// `s` padded on the left with `'0'` up to `width` characters, as `{:0w}` does.
pub open spec fn zero_pad(s: Seq<char>, width: nat) -> Seq<char> {
    if s.len() >= width {
        s
    } else {
        repeat_char('0', (width - s.len()) as nat) + s
    }
}

/// `{:0wx}` of `n`.
pub open spec fn hex_padded(n: nat, width: nat) -> Seq<char> {
    zero_pad(hex(n), width)
}

/// Whether `needle` occurs in `hay` at position `i`.
pub open spec fn occurs_at<A>(hay: Seq<A>, needle: Seq<A>, i: int) -> bool {
    0 <= i && i + needle.len() <= hay.len() && hay.subrange(i, i + needle.len()) == needle
}

/// Whether `needle` occurs anywhere in `hay`.
pub open spec fn seq_contains<A>(hay: Seq<A>, needle: Seq<A>) -> bool {
    exists|i: int| occurs_at(hay, needle, i)
}

/// Whether `prefix` starts `s`.
pub open spec fn starts_with<A>(s: Seq<A>, prefix: Seq<A>) -> bool {
    prefix.len() <= s.len() && s.subrange(0, prefix.len() as int) == prefix
}

/// Whether `suffix` ends `s`.
pub open spec fn ends_with<A>(s: Seq<A>, suffix: Seq<A>) -> bool {
    suffix.len() <= s.len() && s.subrange(s.len() - suffix.len(), s.len() as int) == suffix
}

/// Appends one character to a string.
#[verifier::external_body]
pub fn push_char(s: &mut String, c: char)
    ensures
        final(s)@ == old(s)@.push(c),
{
    s.push(c);
}

/// The characters of `s`, in order.
pub fn chars_of(s: &str) -> (r: Vec<char>)
    ensures
        r@ == s@,
{
    let mut out: Vec<char> = Vec::new();
    let n: usize = s.unicode_len();
    let mut i: usize = 0;
    while i < n
        invariant
            n == s@.len(),
            i <= n,
            out@ == s@.subrange(0, i as int),
        decreases n - i,
    {
        let c: char = s.get_char(i);
        out.push(c);
        i = i + 1;
        assert(out@ =~= s@.subrange(0, i as int));
    }
    assert(out@ =~= s@);
    out
}

/// A string holding the characters of `cs`.
pub fn string_from_chars(cs: &[char]) -> (r: String)
    ensures
        r@ == cs@,
{
    let mut out: String = String::new();
    let mut i: usize = 0;
    while i < cs.len()
        invariant
            i <= cs@.len(),
            out@ == cs@.subrange(0, i as int),
        decreases cs@.len() - i,
    {
        push_char(&mut out, cs[i]);
        i = i + 1;
        assert(out@ =~= cs@.subrange(0, i as int));
    }
    assert(out@ =~= cs@);
    out
}

/// The character for the digit `d`.
pub fn digit_char(d: u8) -> (c: char)
    requires
        d < 16,
    ensures
        c == hex_digit(d as nat),
{
    match d {
        0 => '0',
        1 => '1',
        2 => '2',
        3 => '3',
        4 => '4',
        5 => '5',
        6 => '6',
        7 => '7',
        8 => '8',
        9 => '9',
        10 => 'a',
        11 => 'b',
        12 => 'c',
        13 => 'd',
        14 => 'e',
        _ => 'f',
    }
}

/// Appends the decimal representation of `n` to `out`.
pub fn push_decimal(out: &mut String, n: u64)
    ensures
        final(out)@ == old(out)@ + decimal(n as nat),
    decreases n,
{
    if n >= 10 {
        push_decimal(out, n / 10);
    }
    let d: u8 = (n % 10) as u8;
    push_char(out, digit_char(d));
    proof {
        assert(decimal(n as nat) == if n < 10 { seq![hex_digit(n as nat)] } else {
            decimal((n / 10) as nat).push(hex_digit((n % 10) as nat))
        });
    }
    assert(final(out)@ =~= old(out)@ + decimal(n as nat));
}

/// Appends the lower-case hexadecimal representation of `n` to `out`.
pub fn push_hex(out: &mut String, n: u64)
    ensures
        final(out)@ == old(out)@ + hex(n as nat),
    decreases n,
{
    if n >= 16 {
        push_hex(out, n / 16);
    }
    let d: u8 = (n % 16) as u8;
    push_char(out, digit_char(d));
    assert(final(out)@ =~= old(out)@ + hex(n as nat));
}

/// The decimal representation of `n`.
pub fn decimal_string(n: u64) -> (r: String)
    ensures
        r@ == decimal(n as nat),
{
    let mut s: String = String::new();
    push_decimal(&mut s, n);
    assert(s@ =~= decimal(n as nat));
    s
}

/// `{:x}` of `n`.
pub fn hex_string(n: u64) -> (r: String)
    ensures
        r@ == hex(n as nat),
{
    let mut s: String = String::new();
    push_hex(&mut s, n);
    assert(s@ =~= hex(n as nat));
    s
}

/// Appends `{:0wx}` of `n` to `out`.
pub fn push_hex_padded(out: &mut String, n: u64, width: usize)
    ensures
        final(out)@ == old(out)@ + hex_padded(n as nat, width as nat),
{
    let h: String = hex_string(n);
    let len: usize = h.unicode_len();
    if len < width {
        let mut k: usize = 0;
        let pad: usize = width - len;
        while k < pad
            invariant
                k <= pad,
                out@ == old(out)@ + repeat_char('0', k as nat),
            decreases pad - k,
        {
            push_char(out, '0');
            k = k + 1;
            assert(out@ =~= old(out)@ + repeat_char('0', k as nat));
        }
    }
    out.append(h.as_str());
    assert(out@ =~= old(out)@ + hex_padded(n as nat, width as nat));
}


/// Whether `c` has the Unicode `White_Space` property, as `char::is_whitespace`
/// and `str::trim` use it.
pub open spec fn is_whitespace(c: char) -> bool {
    ||| ('\t' <= c && c <= '\r')
    ||| c == ' '
    ||| c == '\u{85}'
    ||| c == '\u{a0}'
    ||| c == '\u{1680}'
    ||| ('\u{2000}' <= c && c <= '\u{200a}')
    ||| c == '\u{2028}'
    ||| c == '\u{2029}'
    ||| c == '\u{202f}'
    ||| c == '\u{205f}'
    ||| c == '\u{3000}'
}

/// `s` without its leading whitespace.
pub open spec fn trim_start(s: Seq<char>) -> Seq<char>
    decreases s.len(),
{
    if s.len() > 0 && is_whitespace(s[0]) {
        trim_start(s.drop_first())
    } else {
        s
    }
}

/// `s` without its trailing whitespace.
pub open spec fn trim_end(s: Seq<char>) -> Seq<char>
    decreases s.len(),
{
    if s.len() > 0 && is_whitespace(s.last()) {
        trim_end(s.drop_last())
    } else {
        s
    }
}

/// `s` without leading and trailing whitespace, as `str::trim` gives it.
pub open spec fn trim(s: Seq<char>) -> Seq<char> {
    trim_end(trim_start(s))
}

/// Whether `c` is a character for which `char::is_whitespace` holds.
pub fn char_is_whitespace(c: char) -> (r: bool)
    ensures
        r == is_whitespace(c),
{
    ('\t' <= c && c <= '\r') || c == ' ' || c == '\u{85}' || c == '\u{a0}' || c == '\u{1680}'
        || ('\u{2000}' <= c && c <= '\u{200a}') || c == '\u{2028}' || c == '\u{2029}'
        || c == '\u{202f}' || c == '\u{205f}' || c == '\u{3000}'
}

/// Bounds of the trimmed part of `cs[lo..hi]`.
pub fn trim_bounds(cs: &[char], lo: usize, hi: usize) -> (r: (usize, usize))
    requires
        lo <= hi <= cs@.len(),
    ensures
        lo <= r.0 <= r.1 <= hi,
        cs@.subrange(r.0 as int, r.1 as int) == trim(cs@.subrange(lo as int, hi as int)),
{
    let mut i: usize = lo;
    while i < hi && char_is_whitespace(cs[i])
        invariant
            lo <= i <= hi <= cs@.len(),
            trim_start(cs@.subrange(lo as int, hi as int)) == trim_start(cs@.subrange(i as int, hi as int)),
        decreases hi - i,
    {
        assert(cs@.subrange(i as int, hi as int).drop_first() =~= cs@.subrange(i + 1, hi as int));
        i = i + 1;
    }
    let mut j: usize = hi;
    while j > i && char_is_whitespace(cs[j - 1])
        invariant
            lo <= i <= j <= hi <= cs@.len(),
            trim_start(cs@.subrange(lo as int, hi as int)) == cs@.subrange(i as int, hi as int),
            trim(cs@.subrange(lo as int, hi as int)) == trim_end(cs@.subrange(i as int, j as int)),
        decreases j - i,
    {
        assert(cs@.subrange(i as int, j as int).drop_last() =~= cs@.subrange(i as int, j - 1));
        j = j - 1;
    }
    (i, j)
}

/// The characters of `cs[lo..hi]` as a string.
pub fn string_of_range(cs: &[char], lo: usize, hi: usize) -> (r: String)
    requires
        lo <= hi <= cs@.len(),
    ensures
        r@ == cs@.subrange(lo as int, hi as int),
{
    let mut out: String = String::new();
    let mut i: usize = lo;
    while i < hi
        invariant
            lo <= i <= hi <= cs@.len(),
            out@ == cs@.subrange(lo as int, i as int),
        decreases hi - i,
    {
        push_char(&mut out, cs[i]);
        i = i + 1;
        assert(out@ =~= cs@.subrange(lo as int, i as int));
    }
    out
}

/// Index of the first `c` in `s` at or after `from`, if any.
pub open spec fn first_index_from(s: Seq<char>, c: char, from: int) -> Option<int>
    decreases s.len() - from,
{
    if from < 0 || from >= s.len() {
        None
    } else if s[from] == c {
        Some(from)
    } else {
        first_index_from(s, c, from + 1)
    }
}

/// Index of the first `c` in `cs[from..hi]`.
pub fn find_char(cs: &[char], c: char, from: usize, hi: usize) -> (r: Option<usize>)
    requires
        from <= hi == cs@.len(),
    ensures
        r matches Some(i) ==> first_index_from(cs@, c, from as int) == Some(i as int),
        r is None ==> first_index_from(cs@, c, from as int) is None,
{
    let mut i: usize = from;
    while i < hi
        invariant
            from <= i <= hi == cs@.len(),
            first_index_from(cs@, c, from as int) == first_index_from(cs@, c, i as int),
        decreases hi - i,
    {
        if cs[i] == c {
            return Some(i);
        }
        i = i + 1;
    }
    None
}

/// The lines of `s` as `str::lines` yields them: split after each `'\n'`,
/// a line's `"\n"` or `"\r\n"` ending removed, no empty line after a final
/// line ending.
pub open spec fn lines(s: Seq<char>) -> Seq<Seq<char>>
    decreases s.len(),
{
    if s.len() == 0 {
        Seq::empty()
    } else {
        match first_index_from(s, '\n', 0) {
            None => seq![s],
            Some(i) => {
                let line = s.subrange(0, i);
                let line = if line.len() > 0 && line.last() == '\r' {
                    line.drop_last()
                } else {
                    line
                };
                if 0 <= i < s.len() {
                    seq![line] + lines(s.subrange(i + 1, s.len() as int))
                } else {
                    seq![line]
                }
            },
        }
    }
}


/// Whether two strings hold the same characters.
pub fn str_eq(a: &str, b: &str) -> (r: bool)
    ensures
        r == (a@ == b@),
{
    let n: usize = a.unicode_len();
    if n != b.unicode_len() {
        return false;
    }
    let mut i: usize = 0;
    while i < n
        invariant
            n == a@.len() == b@.len(),
            i <= n,
            a@.subrange(0, i as int) == b@.subrange(0, i as int),
        decreases n - i,
    {
        if a.get_char(i) != b.get_char(i) {
            return false;
        }
        assert(a@.subrange(0, i + 1) =~= a@.subrange(0, i as int).push(a@[i as int]));
        assert(b@.subrange(0, i + 1) =~= b@.subrange(0, i as int).push(b@[i as int]));
        i = i + 1;
    }
    assert(a@ =~= a@.subrange(0, n as int));
    assert(b@ =~= b@.subrange(0, n as int));
    true
}


/// Searching a suffix of `s` is searching `s` from the suffix's start on.
pub proof fn lemma_first_index_suffix(s: Seq<char>, c: char, pos: int, j: int)
    requires
        0 <= pos <= s.len(),
        0 <= j,
    ensures
        first_index_from(s.subrange(pos, s.len() as int), c, j) == (match first_index_from(s, c, pos + j) {
            Some(i) => Some(i - pos),
            None => None,
        }),
    decreases s.len() - pos - j,
{
    let t = s.subrange(pos, s.len() as int);
    if j < t.len() {
        assert(t[j] == s[pos + j]);
        lemma_first_index_suffix(s, c, pos, j + 1);
    }
}

/// A first index found from `from` lies in `from..s.len()`, holds `c`, and
/// no `c` comes between `from` and it.
pub proof fn lemma_first_index_props(s: Seq<char>, c: char, from: int)
    requires
        0 <= from,
    ensures
        first_index_from(s, c, from) matches Some(i) ==> from <= i < s.len() && s[i] == c
            && forall|k: int| from <= k < i ==> s[k] != c,
        first_index_from(s, c, from) is None ==> forall|k: int| from <= k < s.len() ==> s[k] != c,
    decreases s.len() - from,
{
    if 0 <= from < s.len() && s[from] != c {
        lemma_first_index_props(s, c, from + 1);
    }
}

/// Start and end of the next line of `cs[pos..]`, and where the line after
/// it starts.
pub fn next_line(cs: &[char], pos: usize) -> (r: (usize, usize))
    requires
        pos < cs@.len(),
    ensures
        pos <= r.0 <= r.1 <= cs@.len(),
        r.1 > pos,
        lines(cs@.subrange(pos as int, cs@.len() as int)) == seq![cs@.subrange(pos as int, r.0 as int)]
            + lines(cs@.subrange(r.1 as int, cs@.len() as int)),
{
    let n: usize = cs.len();
    let ghost t = cs@.subrange(pos as int, n as int);
    proof { lemma_first_index_suffix(cs@, '\n', pos as int, 0); }
    match find_char(cs, '\n', pos, n) {
        None => {
            assert(cs@.subrange(n as int, n as int).len() == 0);
            assert(lines(cs@.subrange(n as int, n as int)) =~= Seq::<Seq<char>>::empty());
            assert(lines(t) =~= seq![t]);
            (n, n)
        },
        Some(i) => {
            proof { lemma_first_index_props(cs@, '\n', pos as int); }
            let mut end: usize = i;
            if i > pos && cs[i - 1] == '\r' {
                end = i - 1;
            }
            let ghost line = t.subrange(0, i - pos);
            assert(line =~= cs@.subrange(pos as int, i as int));
            assert(t.subrange(i - pos + 1, t.len() as int) =~= cs@.subrange(i + 1, n as int));
            if i > pos && cs[i - 1] == '\r' {
                assert(line.drop_last() =~= cs@.subrange(pos as int, end as int));
            }
            (end, i + 1)
        },
    }
}


/// Whether `needle` occurs in `hay`.
pub fn str_contains(hay: &str, needle: &str) -> (r: bool)
    ensures
        r == seq_contains(hay@, needle@),
{
    let h: Vec<char> = chars_of(hay);
    let nd: Vec<char> = chars_of(needle);
    let hn: usize = h.len();
    let nn: usize = nd.len();
    if nn > hn {
        assert forall|i: int| !occurs_at(hay@, needle@, i) by {}
        return false;
    }
    let mut i: usize = 0;
    while i <= hn - nn
        invariant
            h@ == hay@,
            nd@ == needle@,
            hn == h@.len(),
            nn == nd@.len(),
            nn <= hn,
            i <= hn - nn + 1,
            forall|k: int| 0 <= k < i ==> !occurs_at(hay@, needle@, k),
        decreases hn - nn + 1 - i,
    {
        let mut j: usize = 0;
        while j < nn && h[i + j] == nd[j]
            invariant
                h@ == hay@,
                nd@ == needle@,
                hn == h@.len(),
                nn == nd@.len(),
                i + nn <= hn,
                j <= nn,
                forall|k: int| 0 <= k < j ==> h@[i + k] == nd@[k],
            decreases nn - j,
        {
            j = j + 1;
        }
        if j == nn {
            assert(hay@.subrange(i as int, i + nn) =~= needle@);
            assert(occurs_at(hay@, needle@, i as int));
            return true;
        }
        assert(hay@.subrange(i as int, i + nn)[j as int] != needle@[j as int]);
        i = i + 1;
    }
    assert forall|k: int| !occurs_at(hay@, needle@, k) by {
        if 0 <= k && k + needle@.len() <= hay@.len() {
            assert(k < i);
        }
    }
    false
}


/// Value of an ASCII decimal digit.
pub open spec fn digit_value(c: char) -> Option<nat> {
    if '0' <= c && c <= '9' {
        Some((c as u32 - '0' as u32) as nat)
    } else {
        None
    }
}

/// Decimal value of `d` read after `acc`, if every character is a digit and
/// no prefix exceeds `max`.
pub open spec fn decimal_scan(d: Seq<char>, acc: nat, max: nat) -> Option<nat>
    decreases d.len(),
{
    if d.len() == 0 {
        Some(acc)
    } else {
        match digit_value(d[0]) {
            None => None,
            Some(x) => if acc * 10 + x > max {
                None
            } else {
                decimal_scan(d.drop_first(), acc * 10 + x, max)
            },
        }
    }
}

/// `str::parse` for an unsigned type whose maximum is `max`: an optional
/// `+`, then at least one decimal digit, with a value at most `max`.
pub open spec fn parse_unsigned(s: Seq<char>, max: nat) -> Option<nat> {
    if s.len() == 0 {
        None
    } else if (s[0] == '+' || s[0] == '-') && s.len() == 1 {
        None
    } else if s[0] == '+' {
        decimal_scan(s.drop_first(), 0, max)
    } else {
        decimal_scan(s, 0, max)
    }
}

/// The value of the decimal text `cs[lo..hi]`, if it is at most `max`.
pub fn parse_unsigned_chars(cs: &[char], lo: usize, hi: usize, max: u64) -> (r: Option<u64>)
    requires
        lo <= hi <= cs@.len(),
    ensures
        r matches Some(v) ==> parse_unsigned(cs@.subrange(lo as int, hi as int), max as nat) == Some(v as nat),
        r is None ==> parse_unsigned(cs@.subrange(lo as int, hi as int), max as nat) is None,
        r matches Some(v) ==> v <= max,
{
    let ghost s = cs@.subrange(lo as int, hi as int);
    if lo == hi {
        return None;
    }
    if (cs[lo] == '+' || cs[lo] == '-') && hi - lo == 1 {
        return None;
    }
    let mut i: usize = lo;
    if cs[lo] == '+' {
        i = lo + 1;
        assert(s.drop_first() =~= cs@.subrange(i as int, hi as int));
    } else {
        assert(s =~= cs@.subrange(i as int, hi as int));
    }
    let mut acc: u64 = 0;
    while i < hi
        invariant
            lo <= i <= hi <= cs@.len(),
            acc <= max,
            s == cs@.subrange(lo as int, hi as int),
            parse_unsigned(s, max as nat) == decimal_scan(cs@.subrange(i as int, hi as int), acc as nat, max as nat),
        decreases hi - i,
    {
        let c: char = cs[i];
        assert(cs@.subrange(i as int, hi as int)[0] == c);
        assert(cs@.subrange(i as int, hi as int).drop_first() =~= cs@.subrange(i + 1, hi as int));
        if c < '0' || c > '9' {
            assert(digit_value(c) is None);
            return None;
        }
        let x: u64 = ((c as u32) - ('0' as u32)) as u64;
        assert(digit_value(c) == Some(x as nat));
        if x > max {
            return None;
        }
        if acc > (max - x) / 10 {
            assert(acc * 10 + x > max) by (nonlinear_arith)
                requires
                    acc > (max - x) / 10,
                    x <= max,
            {
            }
            return None;
        }
        assert(acc * 10 + x <= max) by (nonlinear_arith)
            requires
                acc <= (max - x) / 10,
                x <= max,
        {
        }
        acc = acc * 10 + x;
        i = i + 1;
    }
    Some(acc)
}


/// `c` with an ASCII upper-case letter turned to lower case.
pub open spec fn ascii_lower(c: char) -> char {
    if 'A' <= c && c <= 'Z' {
        ((c as u32) + 32) as char
    } else {
        c
    }
}

/// `c` with an ASCII lower-case letter turned to upper case.
pub open spec fn ascii_upper(c: char) -> char {
    if 'a' <= c && c <= 'z' {
        ((c as u32) - 32) as char
    } else {
        c
    }
}

/// `char::to_ascii_lowercase`.
pub fn to_ascii_lower(c: char) -> (r: char)
    ensures
        r == ascii_lower(c),
{
    if 'A' <= c && c <= 'Z' {
        let b: u8 = (c as u8) + 32;
        b as char
    } else {
        c
    }
}

/// `char::to_ascii_uppercase`.
pub fn to_ascii_upper(c: char) -> (r: char)
    ensures
        r == ascii_upper(c),
{
    if 'a' <= c && c <= 'z' {
        let b: u8 = (c as u8) - 32;
        b as char
    } else {
        c
    }
}

/// Equality up to ASCII case, as `str::eq_ignore_ascii_case`.
pub open spec fn eq_ignore_ascii_case(a: Seq<char>, b: Seq<char>) -> bool {
    a.len() == b.len() && forall|i: int| 0 <= i < a.len() ==> ascii_lower(#[trigger] a[i]) == ascii_lower(b[i])
}

/// Whether `s` starts with `prefix` up to ASCII case.
pub open spec fn starts_with_ignore_ascii_case(s: Seq<char>, prefix: Seq<char>) -> bool {
    prefix.len() <= s.len() && eq_ignore_ascii_case(s.subrange(0, prefix.len() as int), prefix)
}

/// Whether `cs[lo..hi]` starts with `prefix` up to ASCII case.
pub fn range_starts_with_ignore_ascii_case(cs: &[char], lo: usize, hi: usize, prefix: &str) -> (r: bool)
    requires
        lo <= hi <= cs@.len(),
    ensures
        r == starts_with_ignore_ascii_case(cs@.subrange(lo as int, hi as int), prefix@),
{
    let p: Vec<char> = chars_of(prefix);
    let m: usize = p.len();
    if m > hi - lo {
        return false;
    }
    let ghost sub = cs@.subrange(lo as int, hi as int).subrange(0, m as int);
    let mut i: usize = 0;
    while i < m
        invariant
            p@ == prefix@,
            m == p@.len(),
            lo + m <= hi <= cs@.len(),
            i <= m,
            sub == cs@.subrange(lo as int, hi as int).subrange(0, m as int),
            forall|k: int| 0 <= k < i ==> ascii_lower(#[trigger] sub[k]) == ascii_lower(p@[k]),
        decreases m - i,
    {
        let a: char = to_ascii_lower(cs[lo + i]);
        let b: char = to_ascii_lower(p[i]);
        assert(sub[i as int] == cs@[lo + i]);
        if a != b {
            return false;
        }
        i = i + 1;
    }
    true
}

/// Whether `cs[lo..hi]` equals `word` up to ASCII case.
pub fn range_eq_ignore_ascii_case(cs: &[char], lo: usize, hi: usize, word: &str) -> (r: bool)
    requires
        lo <= hi <= cs@.len(),
    ensures
        r == eq_ignore_ascii_case(cs@.subrange(lo as int, hi as int), word@),
{
    if word.unicode_len() != hi - lo {
        return false;
    }
    let r: bool = range_starts_with_ignore_ascii_case(cs, lo, hi, word);
    assert(cs@.subrange(lo as int, hi as int).subrange(0, word@.len() as int) =~= cs@.subrange(lo as int, hi as int));
    r
}


/// Whether `s` starts with `prefix`.
pub fn str_starts_with(s: &str, prefix: &str) -> (r: bool)
    ensures
        r == starts_with(s@, prefix@),
{
    let n: usize = s.unicode_len();
    let m: usize = prefix.unicode_len();
    if m > n {
        return false;
    }
    let mut i: usize = 0;
    while i < m
        invariant
            m <= n,
            n == s@.len(),
            m == prefix@.len(),
            i <= m,
            forall|k: int| 0 <= k < i ==> s@[k] == prefix@[k],
        decreases m - i,
    {
        if s.get_char(i) != prefix.get_char(i) {
            assert(s@.subrange(0, m as int)[i as int] != prefix@[i as int]);
            return false;
        }
        i = i + 1;
    }
    assert(s@.subrange(0, m as int) =~= prefix@);
    true
}

/// Whether `s` ends with `suffix`.
pub fn str_ends_with(s: &str, suffix: &str) -> (r: bool)
    ensures
        r == ends_with(s@, suffix@),
{
    let n: usize = s.unicode_len();
    let m: usize = suffix.unicode_len();
    if m > n {
        return false;
    }
    let off: usize = n - m;
    let mut i: usize = 0;
    while i < m
        invariant
            m <= n,
            off == n - m,
            n == s@.len(),
            m == suffix@.len(),
            i <= m,
            forall|k: int| 0 <= k < i ==> s@[off + k] == suffix@[k],
        decreases m - i,
    {
        if s.get_char(off + i) != suffix.get_char(i) {
            assert(s@.subrange(off as int, n as int)[i as int] != suffix@[i as int]);
            return false;
        }
        i = i + 1;
    }
    assert(s@.subrange(off as int, n as int) =~= suffix@);
    true
}

} // verus!
