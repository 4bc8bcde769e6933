//! GREASE values (RFC 8701): reserved cipher-suite and extension codes that
//! clients insert at random and that comparisons ignore.
use vstd::prelude::*;

verus! {

/// The sixteen GREASE values 0x0a0a, 0x1a1a, ..., 0xfafa.
pub const TLS_GREASE_VALUES: [u16; 16] = [
    0x0a0a, 0x1a1a, 0x2a2a, 0x3a3a, 0x4a4a, 0x5a5a, 0x6a6a, 0x7a7a, 0x8a8a, 0x9a9a, 0xaaaa, 0xbaba,
    0xcaca, 0xdada, 0xeaea, 0xfafa,
];

/// Whether `v` is one of the GREASE values 0x0a0a + 0x1010 * k, k in 0..16
/// (for a 16-bit value, those that leave 0x0a0a modulo 0x1010).
pub open spec fn spec_is_grease(v: u16) -> bool {
    v % 0x1010 == 0x0a0a
}

/// `values` without its GREASE values, in order.
pub open spec fn without_grease(values: Seq<u16>) -> Seq<u16> {
    values.filter(|v: u16| !spec_is_grease(v))
}

/// Whether `value` is a GREASE value.
pub fn is_grease_value(value: u16) -> (r: bool)
    ensures
        r == spec_is_grease(value),
{
    value % 0x1010 == 0x0a0a
}

/// `values` with the GREASE values left out, in order.
pub fn filter_grease_values(values: &[u16]) -> (r: Vec<u16>)
    ensures
        r@ == without_grease(values@),
{
    let mut out: Vec<u16> = Vec::new();
    let mut i: usize = 0;
    while i < values.len()
        invariant
            i <= values@.len(),
            out@ == without_grease(values@.subrange(0, i as int)),
        decreases values@.len() - i,
    {
        let v: u16 = values[i];
        let g: bool = is_grease_value(v);
        proof {
            let next = values@.subrange(0, i + 1);
            assert(next.drop_last() =~= values@.subrange(0, i as int));
            assert(next.last() == v);
            reveal(Seq::filter);
        }
        if !g {
            out.push(v);
        }
        i = i + 1;
    }
    assert(values@.subrange(0, values@.len() as int) =~= values@);
    out
}

/// Removes the GREASE values from `values`, keeping the others in order.
pub fn remove_grease_values(values: &mut Vec<u16>)
    ensures
        final(values)@ == without_grease(old(values)@),
{
    let kept: Vec<u16> = filter_grease_values(values.as_slice());
    *values = kept;
}

/// Every entry of the GREASE table is a GREASE value, and filtering leaves
/// no GREASE value behind.
pub proof fn lemma_grease_table_and_filter(values: Seq<u16>)
    ensures
        forall|j: int| 0 <= j < 16 ==> spec_is_grease(#[trigger] TLS_GREASE_VALUES@[j]),
        forall|j: int| 0 <= j < without_grease(values).len() ==> !spec_is_grease(#[trigger] without_grease(values)[j]),
{
    assert forall|j: int| 0 <= j < 16 implies spec_is_grease(#[trigger] TLS_GREASE_VALUES@[j]) by {
        let t = TLS_GREASE_VALUES@;
        assert(t[0] == 0x0a0a && t[1] == 0x1a1a && t[2] == 0x2a2a && t[3] == 0x3a3a);
        assert(t[4] == 0x4a4a && t[5] == 0x5a5a && t[6] == 0x6a6a && t[7] == 0x7a7a);
        assert(t[8] == 0x8a8a && t[9] == 0x9a9a && t[10] == 0xaaaa && t[11] == 0xbaba);
        assert(t[12] == 0xcaca && t[13] == 0xdada && t[14] == 0xeaea && t[15] == 0xfafa);
    }
    values.filter_lemma(|v: u16| !spec_is_grease(v));
}

/// The GREASE values are exactly the sixteen entries of the GREASE table.
pub proof fn lemma_grease_is_table_member(v: u16)
    ensures
        spec_is_grease(v) <==> TLS_GREASE_VALUES@.contains(v),
{
    lemma_grease_table_and_filter(Seq::empty());
    let t = TLS_GREASE_VALUES@;
    assert forall|j: int| 0 <= j < 16 implies #[trigger] t[j] == 0x0a0a + 0x1010 * j by {
        assert(t[0] == 0x0a0a && t[1] == 0x1a1a && t[2] == 0x2a2a && t[3] == 0x3a3a);
        assert(t[4] == 0x4a4a && t[5] == 0x5a5a && t[6] == 0x6a6a && t[7] == 0x7a7a);
        assert(t[8] == 0x8a8a && t[9] == 0x9a9a && t[10] == 0xaaaa && t[11] == 0xbaba);
        assert(t[12] == 0xcaca && t[13] == 0xdada && t[14] == 0xeaea && t[15] == 0xfafa);
    }
    if spec_is_grease(v) {
        let k: int = (v / 0x1010) as int;
        assert(v == 0x1010 * k + 0x0a0a);
        assert(0 <= k < 16);
        assert(t[k] == v);
    }
    if t.contains(v) {
        let j = choose|j: int| 0 <= j < t.len() && t[j] == v;
        assert(spec_is_grease(t[j]));
    }
}

} // verus!
