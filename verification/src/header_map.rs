//! Header tables: a vector of name/value pairs with distinct names, used as
//! a map from name to value.
use vstd::prelude::*;
use crate::text::str_eq;

verus! {

broadcast use vstd::string::group_string_axioms;

/// The pairs of a header table as character sequences.
pub open spec fn pairs_of(h: Seq<(String, String)>) -> Seq<(Seq<char>, Seq<char>)> {
    Seq::new(h.len(), |i: int| (h[i].0@, h[i].1@))
}

/// No name occurs twice.
pub open spec fn keys_unique(p: Seq<(Seq<char>, Seq<char>)>) -> bool {
    forall|i: int, j: int| 0 <= i < j < p.len() ==> #[trigger] p[i].0 != #[trigger] p[j].0
}

/// The map from name to value that the pairs hold, later pairs winning.
pub open spec fn map_of(p: Seq<(Seq<char>, Seq<char>)>) -> Map<Seq<char>, Seq<char>>
    decreases p.len(),
{
    if p.len() == 0 {
        Map::empty()
    } else {
        map_of(p.drop_last()).insert(p.last().0, p.last().1)
    }
}

/// A name is in the map exactly when some pair carries it.
pub proof fn lemma_map_of_dom(p: Seq<(Seq<char>, Seq<char>)>, k: Seq<char>)
    ensures
        map_of(p).dom().contains(k) <==> exists|i: int| 0 <= i < p.len() && #[trigger] p[i].0 == k,
    decreases p.len(),
{
    if p.len() > 0 {
        lemma_map_of_dom(p.drop_last(), k);
        if map_of(p.drop_last()).dom().contains(k) {
            let i = choose|i: int| 0 <= i < p.drop_last().len() && #[trigger] p.drop_last()[i].0 == k;
            assert(p[i].0 == k);
        }
        if exists|i: int| 0 <= i < p.len() && #[trigger] p[i].0 == k {
            let i = choose|i: int| 0 <= i < p.len() && #[trigger] p[i].0 == k;
            if i < p.len() - 1 {
                assert(p.drop_last()[i].0 == k);
            }
        }
    }
}

/// With distinct names, the value of the pair that carries a name is the
/// map's value for it.
pub proof fn lemma_map_of_index(p: Seq<(Seq<char>, Seq<char>)>, i: int)
    requires
        keys_unique(p),
        0 <= i < p.len(),
    ensures
        map_of(p).dom().contains(p[i].0),
        map_of(p)[p[i].0] == p[i].1,
    decreases p.len(),
{
    if i < p.len() - 1 {
        let q = p.drop_last();
        assert(keys_unique(q)) by {
            assert forall|a: int, b: int| 0 <= a < b < q.len() implies #[trigger] q[a].0 != #[trigger] q[b].0 by {
                assert(q[a] == p[a] && q[b] == p[b]);
            }
        }
        lemma_map_of_index(q, i);
        assert(q[i] == p[i]);
        assert(p.last().0 != p[i].0) by {
            assert(p[i].0 != p[p.len() - 1].0);
        }
    }
}

/// Replacing the value of the pair that carries a name is inserting into
/// the map.
pub proof fn lemma_map_of_update(p: Seq<(Seq<char>, Seq<char>)>, i: int, v: Seq<char>)
    requires
        keys_unique(p),
        0 <= i < p.len(),
    ensures
        map_of(p.update(i, (p[i].0, v))) == map_of(p).insert(p[i].0, v),
        keys_unique(p.update(i, (p[i].0, v))),
    decreases p.len(),
{
    let k = p[i].0;
    let q = p.update(i, (k, v));
    assert(keys_unique(q)) by {
        assert forall|a: int, b: int| 0 <= a < b < q.len() implies #[trigger] q[a].0 != #[trigger] q[b].0 by {
            assert(q[a].0 == p[a].0 && q[b].0 == p[b].0);
        }
    }
    if i == p.len() - 1 {
        assert(q.drop_last() =~= p.drop_last());
        assert(map_of(q) =~= map_of(p).insert(k, v));
    } else {
        let pd = p.drop_last();
        assert(keys_unique(pd)) by {
            assert forall|a: int, b: int| 0 <= a < b < pd.len() implies #[trigger] pd[a].0 != #[trigger] pd[b].0 by {
                assert(pd[a] == p[a] && pd[b] == p[b]);
            }
        }
        assert(q.drop_last() =~= pd.update(i, (pd[i].0, v)));
        lemma_map_of_update(pd, i, v);
        assert(p.last().0 != k) by {
            assert(p[i].0 != p[p.len() - 1].0);
        }
        assert(map_of(q) =~= map_of(p).insert(k, v));
    }
}

/// Index of the pair that carries `k`, if any.
pub fn header_index(h: &Vec<(String, String)>, k: &str) -> (r: Option<usize>)
    ensures
        r matches Some(i) ==> i < h@.len() && h@[i as int].0@ == k@,
        r is None ==> forall|i: int| 0 <= i < h@.len() ==> #[trigger] h@[i].0@ != k@,
{
    let mut i: usize = 0;
    while i < h.len()
        invariant
            i <= h@.len(),
            forall|j: int| 0 <= j < i ==> #[trigger] h@[j].0@ != k@,
        decreases h@.len() - i,
    {
        if str_eq(h[i].0.as_str(), k) {
            return Some(i);
        }
        i = i + 1;
    }
    None
}

/// Looks `k` up in a header table.
pub fn header_get<'a>(h: &'a Vec<(String, String)>, k: &str) -> (r: Option<&'a String>)
    requires
        keys_unique(pairs_of(h@)),
    ensures
        r is Some <==> map_of(pairs_of(h@)).dom().contains(k@),
        r matches Some(v) ==> v@ == map_of(pairs_of(h@))[k@],
{
    let ghost p = pairs_of(h@);
    proof { lemma_map_of_dom(p, k@); }
    match header_index(h, k) {
        Some(i) => {
            proof { lemma_map_of_index(p, i as int); }
            Some(&h[i].1)
        },
        None => {
            assert forall|i: int| 0 <= i < p.len() implies #[trigger] p[i].0 != k@ by {
                assert(p[i].0 == h@[i].0@);
            }
            None
        },
    }
}

/// Sets the value of `k`, replacing the pair that carries it or adding one.
pub fn header_insert(h: &mut Vec<(String, String)>, k: String, v: String)
    requires
        keys_unique(pairs_of(old(h)@)),
    ensures
        keys_unique(pairs_of(final(h)@)),
        map_of(pairs_of(final(h)@)) == map_of(pairs_of(old(h)@)).insert(k@, v@),
{
    let ghost p = pairs_of(h@);
    match header_index(h, k.as_str()) {
        Some(i) => {
            let ghost vv = v@;
            h.set(i, (k, v));
            proof {
                lemma_map_of_update(p, i as int, vv);
                assert(pairs_of(h@) =~= p.update(i as int, (p[i as int].0, vv)));
            }
        },
        None => {
            let ghost kk = k@;
            let ghost vv = v@;
            h.push((k, v));
            proof {
                assert(pairs_of(h@) =~= p.push((kk, vv)));
                assert(pairs_of(h@).drop_last() =~= p);
                assert forall|a: int, b: int| 0 <= a < b < pairs_of(h@).len() implies
                    #[trigger] pairs_of(h@)[a].0 != #[trigger] pairs_of(h@)[b].0 by {
                    if b == p.len() {
                        assert(pairs_of(h@)[a].0 == h@[a].0@);
                    } else {
                        assert(pairs_of(h@)[a] == p[a] && pairs_of(h@)[b] == p[b]);
                    }
                }
            }
        },
    }
}

} // verus!
