//! Recovering submission order from the driver's index-keyed pairs.
//!
//! An insert-many reports its generated identifiers as an unordered
//! collection of (submission index, identifier) pairs. [`sort_by_index`]
//! orders them by ascending index, so that a caller can read the identifier
//! for document `i` at position `i`, whatever order the driver used.

use vstd::prelude::*;
use vstd::multiset::Multiset;
use mongodb::bson::Bson;

verus! {

/// No two pairs carry the same submission index.
pub open spec fn distinct_indices(pairs: Seq<(usize, Bson)>) -> bool {
    forall|i: int, j: int|
        0 <= i < j < pairs.len() ==> (#[trigger] pairs[i]).0 != (#[trigger] pairs[j]).0
}

/// The pairs stand in ascending order of submission index.
pub open spec fn sorted_by_index(pairs: Seq<(usize, Bson)>) -> bool {
    forall|i: int, j: int| 0 <= i <= j < pairs.len() ==> pairs[i].0 <= pairs[j].0
}

/// The pairs carry each submission index `0, .., n-1` exactly once: there
/// are `n` of them, no index repeats, and every index is below `n`.
pub open spec fn complete_indices(pairs: Seq<(usize, Bson)>, n: int) -> bool {
    &&& pairs.len() == n
    &&& distinct_indices(pairs)
    &&& forall|i: int| 0 <= i < pairs.len() ==> (#[trigger] pairs[i]).0 < n
}

/// `ids` lists the identifiers of `pairs` in submission order: whenever the
/// pairs cover their index range completely, the identifier at position `i`
/// is the one paired with index `i`.
pub open spec fn orders_by_index(pairs: Seq<(usize, Bson)>, ids: Seq<Bson>) -> bool {
    &&& ids.len() == pairs.len()
    &&& complete_indices(pairs, pairs.len() as int) ==> forall|i: int|
        0 <= i < pairs.len() ==> pairs.contains((i as usize, #[trigger] ids[i]))
}

/// Position `i` of `ids` holds an identifier that some pair carries.
pub open spec fn id_at_from(pairs: Seq<(usize, Bson)>, ids: Seq<Bson>, i: int) -> bool {
    exists|j: int| 0 <= j < pairs.len() && (#[trigger] pairs[j]).1 == ids[i]
}

/// Every identifier among `ids` is one that some pair carries.
pub open spec fn ids_drawn_from(pairs: Seq<(usize, Bson)>, ids: Seq<Bson>) -> bool {
    forall|i: int| 0 <= i < ids.len() ==> #[trigger] id_at_from(pairs, ids, i)
}

/// Orders the pairs by ascending submission index: the result holds exactly
/// the given pairs, sorted on their index component.
pub fn sort_by_index(pairs: Vec<(usize, Bson)>) -> (sorted: Vec<(usize, Bson)>)
    ensures
        sorted@.to_multiset() == pairs@.to_multiset(),
        sorted@.len() == pairs@.len(),
        sorted_by_index(sorted@),
{
    let ghost orig = pairs@;
    let mut rest = pairs;
    let mut out: Vec<(usize, Bson)> = Vec::new();
    proof {
        broadcast use vstd::seq_lib::group_to_multiset_ensures;
        broadcast use vstd::multiset::group_multiset_axioms;

        assert(out@.to_multiset().len() == 0);
        assert(out@.to_multiset().add(rest@.to_multiset()) =~= orig.to_multiset());
    }
    while rest.len() > 0
        invariant
            out@.to_multiset().add(rest@.to_multiset()) == orig.to_multiset(),
            out@.len() + rest@.len() == orig.len(),
            sorted_by_index(out@),
            forall|a: int, b: int|
                0 <= a < out@.len() && 0 <= b < rest@.len() ==> (#[trigger] out@[a]).0 <= (
                #[trigger] rest@[b]).0,
        decreases rest@.len(),
    {
        let m = min_index(&rest);
        let ghost prev_rest = rest@;
        let ghost prev_out = out@;
        let x = rest.remove(m);
        out.push(x);
        proof {
            broadcast use vstd::seq_lib::group_to_multiset_ensures;
            broadcast use vstd::multiset::group_multiset_axioms;

            assert(prev_rest.contains(x));
            assert(rest@ =~= prev_rest.remove(m as int));
            assert(rest@.to_multiset() == prev_rest.to_multiset().remove(x));
            assert(out@.to_multiset() == prev_out.to_multiset().insert(x));
            assert(out@.to_multiset().add(rest@.to_multiset()) =~= prev_out.to_multiset().add(
                prev_rest.to_multiset(),
            ));
            assert forall|a: int, b: int|
                0 <= a < out@.len() && 0 <= b < rest@.len() implies (#[trigger] out@[a]).0 <= (
            #[trigger] rest@[b]).0 by {
                if b < m {
                    assert(rest@[b] == prev_rest[b]);
                } else {
                    assert(rest@[b] == prev_rest[b + 1]);
                }
            }
        }
    }
    proof {
        broadcast use vstd::seq_lib::group_to_multiset_ensures;
        broadcast use vstd::multiset::group_multiset_axioms;

        assert(rest@.to_multiset().len() == 0);
        assert(rest@.to_multiset() =~= Multiset::<(usize, Bson)>::empty());
        assert(out@.to_multiset() =~= orig.to_multiset());
    }
    out
}

/// The position of a pair with the least index among `rest`.
fn min_index(rest: &Vec<(usize, Bson)>) -> (m: usize)
    requires
        rest@.len() > 0,
    ensures
        m < rest@.len(),
        forall|k: int| 0 <= k < rest@.len() ==> rest@[m as int].0 <= (#[trigger] rest@[k]).0,
{
    let mut m: usize = 0;
    let mut i: usize = 1;
    while i < rest.len()
        invariant
            m < i,
            i <= rest@.len(),
            forall|k: int| 0 <= k < i ==> rest@[m as int].0 <= (#[trigger] rest@[k]).0,
        decreases rest@.len() - i,
    {
        if rest[i].0 < rest[m].0 {
            m = i;
        }
        i = i + 1;
    }
    m
}

/// A sequence holding the same pairs as one with distinct indices has
/// distinct indices itself.
pub proof fn lemma_distinct_indices_transfer(p: Seq<(usize, Bson)>, s: Seq<(usize, Bson)>)
    requires
        distinct_indices(p),
        s.to_multiset() == p.to_multiset(),
    ensures
        distinct_indices(s),
{
    broadcast use vstd::seq_lib::group_to_multiset_ensures;
    broadcast use vstd::multiset::group_multiset_axioms;

    assert forall|i: int, j: int|
        0 <= i < p.len() && 0 <= j < p.len() && i != j implies p[i] != p[j] by {
        if i < j {
            assert(p[i].0 != p[j].0);
        } else {
            assert(p[j].0 != p[i].0);
        }
    }
    assert(p.no_duplicates());
    p.lemma_multiset_has_no_duplicates();
    s.lemma_multiset_has_no_duplicates_conv();
    assert forall|i: int, j: int| 0 <= i < j < s.len() implies s[i].0 != s[j].0 by {
        if s[i].0 == s[j].0 {
            assert(s[i] != s[j]);
            assert(s.contains(s[i]));
            assert(s.contains(s[j]));
            assert(s.to_multiset().count(s[i]) > 0);
            assert(s.to_multiset().count(s[j]) > 0);
            assert(p.to_multiset().count(s[i]) > 0);
            assert(p.to_multiset().count(s[j]) > 0);
            assert(p.contains(s[i]));
            assert(p.contains(s[j]));
            let a = choose|a: int| 0 <= a < p.len() && p[a] == s[i];
            let b = choose|b: int| 0 <= b < p.len() && p[b] == s[j];
            assert(p[a].0 == p[b].0);
            assert(false);
        }
    }
}

/// Every pair of a sequence is a pair of any sequence holding the same
/// pairs.
pub proof fn lemma_same_pairs_membership(p: Seq<(usize, Bson)>, s: Seq<(usize, Bson)>, i: int)
    requires
        s.to_multiset() == p.to_multiset(),
        0 <= i < s.len(),
    ensures
        p.contains(s[i]),
{
    broadcast use vstd::seq_lib::group_to_multiset_ensures;
    broadcast use vstd::multiset::group_multiset_axioms;

    assert(s.contains(s[i]));
    assert(s.to_multiset().count(s[i]) > 0);
    assert(p.to_multiset().count(s[i]) > 0);
}

proof fn lemma_position_lower_bound(s: Seq<(usize, Bson)>, i: int)
    requires
        sorted_by_index(s),
        distinct_indices(s),
        0 <= i < s.len(),
    ensures
        s[i].0 >= i,
    decreases i,
{
    if i > 0 {
        lemma_position_lower_bound(s, i - 1);
        assert(s[i - 1].0 <= s[i].0);
        assert(s[i - 1].0 != s[i].0);
    }
}

proof fn lemma_position_upper_bound(s: Seq<(usize, Bson)>, n: int, i: int)
    requires
        sorted_by_index(s),
        complete_indices(s, n),
        0 <= i < n,
    ensures
        s[i].0 <= i,
    decreases n - i,
{
    if i < n - 1 {
        lemma_position_upper_bound(s, n, i + 1);
        assert(s[i].0 <= s[i + 1].0);
        assert(s[i].0 != s[i + 1].0);
    } else {
        assert(s[i].0 < n);
    }
}

/// In a sorted sequence whose pairs cover their index range completely, the
/// pair at position `i` carries index `i`.
pub proof fn lemma_sorted_complete_positional(s: Seq<(usize, Bson)>, n: int)
    requires
        sorted_by_index(s),
        complete_indices(s, n),
    ensures
        forall|i: int| 0 <= i < n ==> (#[trigger] s[i]).0 == i,
{
    assert forall|i: int| 0 <= i < n implies (#[trigger] s[i]).0 == i by {
        lemma_position_lower_bound(s, i);
        lemma_position_upper_bound(s, n, i);
    }
}

/// However the driver hands one and the same set of index-identifier pairs
/// out — in whatever iteration order — the identifier sequences ordered from
/// them agree, provided the pairs cover their index range completely.
pub proof fn lemma_ids_independent_of_report_order(
    p1: Seq<(usize, Bson)>,
    p2: Seq<(usize, Bson)>,
    ids1: Seq<Bson>,
    ids2: Seq<Bson>,
)
    requires
        p1.to_multiset() == p2.to_multiset(),
        complete_indices(p1, p1.len() as int),
        orders_by_index(p1, ids1),
        orders_by_index(p2, ids2),
    ensures
        ids1 == ids2,
{
    broadcast use vstd::seq_lib::group_to_multiset_ensures;
    broadcast use vstd::multiset::group_multiset_axioms;

    let n = p1.len() as int;
    assert(p1.to_multiset().len() == p1.len());
    assert(p2.to_multiset().len() == p2.len());
    assert(p2.len() == n);
    lemma_distinct_indices_transfer(p1, p2);
    assert forall|i: int| 0 <= i < p2.len() implies (#[trigger] p2[i]).0 < n by {
        lemma_same_pairs_membership(p1, p2, i);
        let j = choose|j: int| 0 <= j < p1.len() && p1[j] == p2[i];
        assert(p1[j].0 < n);
    }
    assert(complete_indices(p2, p2.len() as int));
    assert forall|i: int| 0 <= i < n implies ids1[i] == #[trigger] ids2[i] by {
        assert(p1.contains((i as usize, ids1[i])));
        assert(p2.contains((i as usize, ids2[i])));
        let a1 = choose|a1: int| 0 <= a1 < p1.len() && p1[a1] == (i as usize, ids1[i]);
        lemma_same_pairs_membership(p2, p1, a1);
        assert(p2.contains((i as usize, ids1[i])));
        let a = choose|a: int| 0 <= a < p2.len() && p2[a] == (i as usize, ids1[i]);
        let b = choose|b: int| 0 <= b < p2.len() && p2[b] == (i as usize, ids2[i]);
        if a < b {
            assert(p2[a].0 != p2[b].0);
        } else if b < a {
            assert(p2[b].0 != p2[a].0);
        }
        assert(a == b);
    }
    assert(ids1 =~= ids2);
}

} // verus!

