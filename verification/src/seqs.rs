//! Facts about sequence filters and sorted string lists.

use vstd::prelude::*;
use crate::text::{seq_le, seq_lt, str_lt};

verus! {

/// Extending a prefix by one element extends its filter by that element
/// exactly when the element passes.
pub proof fn lemma_filter_take_step<A>(s: Seq<A>, pred: spec_fn(A) -> bool, i: int)
    requires
        0 <= i < s.len(),
    ensures
        s.take(i + 1).filter(pred) == (if pred(s[i]) {
            s.take(i).filter(pred).push(s[i])
        } else {
            s.take(i).filter(pred)
        }),
{
    reveal(Seq::filter);
    assert(s.take(i + 1).drop_last() =~= s.take(i));
}

/// The filter of a whole sequence is the filter of its full prefix.
pub proof fn lemma_take_full<A>(s: Seq<A>)
    ensures
        s.take(s.len() as int) == s,
{
    assert(s.take(s.len() as int) =~= s);
}

/// Filtering keeps only passing elements.
pub proof fn lemma_filter_all<A>(s: Seq<A>, pred: spec_fn(A) -> bool)
    ensures
        forall|i: int| 0 <= i < s.filter(pred).len() ==> pred(#[trigger] s.filter(pred)[i]),
        s.filter(pred).len() <= s.len(),
{
    broadcast use vstd::seq_lib::group_filter_ensures;
}

/// The filter is empty exactly when no element passes.
pub proof fn lemma_filter_empty<A>(s: Seq<A>, pred: spec_fn(A) -> bool)
    ensures
        (s.filter(pred).len() == 0) == (forall|i: int| 0 <= i < s.len() ==> !pred(#[trigger] s[i])),
    decreases s.len(),
{
    reveal(Seq::filter);
    if s.len() > 0 {
        lemma_filter_empty(s.drop_last(), pred);
        if forall|i: int| 0 <= i < s.len() ==> !pred(#[trigger] s[i]) {
            assert forall|i: int| 0 <= i < s.drop_last().len() implies !pred(#[trigger] s.drop_last()[i]) by {
                assert(s.drop_last()[i] == s[i]);
            }
        } else {
            let k = choose|i: int| 0 <= i < s.len() && pred(#[trigger] s[i]);
            if k < s.len() - 1 {
                assert(s.drop_last()[k] == s[k]);
            }
        }
    }
}

/// Whether the texts are sorted strictly.
pub open spec fn strictly_sorted(s: Seq<Seq<char>>) -> bool {
    forall|i: int, j: int| 0 <= i < j < s.len() ==> seq_lt(#[trigger] s[i], #[trigger] s[j])
}

/// Whether the texts are sorted, allowing ties.
pub open spec fn sorted_texts(s: Seq<Seq<char>>) -> bool {
    forall|i: int, j: int| 0 <= i < j < s.len() ==> seq_le(#[trigger] s[i], #[trigger] s[j])
}

/// `seq_lt` is irreflexive.
pub proof fn lemma_seq_lt_irreflexive(a: Seq<char>)
    ensures
        !seq_lt(a, a),
    decreases a.len(),
{
    if a.len() > 0 {
        lemma_seq_lt_irreflexive(a.drop_first());
    }
}

/// `seq_lt` is transitive.
pub proof fn lemma_seq_lt_transitive(a: Seq<char>, b: Seq<char>, c: Seq<char>)
    requires
        seq_lt(a, b),
        seq_lt(b, c),
    ensures
        seq_lt(a, c),
    decreases a.len(),
{
    if a.len() > 0 && b.len() > 0 && c.len() > 0 && a[0] == b[0] && b[0] == c[0] {
        lemma_seq_lt_transitive(a.drop_first(), b.drop_first(), c.drop_first());
    }
}

/// `seq_lt` is total on distinct texts.
pub proof fn lemma_seq_lt_total(a: Seq<char>, b: Seq<char>)
    ensures
        a == b || seq_lt(a, b) || seq_lt(b, a),
    decreases a.len(),
{
    if a.len() > 0 && b.len() > 0 && a[0] == b[0] {
        lemma_seq_lt_total(a.drop_first(), b.drop_first());
        if a.drop_first() == b.drop_first() {
            assert(a =~= seq![a[0]] + a.drop_first());
            assert(b =~= seq![b[0]] + b.drop_first());
        }
    } else if a.len() == 0 && b.len() == 0 {
        assert(a =~= b);
    } else if a.len() > 0 && b.len() > 0 {
    }
}

/// `seq_lt` is asymmetric.
pub proof fn lemma_seq_lt_asymmetric(a: Seq<char>, b: Seq<char>)
    requires
        seq_lt(a, b),
    ensures
        !seq_lt(b, a),
{
    if seq_lt(b, a) {
        lemma_seq_lt_transitive(a, b, a);
        lemma_seq_lt_irreflexive(a);
    }
}

/// Inserts `x` into a strictly sorted list of texts, unless present.
pub fn insert_sorted_unique(v: &mut Vec<String>, x: String)
    requires
        strictly_sorted(old(v)@.map_values(|s: String| s@)),
    ensures
        strictly_sorted(final(v)@.map_values(|s: String| s@)),
        final(v)@.map_values(|s: String| s@).to_set() == old(v)@.map_values(|s: String| s@).to_set().insert(x@),
{
    let ghost old_views = v@.map_values(|s: String| s@);
    let mut i: usize = 0;
    while i < v.len() && str_lt(v[i].as_str(), x.as_str())
        invariant
            i <= v@.len(),
            v@.map_values(|s: String| s@) == old_views,
            strictly_sorted(old_views),
            forall|j: int| 0 <= j < i ==> seq_lt(#[trigger] old_views[j], x@),
        decreases v@.len() - i,
    {
        i = i + 1;
    }
    if i < v.len() && crate::text::str_equal(v[i].as_str(), x.as_str()) {
        assert(old_views.to_set() =~= old_views.to_set().insert(x@)) by {
            assert(old_views[i as int] == x@);
            assert(old_views.contains(x@));
        }
        return;
    }
    proof {
        if i < v@.len() {
            lemma_seq_lt_total(old_views[i as int], x@);
        }
    }
    v.insert(i, x);
    let ghost nv = v@.map_values(|s: String| s@);
    assert(nv =~= old_views.insert(i as int, x@));
    assert forall|a: int, b: int| 0 <= a < b < nv.len() implies seq_lt(#[trigger] nv[a], #[trigger] nv[b]) by {
        if b < i {
        } else if a < i && b == i {
        } else if a < i && b > i {
            assert(seq_lt(old_views[a], x@));
            lemma_seq_lt_total(old_views[i as int], x@);
            if b - 1 > i {
                assert(seq_lt(old_views[i as int], old_views[b - 1]));
                lemma_seq_lt_transitive(x@, old_views[i as int], old_views[b - 1]);
            }
            lemma_seq_lt_transitive(old_views[a], x@, old_views[b - 1]);
        } else if a == i {
            lemma_seq_lt_total(old_views[i as int], x@);
            if b - 1 > i {
                lemma_seq_lt_transitive(x@, old_views[i as int], old_views[b - 1]);
            }
        } else {
        }
    }
    assert(nv.to_set() =~= old_views.to_set().insert(x@)) by {
        assert forall|e: Seq<char>| nv.contains(e) <==> (old_views.contains(e) || e == x@) by {
            if nv.contains(e) {
                let k = choose|k: int| 0 <= k < nv.len() && nv[k] == e;
                if k < i {
                    assert(old_views[k] == e);
                } else if k > i {
                    assert(old_views[k - 1] == e);
                }
            }
            if old_views.contains(e) {
                let k = choose|k: int| 0 <= k < old_views.len() && old_views[k] == e;
                if k < i {
                    assert(nv[k] == e);
                } else {
                    assert(nv[k + 1] == e);
                }
            }
            if e == x@ {
                assert(nv[i as int] == e);
            }
        }
    }
}


/// Two strictly sorted lists of texts with the same elements are equal.
pub proof fn lemma_strictly_sorted_unique(a: Seq<Seq<char>>, b: Seq<Seq<char>>)
    requires
        strictly_sorted(a),
        strictly_sorted(b),
        a.to_set() == b.to_set(),
    ensures
        a == b,
    decreases a.len(),
{
    if a.len() == 0 {
        if b.len() > 0 {
            assert(b.to_set().contains(b[0]));
            assert(!a.to_set().contains(b[0]));
        }
        assert(a =~= b);
    } else if b.len() == 0 {
        assert(a.to_set().contains(a[0]));
    } else {
        assert(a.to_set().contains(a[0]));
        assert(b.to_set().contains(b[0]));
        let ia = choose|i: int| 0 <= i < a.len() && a[i] == b[0];
        let ib = choose|i: int| 0 <= i < b.len() && b[i] == a[0];
        if ia > 0 {
            assert(seq_lt(a[0], a[ia]));
            if ib > 0 {
                assert(seq_lt(b[0], b[ib]));
                lemma_seq_lt_asymmetric(a[0], b[0]);
            } else {
                lemma_seq_lt_irreflexive(a[0]);
            }
        } else if ib > 0 {
            assert(seq_lt(b[0], b[ib]));
            lemma_seq_lt_irreflexive(b[0]);
        }
        assert(a[0] == b[0]);
        let ta = a.drop_first();
        let tb = b.drop_first();
        assert forall|x: Seq<char>| ta.to_set().contains(x) <==> tb.to_set().contains(x) by {
            if ta.to_set().contains(x) {
                let k = choose|k: int| 0 <= k < ta.len() && ta[k] == x;
                assert(a[k + 1] == x);
                assert(seq_lt(a[0], x));
                assert(a.to_set().contains(x));
                let m = choose|m: int| 0 <= m < b.len() && b[m] == x;
                if m == 0 {
                    lemma_seq_lt_irreflexive(x);
                }
                assert(tb[m - 1] == x);
            }
            if tb.to_set().contains(x) {
                let k = choose|k: int| 0 <= k < tb.len() && tb[k] == x;
                assert(b[k + 1] == x);
                assert(seq_lt(b[0], x));
                assert(b.to_set().contains(x));
                let m = choose|m: int| 0 <= m < a.len() && a[m] == x;
                if m == 0 {
                    lemma_seq_lt_irreflexive(x);
                }
                assert(ta[m - 1] == x);
            }
        }
        assert(ta.to_set() =~= tb.to_set());
        lemma_strictly_sorted_unique(ta, tb);
        assert(a =~= seq![a[0]] + ta);
        assert(b =~= seq![b[0]] + tb);
    }
}

} // verus!
