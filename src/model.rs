//! The mathematical model of an interval set: a sequence of closed
//! intervals `(low, high)` over the integers.
use vstd::prelude::*;
use crate::text::decimal;

verus! {

/// Every interval is non-empty, and every interval ends more than one
/// below the start of each later one: the intervals are sorted, pairwise
/// disjoint and never adjacent.
pub open spec fn canonical(s: Seq<(int, int)>) -> bool {
    &&& forall|i: int| 0 <= i < s.len() ==> s[i].0 <= s[i].1
    &&& forall|i: int, j: int| 0 <= i < j < s.len() ==> s[i].1 + 1 < s[j].0
}

/// `v` lies within one of the intervals.
pub open spec fn covers(s: Seq<(int, int)>, v: int) -> bool {
    exists|i: int| 0 <= i < s.len() && (#[trigger] s[i]).0 <= v <= s[i].1
}

/// The integers that the intervals cover.
pub open spec fn values(s: Seq<(int, int)>) -> Set<int> {
    Set::new(|v: int| covers(s, v))
}

/// The text of one interval: `low`, or `low-high` when the bounds differ.
pub open spec fn unit_text(u: (int, int)) -> Seq<char> {
    if u.0 == u.1 {
        decimal(u.0)
    } else {
        decimal(u.0) + seq!['-'] + decimal(u.1)
    }
}

/// The intervals' texts in order, separated by commas.
pub open spec fn text_of(s: Seq<(int, int)>) -> Seq<char>
    decreases s.len(),
{
    if s.len() == 0 {
        Seq::empty()
    } else if s.len() == 1 {
        unit_text(s[0])
    } else {
        text_of(s.drop_last()) + seq![','] + unit_text(s.last())
    }
}

/// The canonical form of a set of integers is unique: two canonical
/// sequences of intervals that cover the same integers are equal, and so
/// is their text. What an interval set holds, and how it prints, thus
/// depends only on which values were inserted, never on their order.
pub proof fn lemma_canonical_unique(a: Seq<(int, int)>, b: Seq<(int, int)>)
    requires
        canonical(a),
        canonical(b),
        values(a) == values(b),
    ensures
        a == b,
        text_of(a) == text_of(b),
    decreases a.len(),
{
    if a.len() == 0 || b.len() == 0 {
        if b.len() > 0 {
            assert(values(b).contains(b[0].0));
        }
        if a.len() > 0 {
            assert(values(a).contains(a[0].0));
        }
        assert(a =~= b);
    } else {
        let a0 = a[0];
        let b0 = b[0];
        assert(values(a).contains(a0.0));
        assert(values(b).contains(b0.0));
        assert(a0.0 == b0.0) by {
            let k = choose|k: int| 0 <= k < b.len() && (#[trigger] b[k]).0 <= a0.0 <= b[k].1;
            if k > 0 {
                assert(b0.1 + 1 < b[k].0);
            }
            let m = choose|m: int| 0 <= m < a.len() && (#[trigger] a[m]).0 <= b0.0 <= a[m].1;
            if m > 0 {
                assert(a0.1 + 1 < a[m].0);
            }
        }
        assert(a0.1 == b0.1) by {
            if a0.1 < b0.1 {
                let x = a0.1 + 1;
                assert(values(b).contains(x));
                let m = choose|m: int| 0 <= m < a.len() && (#[trigger] a[m]).0 <= x <= a[m].1;
                if m > 0 {
                    assert(a0.1 + 1 < a[m].0);
                }
            }
            if b0.1 < a0.1 {
                let x = b0.1 + 1;
                assert(values(a).contains(x));
                let m = choose|m: int| 0 <= m < b.len() && (#[trigger] b[m]).0 <= x <= b[m].1;
                if m > 0 {
                    assert(b0.1 + 1 < b[m].0);
                }
            }
        }
        let ra = a.drop_first();
        let rb = b.drop_first();
        assert(canonical(ra));
        assert(canonical(rb));
        assert forall|x: int| covers(ra, x) == (covers(a, x) && x > a0.1) by {
            if covers(ra, x) {
                let k = choose|k: int| 0 <= k < ra.len() && (#[trigger] ra[k]).0 <= x <= ra[k].1;
                assert(a[k + 1] == ra[k]);
                assert(a0.1 + 1 < a[k + 1].0);
            }
            if covers(a, x) && x > a0.1 {
                let k = choose|k: int| 0 <= k < a.len() && (#[trigger] a[k]).0 <= x <= a[k].1;
                assert(k != 0);
                assert(ra[k - 1] == a[k]);
            }
        }
        assert forall|x: int| covers(rb, x) == (covers(b, x) && x > b0.1) by {
            if covers(rb, x) {
                let k = choose|k: int| 0 <= k < rb.len() && (#[trigger] rb[k]).0 <= x <= rb[k].1;
                assert(b[k + 1] == rb[k]);
                assert(b0.1 + 1 < b[k + 1].0);
            }
            if covers(b, x) && x > b0.1 {
                let k = choose|k: int| 0 <= k < b.len() && (#[trigger] b[k]).0 <= x <= b[k].1;
                assert(k != 0);
                assert(rb[k - 1] == b[k]);
            }
        }
        assert forall|x: int| values(ra).contains(x) == values(rb).contains(x) by {
            assert(values(a).contains(x) == values(b).contains(x));
            assert(values(a).contains(x) == covers(a, x));
            assert(values(b).contains(x) == covers(b, x));
            assert(covers(ra, x) == (covers(a, x) && x > a0.1));
            assert(covers(rb, x) == (covers(b, x) && x > b0.1));
        }
        assert(values(ra) =~= values(rb));
        lemma_canonical_unique(ra, rb);
        assert(a =~= seq![a0] + ra);
        assert(b =~= seq![b0] + rb);
    }
}

/// Insertion order does not matter: let `a` hold the intervals left by
/// inserting the values of `vs` one by one into an empty set, and `b`
/// those left by inserting a rearrangement `ws` of the same values. Each
/// is canonical and covers exactly the values inserted (the contract of
/// `Ranger::insert`), so the two are equal and print the same text.
pub proof fn lemma_order_independence(
    vs: Seq<int>,
    ws: Seq<int>,
    a: Seq<(int, int)>,
    b: Seq<(int, int)>,
)
    requires
        ws.to_multiset() == vs.to_multiset(),
        canonical(a),
        values(a) == vs.to_set(),
        canonical(b),
        values(b) == ws.to_set(),
    ensures
        a == b,
        text_of(a) == text_of(b),
{
    assert forall|x: int| vs.to_set().contains(x) == ws.to_set().contains(x) by {
        vstd::seq_lib::to_multiset_contains(vs, x);
        vstd::seq_lib::to_multiset_contains(ws, x);
    }
    assert(values(a) =~= values(b));
    lemma_canonical_unique(a, b);
}

} // verus!
