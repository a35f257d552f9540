//! The interval set: a sorted vector of units kept in canonical form.
use vstd::prelude::*;
use vstd::string::StringExecFns;
use core::cmp::Ordering;
use crate::model::{canonical, covers, text_of, unit_text, values};
use crate::unit::{unit_order, Merger, Unit};
use crate::value::Value;

verus! {

/// The integer intervals of a sequence of units.
pub(crate) open spec fn intervals<T: Value>(units: Seq<Unit<T>>) -> Seq<(int, int)> {
    units.map_values(|u: Unit<T>| u@)
}

/// A set of integers, stored as its canonical sequence of intervals.
#[derive(Debug)]
pub struct Ranger<T: Value>(Vec<Unit<T>>);

impl<T: Value> View for Ranger<T> {
    type V = Seq<(int, int)>;

    /// The intervals, in ascending order.
    closed spec fn view(&self) -> Seq<(int, int)> {
        intervals(self.0@)
    }
}

/// The index of the first unit that does not lie wholly below `probe`
/// under the search relation; every unit before it does.
fn position<T: Value>(units: &Vec<Unit<T>>, probe: &Unit<T>) -> (i: usize)
    requires
        canonical(intervals(units@)),
        probe.wf(),
    ensures
        i <= units.len(),
        forall|k: int| 0 <= k < i ==> unit_order(#[trigger] units@[k]@, probe@) == Ordering::Less,
        forall|k: int| i <= k < units.len() ==> unit_order(#[trigger] units@[k]@, probe@) != Ordering::Less,
{
    let ghost s = intervals(units@);
    let mut lo: usize = 0;
    let mut hi: usize = units.len();
    while lo < hi
        invariant
            lo <= hi <= units.len(),
            s == intervals(units@),
            canonical(s),
            probe.wf(),
            forall|k: int| 0 <= k < lo ==> unit_order(#[trigger] units@[k]@, probe@) == Ordering::Less,
            forall|k: int| hi <= k < units.len() ==> unit_order(#[trigger] units@[k]@, probe@) != Ordering::Less,
        decreases hi - lo,
    {
        let mid = lo + (hi - lo) / 2;
        assert(s[mid as int] == units@[mid as int]@);
        match units[mid].compare(probe) {
            Ordering::Less => {
                assert forall|k: int| 0 <= k < mid + 1 implies unit_order(#[trigger] units@[k]@, probe@) == Ordering::Less by {
                    assert(s[k] == units@[k]@);
                    if k < mid {
                        assert(s[k].1 + 1 < s[mid as int].0);
                    }
                }
                lo = mid + 1;
            },
            _ => {
                assert forall|k: int| mid <= k < units.len() implies unit_order(#[trigger] units@[k]@, probe@) != Ordering::Less by {
                    assert(s[k] == units@[k]@);
                    if k > mid {
                        assert(s[mid as int].1 + 1 < s[k].0);
                    }
                }
                hi = mid;
            },
        }
    }
    lo
}

/// Replacing the units `s[i..j]` by one unit `u` that lies strictly
/// between its neighbours, contains `v` and those units, and covers
/// nothing but `v` and what they cover, keeps the sequence canonical and
/// adds exactly `v` to what it covers.
proof fn lemma_splice(s: Seq<(int, int)>, i: int, j: int, u: (int, int), v: int)
    requires
        canonical(s),
        0 <= i <= j <= s.len(),
        u.0 <= v <= u.1,
        forall|k: int| 0 <= k < i ==> s[k].1 + 1 < u.0,
        j < s.len() ==> u.1 + 1 < s[j].0,
        forall|k: int| i <= k < j ==> u.0 <= (#[trigger] s[k]).0 && s[k].1 <= u.1,
        forall|x: int| u.0 <= x <= u.1 && x != v ==> #[trigger] covers(s.subrange(i, j), x),
    ensures
        canonical(s.subrange(0, i) + seq![u] + s.subrange(j, s.len() as int)),
        values(s.subrange(0, i) + seq![u] + s.subrange(j, s.len() as int)) == values(s).insert(v),
{
    let n = s.len() as int;
    let t = s.subrange(0, i) + seq![u] + s.subrange(j, n);
    assert(t.len() == i + 1 + n - j);
    assert forall|k: int| 0 <= k < i implies #[trigger] t[k] == s[k] by {}
    assert forall|k: int| i < k < t.len() implies #[trigger] t[k] == s[k - i - 1 + j] by {}
    assert(t[i] == u);
    assert forall|a: int, b: int| 0 <= a < b < t.len() implies t[a].1 + 1 < t[b].0 by {
        if a < i {
            assert(t[a] == s[a]);
        }
        if b > i {
            assert(t[b] == s[b - i - 1 + j]);
        }
        if a > i {
            assert(t[a] == s[a - i - 1 + j]);
        }
        if a == i && b > i && b - i - 1 + j > j {
            assert(s[j].1 + 1 < s[b - i - 1 + j].0);
        }
    }
    assert forall|x: int| covers(t, x) == (covers(s, x) || x == v) by {
        if covers(t, x) {
            let k = choose|k: int| 0 <= k < t.len() && (#[trigger] t[k]).0 <= x <= t[k].1;
            if k < i {
                assert(t[k] == s[k]);
            } else if k > i {
                assert(t[k] == s[k - i - 1 + j]);
            } else if x != v {
                let w = s.subrange(i, j);
                assert(covers(w, x));
                let m = choose|m: int| 0 <= m < w.len() && (#[trigger] w[m]).0 <= x <= w[m].1;
                assert(w[m] == s[m + i]);
            }
        }
        if covers(s, x) {
            let k = choose|k: int| 0 <= k < s.len() && (#[trigger] s[k]).0 <= x <= s[k].1;
            if k < i {
                assert(t[k] == s[k]);
            } else if k >= j {
                assert(t[k + i + 1 - j] == s[k]);
            } else {
                assert(t[i] == u);
            }
        }
        if x == v {
            assert(t[i] == u);
        }
    }
    assert(values(t) =~= values(s).insert(v));
}

impl<T: Value> Ranger<T> {
    #[verifier::type_invariant]
    spec fn inv(self) -> bool {
        canonical(self@)
    }

    /// An empty set.
    pub fn new() -> (r: Self)
        ensures
            r@ == Seq::<(int, int)>::empty(),
            canonical(r@),
    {
        let r = Ranger(Vec::new());
        assert(r@ =~= Seq::<(int, int)>::empty());
        r
    }

    /// Whether `value` lies within one of the intervals.
    pub fn contains(&self, value: &T) -> (r: bool)
        ensures
            r == covers(self@, value.int_of()),
    {
        proof {
            use_type_invariant(self);
        }
        let ghost s = self@;
        let ghost v = value.int_of();
        let probe = Unit::Single(*value);
        let i = position(&self.0, &probe);
        let r = i < self.0.len() && self.0[i].brackets(value);
        proof {
            if r {
                assert(s[i as int] == self.0@[i as int]@);
            } else if covers(s, v) {
                let k = choose|k: int| 0 <= k < s.len() && (#[trigger] s[k]).0 <= v <= s[k].1;
                assert(s[k] == self.0@[k]@);
                if k < i {
                    assert(unit_order(self.0@[k]@, probe@) == Ordering::Less);
                } else if k > i {
                    assert(s[i as int] == self.0@[i as int]@);
                    assert(s[i as int].1 + 1 < s[k].0);
                }
            }
        }
        r
    }

    /// Adds `value` to the set. A value already covered changes nothing
    /// and gives `false`. Otherwise the value joins the interval that ends
    /// just below it and the one that starts just above it, bridging the
    /// two when both exist, and the call gives `true`.
    pub fn insert(&mut self, value: T) -> (r: bool)
        ensures
            r == !covers(old(self)@, value.int_of()),
            !r ==> final(self)@ == old(self)@,
            canonical(final(self)@),
            values(final(self)@) == values(old(self)@).insert(value.int_of()),
    {
        proof {
            use_type_invariant(&*self);
        }
        if self.contains(&value) {
            proof {
                let s = self@;
                assert(values(s) =~= values(s).insert(value.int_of()));
            }
            return false;
        }
        let mut units: Vec<Unit<T>> = Vec::new();
        core::mem::swap(&mut units, &mut self.0);
        let ghost s = intervals(units@);
        let ghost n: int = s.len() as int;
        let ghost v = value.int_of();
        assert(s == old(self)@);
        let probe = Unit::Single(value);
        let i = position(&units, &probe);
        proof {
            assert forall|k: int| 0 <= k < n implies (#[trigger] s[k]) == units@[k]@ by {}
        }
        let mut cur = probe;
        // Where the units that `cur` absorbed ended in the old sequence.
        let ghost mut j: int = i as int;
        if i < units.len() {
            assert(s[i as int] == units@[i as int]@);
            let mut low = units[i];
            match low.merged(cur) {
                Merger::Merged => {
                    units.remove(i);
                    cur = low;
                    proof {
                        j = i + 1;
                    }
                },
                Merger::NotMerged(_) => {},
            }
        }
        proof {
            assert(i <= j <= n);
            assert(intervals(units@) =~= s.subrange(0, i as int) + s.subrange(j, n));
            assert(forall|k: int| 0 <= k < i ==> s[k].1 + 1 < cur@.0);
            assert(j < n ==> cur@.1 < s[j].0);
            assert(cur@.1 == v);
            assert(cur@.0 == v || (j == i + 1 && cur@.0 == s[i as int].0 && s[i as int].1 + 1 == v));
        }
        let ghost j0 = j;
        if i < units.len() {
            let high = units[i];
            match cur.merged(high) {
                Merger::Merged => {
                    units.remove(i);
                    proof {
                        j = j + 1;
                    }
                },
                Merger::NotMerged(_) => {},
            }
        }
        proof {
            assert(i <= j <= n);
            assert(forall|k: int| 0 <= k < i ==> s[k].1 + 1 < cur@.0);
            assert(j < n ==> cur@.1 + 1 < s[j].0);
            assert(cur@.1 == v || (j == j0 + 1 && cur@.1 == s[j0].1 && s[j0].0 == v + 1));
            assert forall|x: int| cur@.0 <= x <= cur@.1 && x != v implies #[trigger] covers(
                s.subrange(i as int, j),
                x,
            ) by {
                let w = s.subrange(i as int, j);
                if x < v {
                    assert(w[0] == s[i as int]);
                } else {
                    assert(w[j - i - 1] == s[j - 1]);
                }
            }
        }
        units.insert(i, cur);
        proof {
            assert(intervals(units@) =~= s.subrange(0, i as int) + seq![cur@] + s.subrange(j, n));
            lemma_splice(s, i as int, j, cur@, v);
        }
        self.0 = units;
        true
    }

    /// The canonical text: each interval as `low` or `low-high`, in
    /// ascending order, separated by commas; empty for an empty set.
    pub fn to_string(&self) -> (r: String)
        ensures
            r@ == text_of(self@),
    {
        let mut s = String::new();
        let mut i: usize = 0;
        while i < self.0.len()
            invariant
                i <= self.0.len(),
                s@ == text_of(self@.subrange(0, i as int)),
            decreases self.0.len() - i,
        {
            if i > 0 {
                proof {
                    reveal_strlit(",");
                }
                s.append(",");
            }
            self.0[i].push_text(&mut s);
            proof {
                let p = self@.subrange(0, i + 1);
                assert(p.drop_last() =~= self@.subrange(0, i as int));
                assert(p.last() == self.0@[i as int]@);
                if i > 0 {
                    assert(s@ =~= text_of(p.drop_last()) + seq![','] + unit_text(p.last()));
                } else {
                    assert(s@ =~= unit_text(p[0]));
                }
            }
            i += 1;
        }
        assert(self@.subrange(0, self.0.len() as int) =~= self@);
        s
    }
}

impl<T: Value> Default for Ranger<T> {
    /// An empty set.
    fn default() -> (r: Self)
        ensures
            r@ == Seq::<(int, int)>::empty(),
    {
        Ranger::new()
    }
}

impl<T: Value> Clone for Ranger<T> {
    /// A copy holding the same intervals.
    fn clone(&self) -> (r: Self)
        ensures
            r@ == self@,
    {
        proof {
            use_type_invariant(self);
        }
        let mut units: Vec<Unit<T>> = Vec::new();
        let mut i: usize = 0;
        while i < self.0.len()
            invariant
                i <= self.0.len(),
                units@ =~= self.0@.subrange(0, i as int),
            decreases self.0.len() - i,
        {
            units.push(self.0[i]);
            i += 1;
        }
        assert(units@ =~= self.0@);
        Ranger(units)
    }
}

} // verus!
