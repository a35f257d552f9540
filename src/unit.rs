//! Units: the closed intervals an interval set is made of, their
//! adjacency-aware ordering relation, and merging.
use vstd::prelude::*;
use vstd::string::StringExecFns;
use core::cmp::Ordering;
use crate::model::unit_text;
use crate::text::push_decimal;
use crate::value::Value;

verus! {

/// A non-empty closed interval: one point, or a low and a high bound.
#[derive(Clone, Copy, Debug)]
pub enum Unit<T> {
    Single(T),
    Span(T, T),
}

/// What became of the unit offered to [`Unit::merged`].
pub enum Merger<T> {
    /// It was absorbed into the receiving unit.
    Merged,
    /// It does not touch the receiving unit and is handed back.
    NotMerged(T),
}

/// The relation used to search a set of units: two units are equal when
/// they overlap or are adjacent, and otherwise ordered by their bounds.
pub open spec fn unit_order(a: (int, int), b: (int, int)) -> Ordering {
    if a.1 + 1 < b.0 {
        Ordering::Less
    } else if b.1 + 1 < a.0 {
        Ordering::Greater
    } else {
        Ordering::Equal
    }
}

impl<T: Value> View for Unit<T> {
    type V = (int, int);

    /// The low and the high bound, as integers.
    open spec fn view(&self) -> (int, int) {
        match self {
            Unit::Single(v) => (v.int_of(), v.int_of()),
            Unit::Span(l, h) => (l.int_of(), h.int_of()),
        }
    }
}

impl<T: Value> Unit<T> {
    /// The low bound does not exceed the high bound.
    pub open spec fn wf(&self) -> bool {
        self@.0 <= self@.1
    }

    /// The low bound.
    pub(crate) fn low(&self) -> (r: T)
        ensures
            r.int_of() == self@.0,
    {
        match self {
            Unit::Single(v) => *v,
            Unit::Span(l, _) => *l,
        }
    }

    /// The high bound.
    pub(crate) fn high(&self) -> (r: T)
        ensures
            r.int_of() == self@.1,
    {
        match self {
            Unit::Single(v) => *v,
            Unit::Span(_, h) => *h,
        }
    }

    /// Whether `self`, lying below `next`, ends just before `next` begins.
    pub(crate) fn touches(&self, next: &Self) -> (r: bool)
        ensures
            r == (self@.1 + 1 == next@.0),
    {
        let h = self.high();
        let l = next.low();
        proof {
            h.lemma_in_range();
            l.lemma_in_range();
        }
        l.saturating_sub(&h).is_one()
    }

    /// Absorbs `other` when it begins just after `self` ends: `self`
    /// then reaches up to `other`'s high bound. Otherwise `self` is kept
    /// and `other` is handed back.
    pub(crate) fn merged(&mut self, other: Self) -> (r: Merger<Unit<T>>)
        requires
            old(self).wf(),
            other.wf(),
        ensures
            final(self).wf(),
            old(self)@.1 + 1 == other@.0 ==> r is Merged && final(self)@ == (old(self)@.0, other@.1),
            old(self)@.1 + 1 != other@.0 ==> r == Merger::NotMerged(other) && *final(self) == *old(self),
    {
        if self.touches(&other) {
            *self = Unit::Span(self.low(), other.high());
            Merger::Merged
        } else {
            Merger::NotMerged(other)
        }
    }

    /// Compares two units by the search relation [`unit_order`].
    pub(crate) fn compare(&self, other: &Self) -> (r: Ordering)
        requires
            self.wf(),
            other.wf(),
        ensures
            r == unit_order(self@, other@),
    {
        if self.high().less_than(&other.low()) && !self.touches(other) {
            Ordering::Less
        } else if other.high().less_than(&self.low()) && !other.touches(self) {
            Ordering::Greater
        } else {
            Ordering::Equal
        }
    }

    /// Whether `v` lies within the unit.
    pub(crate) fn brackets(&self, v: &T) -> (r: bool)
        ensures
            r == (self@.0 <= v.int_of() <= self@.1),
    {
        !v.less_than(&self.low()) && !self.high().less_than(v)
    }

    /// Appends the unit's text to `s`.
    pub(crate) fn push_text(&self, s: &mut String)
        ensures
            final(s)@ == old(s)@ + unit_text(self@),
    {
        let l = self.low();
        let h = self.high();
        if l.less_than(&h) || h.less_than(&l) {
            push_decimal(s, &l);
            proof {
                reveal_strlit("-");
            }
            s.append("-");
            push_decimal(s, &h);
            assert(s@ =~= old(s)@ + unit_text(self@));
        } else {
            push_decimal(s, &l);
        }
    }
}

} // verus!
