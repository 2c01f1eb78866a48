//! Inclusive intervals and the queries on them.
use crate::fault::Fault;
use crate::text::{decimal_text, render_decimal};
use vstd::string::*;
use vstd::prelude::*;

verus! {

/// The mathematical interval `[min, max]` that a [`Range`] stands for.
pub struct Interval {
    pub min: int,
    pub max: int,
}

impl Interval {
    /// The lower bound does not exceed the upper bound.
    pub open spec fn wf(self) -> bool {
        self.min <= self.max
    }

    /// `x` lies within the bounds, ends included.
    pub open spec fn holds(self, x: int) -> bool {
        self.min <= x <= self.max
    }

    /// `other` lies wholly inside `self`; equal bounds count as inside.
    pub open spec fn contains(self, other: Interval) -> bool {
        self.min <= other.min && other.max <= self.max
    }

    /// The distance between the bounds.
    pub open spec fn size(self) -> int {
        self.max - self.min
    }

    /// The signed distance by which `x` falls outside the interval: negative
    /// below `min`, positive above `max`, absent inside.
    pub open spec fn deviation(self, x: int) -> Option<int> {
        if x < self.min {
            Some(x - self.min)
        } else if x > self.max {
            Some(x - self.max)
        } else {
            None
        }
    }
}

/// How an interval is written in diagnostics.
pub open spec fn range_text(r: Interval) -> Seq<char> {
    "Range { min: "@ + decimal_text(r.min) + ", max: "@ + decimal_text(r.max) + " }"@
}

/// An inclusive interval of 64-bit scalars whose lower bound never exceeds
/// its upper bound.
#[derive(Clone, Copy, Debug, PartialEq, Eq)]
pub struct Range {
    min: i64,
    max: i64,
}

impl View for Range {
    type V = Interval;

    closed spec fn view(&self) -> Interval {
        Interval { min: self.min as int, max: self.max as int }
    }
}

impl Range {
    /// What holds of every range: its interval is ordered.
    #[verifier::type_invariant]
    pub open spec fn ordered(self) -> bool {
        self@.wf()
    }

    /// Builds `[min, max]`, or reports both bounds when `min > max`.
    pub fn new(min: i64, max: i64) -> (built: Result<Range, Fault>)
        ensures
            min <= max ==> built.is_ok() && built.unwrap()@ == (Interval {
                min: min as int,
                max: max as int,
            }),
            min > max ==> built == Err::<Range, Fault>(Fault::InvalidRange { min, max }),
    {
        if min <= max {
            Ok(Range { min, max })
        } else {
            Err(Fault::InvalidRange { min, max })
        }
    }

    /// The lower bound.
    pub fn min(&self) -> (bound: i64)
        ensures
            bound == self@.min,
            self@.wf(),
    {
        proof {
            use_type_invariant(self);
        }
        self.min
    }

    /// The upper bound.
    pub fn max(&self) -> (bound: i64)
        ensures
            bound == self@.max,
            self@.wf(),
    {
        proof {
            use_type_invariant(self);
        }
        self.max
    }

    /// The range written out with its bounds, as `Range { min: 1, max: 7 }`.
    pub fn describe(&self) -> (text: String)
        ensures
            text@ == range_text(self@),
    {
        let text = String::from_str("Range { min: ");
        let text = text.concat(render_decimal(self.min).as_str());
        let text = text.concat(", max: ");
        let text = text.concat(render_decimal(self.max).as_str());
        text.concat(" }")
    }

    /// Whether `other` lies wholly inside `self`; equal bounds count as inside.
    pub fn contains(&self, other: &Range) -> (inside: bool)
        ensures
            inside == self@.contains(other@),
    {
        self.min <= other.min && other.max <= self.max
    }

    /// The distance between the bounds, exact and never negative.
    pub fn size(&self) -> (span: i128)
        ensures
            span == self@.size(),
            0 <= span <= u64::MAX,
    {
        proof {
            use_type_invariant(self);
        }
        self.max as i128 - self.min as i128
    }

    /// The signed distance by which `x` falls outside the range, if it does.
    pub fn deviation(&self, x: i64) -> (gap: Option<i128>)
        ensures
            match gap {
                Some(g) => self@.deviation(x as int) == Some(g as int) && g != 0,
                None => self@.deviation(x as int).is_none() && self@.holds(x as int),
            },
    {
        if x < self.min {
            Some(x as i128 - self.min as i128)
        } else if x > self.max {
            Some(x as i128 - self.max as i128)
        } else {
            None
        }
    }
}

/// The bounds of the interval that a range stands for fit in 64 bits.
pub proof fn lemma_range_bounds_fit(r: Range)
    ensures
        i64::MIN <= r@.min <= i64::MAX,
        i64::MIN <= r@.max <= i64::MAX,
{
}

/// Containment is reflexive: every interval contains itself.
pub proof fn lemma_contains_reflexive(r: Interval)
    ensures
        r.contains(r),
{
}

/// Containment fails as soon as the inner interval reaches below the outer
/// lower bound or above the outer upper bound.
pub proof fn lemma_contains_excludes_overhang(a: Interval, b: Interval)
    requires
        b.min < a.min || b.max > a.max,
    ensures
        !a.contains(b),
{
}

/// Containment is transitive.
pub proof fn lemma_contains_transitive(a: Interval, b: Interval, c: Interval)
    requires
        a.contains(b),
        b.contains(c),
    ensures
        a.contains(c),
{
}

/// Inside an ordered interval there is no deviation; below it the deviation
/// is negative and measured from `min`, above it positive and measured from
/// `max`.
pub proof fn lemma_deviation_sign(r: Interval, x: int)
    requires
        r.wf(),
    ensures
        r.holds(x) <==> r.deviation(x).is_none(),
        x < r.min <==> r.deviation(x).is_some() && r.deviation(x).unwrap() < 0,
        x > r.max <==> r.deviation(x).is_some() && r.deviation(x).unwrap() > 0,
        x < r.min ==> r.deviation(x) == Some(x - r.min),
        x > r.max ==> r.deviation(x) == Some(x - r.max),
{
}

/// The size of an ordered interval is `max - min` and is never negative.
pub proof fn lemma_size_nonnegative(r: Interval)
    requires
        r.wf(),
    ensures
        r.size() == r.max - r.min,
        r.size() >= 0,
{
}

} // verus!
