//! Closed value intervals over one scalar type, and their cardinality.

use vstd::prelude::*;
use crate::scalar::{DataType, Scalar};

verus! {

/// A closed range `[lower, upper]` over one scalar type. A null bound is the
/// unknown / unbounded sentinel of its type. A degenerate interval `[v, v]`
/// is a known constant; for boolean predicate roots, `[true, true]` and
/// `[false, false]` are the exact outcomes.
#[derive(Clone, Copy, Debug, PartialEq, Eq)]
pub struct Interval {
    pub lower: Scalar,
    pub upper: Scalar,
}

impl Interval {
    /// Well-formed: both bounds share a type, and are ordered whenever both
    /// are concrete.
    pub open spec fn spec_wf(self) -> bool {
        &&& self.lower.spec_data_type() == self.upper.spec_data_type()
        &&& (!self.lower.spec_is_null() && !self.upper.spec_is_null() ==> Scalar::spec_le(
            self.lower,
            self.upper,
        ))
    }

    /// The type both bounds belong to (the lower bound's type when malformed).
    pub open spec fn spec_data_type(self) -> DataType {
        self.lower.spec_data_type()
    }

    /// Build an interval from two closed bounds, as given.
    pub fn new(lower: Scalar, upper: Scalar) -> (r: Interval)
        ensures
            r == (Interval { lower, upper }),
    {
        Interval { lower, upper }
    }

    /// The degenerate interval holding exactly one value.
    pub open spec fn spec_singleton(v: Scalar) -> Interval {
        Interval { lower: v, upper: v }
    }

    /// Exec counterpart of [`Interval::spec_singleton`].
    pub fn singleton(v: Scalar) -> (r: Interval)
        ensures
            r == Interval::spec_singleton(v),
    {
        Interval { lower: v, upper: v }
    }

    /// The boolean interval `[true, true]`: a predicate that surely holds.
    pub open spec fn spec_certainly_true() -> Interval {
        Interval::spec_singleton(Scalar::Boolean(Some(true)))
    }

    /// The boolean interval `[false, false]`: a predicate that surely fails.
    pub open spec fn spec_certainly_false() -> Interval {
        Interval::spec_singleton(Scalar::Boolean(Some(false)))
    }

    /// The boolean interval `[false, true]`: an undetermined predicate.
    pub open spec fn spec_uncertain() -> Interval {
        Interval { lower: Scalar::Boolean(Some(false)), upper: Scalar::Boolean(Some(true)) }
    }

    /// Exec counterpart of [`Interval::spec_certainly_true`].
    pub fn certainly_true() -> (r: Interval)
        ensures
            r == Interval::spec_certainly_true(),
    {
        Interval::singleton(Scalar::Boolean(Some(true)))
    }

    /// Exec counterpart of [`Interval::spec_certainly_false`].
    pub fn certainly_false() -> (r: Interval)
        ensures
            r == Interval::spec_certainly_false(),
    {
        Interval::singleton(Scalar::Boolean(Some(false)))
    }

    /// Exec counterpart of [`Interval::spec_uncertain`].
    pub fn uncertain() -> (r: Interval)
        ensures
            r == Interval::spec_uncertain(),
    {
        Interval { lower: Scalar::Boolean(Some(false)), upper: Scalar::Boolean(Some(true)) }
    }

    /// Exec equality with the spec meaning of `==`.
    pub fn same_as(&self, other: &Interval) -> (r: bool)
        ensures
            r == (self == other),
    {
        self.lower.same_as(&other.lower) && self.upper.same_as(&other.upper)
    }

    /// How many values the interval holds, when that can be told: both bounds
    /// concrete, of one type, and ordered. Null bounds have no cardinality.
    pub open spec fn spec_cardinality(self) -> Option<int> {
        match (self.lower, self.upper) {
            (Scalar::Int64(Some(a)), Scalar::Int64(Some(b))) => if a <= b {
                Some(b - a + 1)
            } else {
                None
            },
            (Scalar::Boolean(Some(a)), Scalar::Boolean(Some(b))) => if a == b {
                Some(1)
            } else if !a && b {
                Some(2)
            } else {
                None
            },
            _ => None,
        }
    }

    /// Exec counterpart of [`Interval::spec_cardinality`].
    pub fn cardinality(&self) -> (c: Option<u128>)
        ensures
            match c {
                Some(n) => self.spec_cardinality() == Some(n as int),
                None => self.spec_cardinality() is None,
            },
    {
        match (self.lower, self.upper) {
            (Scalar::Int64(Some(a)), Scalar::Int64(Some(b))) => {
                if a <= b {
                    let width: i128 = (b as i128) - (a as i128) + 1;
                    Some(width as u128)
                } else {
                    None
                }
            },
            (Scalar::Boolean(Some(a)), Scalar::Boolean(Some(b))) => {
                if a == b {
                    Some(1)
                } else if !a && b {
                    Some(2)
                } else {
                    None
                }
            },
            _ => None,
        }
    }
}

} // verus!
