//! Column statistics and the schema they are aligned with.

use vstd::prelude::*;
use crate::scalar::{DataType, Scalar};

verus! {

/// How precisely a statistic is known: exactly, as an estimate, or not at
/// all. Absence is explicit, never a sentinel value.
#[derive(Clone, Copy, Debug, PartialEq, Eq)]
pub enum Precision<T> {
    /// The value is known exactly.
    Exact(T),
    /// The value is an estimate or a bound.
    Inexact(T),
    /// Nothing is known.
    Absent,
}

impl<T> Precision<T> {
    /// The carried value, if any is known, exactly or not.
    pub open spec fn spec_value(self) -> Option<T> {
        match self {
            Precision::Exact(v) => Some(v),
            Precision::Inexact(v) => Some(v),
            Precision::Absent => None,
        }
    }

    /// Exec counterpart of [`Precision::spec_value`].
    pub fn get_value(&self) -> (r: Option<&T>)
        ensures
            match r {
                Some(v) => self.spec_value() == Some(*v),
                None => self.spec_value() is None,
            },
    {
        match self {
            Precision::Exact(v) => Some(v),
            Precision::Inexact(v) => Some(v),
            Precision::Absent => None,
        }
    }
}

/// One column's statistics: an optional minimum value, an optional maximum
/// value, and a distinct-value count with its exactness.
#[derive(Clone, Debug, PartialEq, Eq)]
pub struct ColumnStatistics {
    pub min_value: Precision<Scalar>,
    pub max_value: Precision<Scalar>,
    pub distinct_count: Precision<usize>,
}

impl ColumnStatistics {
    /// Statistics that know nothing about their column.
    pub fn unknown() -> (r: ColumnStatistics)
        ensures
            r.min_value is Absent,
            r.max_value is Absent,
            r.distinct_count is Absent,
    {
        ColumnStatistics {
            min_value: Precision::Absent,
            max_value: Precision::Absent,
            distinct_count: Precision::Absent,
        }
    }
}

/// One schema column: its name and data type.
#[derive(Clone, Debug, PartialEq, Eq)]
pub struct Field {
    pub name: String,
    pub data_type: DataType,
}

/// The schema under analysis: its columns in order.
#[derive(Clone, Debug, PartialEq, Eq)]
pub struct Schema {
    pub fields: Vec<Field>,
}

impl Schema {
    /// A schema over the given columns.
    pub fn new(fields: Vec<Field>) -> (r: Schema)
        ensures
            r.fields == fields,
    {
        Schema { fields }
    }
}

} // verus!
