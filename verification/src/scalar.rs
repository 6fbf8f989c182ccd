//! The scalar value domain that intervals range over.

use vstd::prelude::*;

verus! {

/// The data types whose statistics this analysis understands.
#[derive(Clone, Copy, Debug, PartialEq, Eq)]
pub enum DataType {
    Boolean,
    Int64,
}

/// A typed scalar value. `None` inside a variant is the type's null: an
/// absent piece of information (an unknown statistic, or an unbounded end of
/// an interval), never the type's zero.
#[derive(Clone, Copy, Debug, PartialEq, Eq)]
pub enum Scalar {
    Boolean(Option<bool>),
    Int64(Option<i64>),
}

impl DataType {
    /// Exec equality with the spec meaning of `==`.
    pub fn same_as(&self, other: &DataType) -> (r: bool)
        ensures
            r == (self == other),
    {
        match (self, other) {
            (DataType::Boolean, DataType::Boolean) => true,
            (DataType::Int64, DataType::Int64) => true,
            _ => false,
        }
    }
}

impl Scalar {
    /// The data type a scalar belongs to.
    pub open spec fn spec_data_type(self) -> DataType {
        match self {
            Scalar::Boolean(_) => DataType::Boolean,
            Scalar::Int64(_) => DataType::Int64,
        }
    }

    /// Exec counterpart of [`Scalar::spec_data_type`].
    pub fn data_type(&self) -> (dt: DataType)
        ensures
            dt == self.spec_data_type(),
    {
        match self {
            Scalar::Boolean(_) => DataType::Boolean,
            Scalar::Int64(_) => DataType::Int64,
        }
    }

    /// Whether the scalar is the null of its type.
    pub open spec fn spec_is_null(self) -> bool {
        match self {
            Scalar::Boolean(v) => v is None,
            Scalar::Int64(v) => v is None,
        }
    }

    /// Exec counterpart of [`Scalar::spec_is_null`].
    pub fn is_null(&self) -> (r: bool)
        ensures
            r == self.spec_is_null(),
    {
        match self {
            Scalar::Boolean(v) => v.is_none(),
            Scalar::Int64(v) => v.is_none(),
        }
    }

    /// The null scalar of a data type.
    pub open spec fn spec_null_of(dt: DataType) -> Scalar {
        match dt {
            DataType::Boolean => Scalar::Boolean(None),
            DataType::Int64 => Scalar::Int64(None),
        }
    }

    /// Exec counterpart of [`Scalar::spec_null_of`].
    pub fn null_of(dt: DataType) -> (s: Scalar)
        ensures
            s == Scalar::spec_null_of(dt),
    {
        match dt {
            DataType::Boolean => Scalar::Boolean(None),
            DataType::Int64 => Scalar::Int64(None),
        }
    }

    /// Strict order on two concrete scalars of the same type; `false` is below
    /// `true`. Meaningful only when both sides are concrete and share a type.
    pub open spec fn spec_lt(a: Scalar, b: Scalar) -> bool {
        match (a, b) {
            (Scalar::Boolean(Some(x)), Scalar::Boolean(Some(y))) => !x && y,
            (Scalar::Int64(Some(x)), Scalar::Int64(Some(y))) => x < y,
            _ => false,
        }
    }

    /// Non-strict order on two concrete scalars of the same type.
    pub open spec fn spec_le(a: Scalar, b: Scalar) -> bool {
        match (a, b) {
            (Scalar::Boolean(Some(x)), Scalar::Boolean(Some(y))) => !x || y,
            (Scalar::Int64(Some(x)), Scalar::Int64(Some(y))) => x <= y,
            _ => false,
        }
    }

    /// Exec counterpart of [`Scalar::spec_lt`].
    pub fn lt(a: &Scalar, b: &Scalar) -> (r: bool)
        ensures
            r == Scalar::spec_lt(*a, *b),
    {
        match (a, b) {
            (Scalar::Boolean(Some(x)), Scalar::Boolean(Some(y))) => !*x && *y,
            (Scalar::Int64(Some(x)), Scalar::Int64(Some(y))) => *x < *y,
            _ => false,
        }
    }

    /// Exec counterpart of [`Scalar::spec_le`].
    pub fn le(a: &Scalar, b: &Scalar) -> (r: bool)
        ensures
            r == Scalar::spec_le(*a, *b),
    {
        match (a, b) {
            (Scalar::Boolean(Some(x)), Scalar::Boolean(Some(y))) => !*x || *y,
            (Scalar::Int64(Some(x)), Scalar::Int64(Some(y))) => *x <= *y,
            _ => false,
        }
    }

    /// Exec equality with the spec meaning of `==`.
    pub fn same_as(&self, other: &Scalar) -> (r: bool)
        ensures
            r == (self == other),
    {
        match (self, other) {
            (Scalar::Boolean(x), Scalar::Boolean(y)) => match (x, y) {
                (None, None) => true,
                (Some(a), Some(b)) => *a == *b,
                _ => false,
            },
            (Scalar::Int64(x), Scalar::Int64(y)) => match (x, y) {
                (None, None) => true,
                (Some(a), Some(b)) => *a == *b,
                _ => false,
            },
            _ => false,
        }
    }
}

} // verus!
