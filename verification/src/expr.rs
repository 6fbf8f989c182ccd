//! Predicate expressions: a tagged tree whose leaves are column references
//! and literal scalars.

use vstd::prelude::*;
use crate::scalar::Scalar;

verus! {

/// A column reference: the column's name and its ordinal position in the
/// schema under analysis. Two references denote the same column only when
/// both name and ordinal agree.
#[derive(Debug, PartialEq)]
pub struct Column {
    pub name: String,
    pub index: usize,
}

/// Column identity: name and ordinal both match.
pub open spec fn spec_same_column(a: Column, b: Column) -> bool {
    a.name@ == b.name@ && a.index == b.index
}

impl Column {
    /// A reference to the column of the given name and ordinal.
    pub fn new(name: &str, index: usize) -> (c: Column)
        ensures
            c.name@ == name@,
            c.index == index,
    {
        Column { name: name.to_owned(), index }
    }

    /// Exec counterpart of [`spec_same_column`].
    pub fn same_as(&self, other: &Column) -> (r: bool)
        ensures
            r == spec_same_column(*self, *other),
    {
        self.index == other.index && self.name == other.name
    }

    /// A copy of the reference.
    pub fn duplicate(&self) -> (c: Column)
        ensures
            c == *self,
    {
        Column { name: self.name.clone(), index: self.index }
    }
}

/// The binary operators the propagation engine understands.
#[derive(Clone, Copy, Debug, PartialEq, Eq)]
pub enum Op {
    Equal,
    Less,
    LessOrEqual,
    Greater,
    GreaterOrEqual,
    And,
}

/// A predicate expression tree. Leaves reference columns by identity or hold
/// literal scalars; inner nodes combine sub-expressions with comparison or
/// logical operators.
#[derive(Debug)]
pub enum Expr {
    Column(Column),
    Literal(Scalar),
    Binary { op: Op, left: Box<Expr>, right: Box<Expr> },
}

impl Expr {
    /// A column-reference leaf.
    pub fn column(name: &str, index: usize) -> (e: Expr)
        ensures
            e matches Expr::Column(c) && c.name@ == name@ && c.index == index,
    {
        Expr::Column(Column::new(name, index))
    }

    /// A literal leaf.
    pub fn literal(v: Scalar) -> (e: Expr)
        ensures
            e == Expr::Literal(v),
    {
        Expr::Literal(v)
    }

    /// A literal 64-bit integer leaf.
    pub fn literal_i64(v: i64) -> (e: Expr)
        ensures
            e == Expr::Literal(Scalar::Int64(Some(v))),
    {
        Expr::Literal(Scalar::Int64(Some(v)))
    }

    /// A literal boolean leaf.
    pub fn literal_bool(v: bool) -> (e: Expr)
        ensures
            e == Expr::Literal(Scalar::Boolean(Some(v))),
    {
        Expr::Literal(Scalar::Boolean(Some(v)))
    }

    /// An inner node applying `op` to two sub-expressions.
    pub fn binary(op: Op, left: Expr, right: Expr) -> (e: Expr)
        ensures
            e == (Expr::Binary { op, left: Box::new(left), right: Box::new(right) }),
    {
        Expr::Binary { op, left: Box::new(left), right: Box::new(right) }
    }
}

} // verus!
