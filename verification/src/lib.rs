//! Selectivity analysis for filter predicates.
//!
//! Given per-column statistics (value ranges and distinct counts) and a
//! predicate expression, this library tightens the per-column value ranges by
//! interval constraint propagation over the predicate's expression tree, and
//! estimates the predicate's selectivity: the fraction of rows expected to
//! satisfy it, as an exact fixed-point number in `[0, 1]`.

pub mod analysis;
pub mod error;
pub mod expr;
pub mod graph;
pub mod interval;
pub mod scalar;
pub mod selectivity;
pub mod stats;

pub use analysis::{analyze, calculate_selectivity, AnalysisContext, ExprBoundaries};
pub use error::AnalysisError;
pub use expr::{Column, Expr, Op};
pub use graph::{ExprIntervalGraph, PropagationResult};
pub use interval::Interval;
pub use scalar::{DataType, Scalar};
pub use selectivity::{Selectivity, SELECTIVITY_SCALE};
pub use stats::{ColumnStatistics, Field, Precision, Schema};
