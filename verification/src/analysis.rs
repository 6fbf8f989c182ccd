//! Interval and selectivity analysis in [`AnalysisContext`].
//!
//! The caller builds an [`AnalysisContext`] from per-column statistics and
//! hands it, together with a predicate, to [`analyze`]. The predicate's
//! expression tree becomes a propagation graph; every column reference whose
//! identity (name and ordinal) matches a known boundary seeds its node with
//! the boundary's interval; propagation then classifies the predicate.
//! An infeasible predicate keeps the input boundaries and selects nothing;
//! one that permits no determination keeps the input boundaries and is
//! assumed to select everything, so that missing information never biases
//! the estimate downward. On success the refined node intervals are copied
//! back onto the matching boundaries and the selectivity is the product of
//! the per-column cardinality ratios, columns being assumed independent and
//! uniformly distributed.

use vstd::prelude::*;
use crate::error::AnalysisError;
use crate::expr::{spec_same_column, Column, Expr};
use crate::graph::{
    lemma_down_preserves_root, lemma_seed_lookup_in_range, lemma_seed_lookup_snoc, spec_down_all,
    spec_eval, spec_outcome, spec_seed_lookup, spec_seeded, spec_subtree_nodes, ExprIntervalGraph,
    GraphNode, PropagationResult,
};
use crate::interval::Interval;
use crate::scalar::{DataType, Scalar};
use crate::selectivity::{
    cardinality_ratio, lemma_selectivity_prefix_none_propagates, spec_selectivity,
    spec_selectivity_prefix, Selectivity, SELECTIVITY_SCALE,
};
use crate::stats::{ColumnStatistics, Precision, Schema};

verus! {

/// The boundaries of one column during analysis: the column's identity, the
/// interval of values it can take, and how many distinct values it can
/// produce, if known.
#[derive(Debug, PartialEq)]
pub struct ExprBoundaries {
    pub column: Column,
    /// Minimum and maximum values this column can take.
    pub interval: Interval,
    /// Maximum number of distinct values this column can produce, if known.
    pub distinct_count: Precision<usize>,
}

/// The interval a column's statistics justify: each missing bound becomes
/// the type's null scalar, which stands for "no information".
pub open spec fn spec_interval_from_stats(dt: DataType, cs: ColumnStatistics) -> Interval {
    Interval {
        lower: match cs.min_value.spec_value() {
            Some(v) => v,
            None => Scalar::spec_null_of(dt),
        },
        upper: match cs.max_value.spec_value() {
            Some(v) => v,
            None => Scalar::spec_null_of(dt),
        },
    }
}

impl ExprBoundaries {
    /// Builds one column's boundaries from its statistics. The interval's
    /// bounds are the statistics' minimum and maximum where present, else
    /// the field type's null scalar; the distinct count is copied unchanged.
    pub fn try_from_column(schema: &Schema, col_stats: &ColumnStatistics, col_index: usize) -> (r:
        Result<ExprBoundaries, AnalysisError>)
        requires
            col_index < schema.fields@.len(),
        ensures
            r matches Ok(b) && {
                &&& b.column.name@ == schema.fields@[col_index as int].name@
                &&& b.column.index == col_index
                &&& b.interval == spec_interval_from_stats(
                    schema.fields@[col_index as int].data_type,
                    *col_stats,
                )
                &&& b.distinct_count == col_stats.distinct_count
            },
    {
        let field = &schema.fields[col_index];
        let empty_field = Scalar::null_of(field.data_type);
        let lower = match col_stats.min_value.get_value() {
            Some(v) => *v,
            None => empty_field,
        };
        let upper = match col_stats.max_value.get_value() {
            Some(v) => *v,
            None => empty_field,
        };
        let interval = Interval::new(lower, upper);
        let column = Column::new(field.name.as_str(), col_index);
        Ok(ExprBoundaries { column, interval, distinct_count: col_stats.distinct_count })
    }

    /// A copy of the boundaries.
    pub fn duplicate(&self) -> (b: ExprBoundaries)
        ensures
            b == *self,
    {
        ExprBoundaries {
            column: self.column.duplicate(),
            interval: self.interval,
            distinct_count: self.distinct_count,
        }
    }
}

/// The shared context used during the analysis of an expression: the
/// boundaries of every known column, ordered by ordinal, and — once
/// computed — the predicate's selectivity.
#[derive(Debug, PartialEq)]
pub struct AnalysisContext {
    /// Known column boundaries, ordered by the column's ordinal in the
    /// schema under analysis.
    pub boundaries: Vec<ExprBoundaries>,
    /// The estimated fraction of rows this predicate would select, between
    /// selecting nothing and selecting everything.
    pub selectivity: Option<Selectivity>,
}

impl AnalysisContext {
    /// A context holding the given boundaries and no selectivity yet.
    pub fn new(boundaries: Vec<ExprBoundaries>) -> (r: AnalysisContext)
        ensures
            r.boundaries == boundaries,
            r.selectivity is None,
    {
        AnalysisContext { boundaries, selectivity: None }
    }

    /// The same context with its selectivity set.
    pub fn with_selectivity(self, selectivity: Selectivity) -> (r: AnalysisContext)
        ensures
            r.boundaries == self.boundaries,
            r.selectivity == Some(selectivity),
    {
        AnalysisContext { boundaries: self.boundaries, selectivity: Some(selectivity) }
    }

    /// Builds a context from column statistics: one boundary per schema
    /// column, in schema order, selectivity unset.
    pub fn try_from_statistics(input_schema: &Schema, statistics: &Vec<ColumnStatistics>) -> (r:
        Result<AnalysisContext, AnalysisError>)
        requires
            statistics@.len() == input_schema.fields@.len(),
        ensures
            r matches Ok(ctx) && {
                &&& ctx.selectivity is None
                &&& ctx.boundaries@.len() == statistics@.len()
                &&& forall|i: int|
                    0 <= i < statistics@.len() ==> {
                        let b = #[trigger] ctx.boundaries@[i];
                        &&& b.column.name@ == input_schema.fields@[i].name@
                        &&& b.column.index == i
                        &&& b.interval == spec_interval_from_stats(
                            input_schema.fields@[i].data_type,
                            statistics@[i],
                        )
                        &&& b.distinct_count == statistics@[i].distinct_count
                    }
            },
    {
        let n = statistics.len();
        let mut boundaries: Vec<ExprBoundaries> = Vec::new();
        let mut i: usize = 0;
        while i < n
            invariant
                i <= n,
                n == statistics@.len(),
                statistics@.len() == input_schema.fields@.len(),
                boundaries@.len() == i,
                forall|m: int|
                    0 <= m < i ==> {
                        let b = #[trigger] boundaries@[m];
                        &&& b.column.name@ == input_schema.fields@[m].name@
                        &&& b.column.index == m
                        &&& b.interval == spec_interval_from_stats(
                            input_schema.fields@[m].data_type,
                            statistics@[m],
                        )
                        &&& b.distinct_count == statistics@[m].distinct_count
                    },
            decreases n - i,
        {
            match ExprBoundaries::try_from_column(input_schema, &statistics[i], i) {
                Ok(b) => {
                    boundaries.push(b);
                },
                Err(e) => {
                    proof {
                        assert(false);
                    }
                    return Err(e);
                },
            }
            i += 1;
        }
        Ok(AnalysisContext::new(boundaries))
    }
}

/// The intervals a boundary sequence holds, column by column.
pub open spec fn spec_boundary_intervals(bs: Seq<ExprBoundaries>) -> Seq<Interval> {
    bs.map_values(|b: ExprBoundaries| b.interval)
}

/// What the selectivity calculation returns: one exactly for a surely-true
/// boolean root, zero exactly for a surely-false one, else the product of
/// the per-column cardinality ratios; nothing when a ratio cannot be
/// computed.
pub open spec fn spec_calculate_selectivity(
    lower_value: Scalar,
    upper_value: Scalar,
    target: Seq<ExprBoundaries>,
    initial: Seq<ExprBoundaries>,
) -> Option<int> {
    if lower_value == Scalar::Boolean(Some(true)) && upper_value == Scalar::Boolean(Some(true)) {
        Some(SELECTIVITY_SCALE as int)
    } else if lower_value == Scalar::Boolean(Some(false)) && upper_value == Scalar::Boolean(
        Some(false),
    ) {
        Some(0)
    } else {
        spec_selectivity(spec_boundary_intervals(initial), spec_boundary_intervals(target))
    }
}

/// Calculates a predicate's selectivity by comparing the initial and pruned
/// column boundaries under the root interval's verdict. An exact boolean
/// root short-circuits: `[true, true]` selects everything and
/// `[false, false]` selects nothing, independent of how individual column
/// intervals changed. Otherwise the per-column cardinality ratios are
/// multiplied, columns being assumed independent, uniform and unsorted.
pub fn calculate_selectivity(
    lower_value: &Scalar,
    upper_value: &Scalar,
    target_boundaries: &Vec<ExprBoundaries>,
    initial_boundaries: &Vec<ExprBoundaries>,
) -> (r: Result<Selectivity, AnalysisError>)
    requires
        target_boundaries@.len() == initial_boundaries@.len(),
    ensures
        match spec_calculate_selectivity(
            *lower_value,
            *upper_value,
            target_boundaries@,
            initial_boundaries@,
        ) {
            Some(p) => r matches Ok(s) && s.ppb == p && s.spec_wf(),
            None => r == Err::<Selectivity, AnalysisError>(AnalysisError::TypeConversion),
        },
        (*lower_value == Scalar::Boolean(Some(true)) && *upper_value == Scalar::Boolean(
            Some(true),
        )) ==> (r matches Ok(s) && s.ppb == SELECTIVITY_SCALE),
        (*lower_value == Scalar::Boolean(Some(false)) && *upper_value == Scalar::Boolean(
            Some(false),
        )) ==> (r matches Ok(s) && s.ppb == 0),
{
    let sure_true = lower_value.same_as(&Scalar::Boolean(Some(true))) && upper_value.same_as(
        &Scalar::Boolean(Some(true)),
    );
    if sure_true {
        return Ok(Selectivity::one());
    }
    let sure_false = lower_value.same_as(&Scalar::Boolean(Some(false))) && upper_value.same_as(
        &Scalar::Boolean(Some(false)),
    );
    if sure_false {
        return Ok(Selectivity::zero());
    }
    let ghost init_ivs = spec_boundary_intervals(initial_boundaries@);
    let ghost targ_ivs = spec_boundary_intervals(target_boundaries@);
    let n = target_boundaries.len();
    let mut acc: u64 = SELECTIVITY_SCALE;
    let mut i: usize = 0;
    while i < n
        invariant
            i <= n,
            n == target_boundaries@.len(),
            n == initial_boundaries@.len(),
            init_ivs == spec_boundary_intervals(initial_boundaries@),
            targ_ivs == spec_boundary_intervals(target_boundaries@),
            init_ivs.len() == n,
            targ_ivs.len() == n,
            acc <= SELECTIVITY_SCALE,
            spec_selectivity_prefix(init_ivs, targ_ivs, i as int) == Some(acc as int),
            !(*lower_value == Scalar::Boolean(Some(true)) && *upper_value == Scalar::Boolean(
                Some(true),
            )),
            !(*lower_value == Scalar::Boolean(Some(false)) && *upper_value == Scalar::Boolean(
                Some(false),
            )),
        decreases n - i,
    {
        proof {
            assert(init_ivs[i as int] == initial_boundaries@[i as int].interval);
            assert(targ_ivs[i as int] == target_boundaries@[i as int].interval);
        }
        let ratio = match cardinality_ratio(
            &initial_boundaries[i].interval,
            &target_boundaries[i].interval,
        ) {
            Ok(v) => v,
            Err(e) => {
                proof {
                    assert(crate::selectivity::spec_ratio_ppb(
                        init_ivs[i as int],
                        targ_ivs[i as int],
                    ) is None);
                    assert(spec_selectivity_prefix(init_ivs, targ_ivs, i as int + 1) is None);
                    lemma_selectivity_prefix_none_propagates(
                        init_ivs,
                        targ_ivs,
                        i as int + 1,
                        n as int,
                    );
                    assert(spec_selectivity(init_ivs, targ_ivs) is None);
                }
                return Err(e);
            },
        };
        proof {
            crate::selectivity::lemma_ratio_bounds(
                initial_boundaries@[i as int].interval,
                target_boundaries@[i as int].interval,
            );
            vstd::arithmetic::mul::lemma_mul_upper_bound(
                acc as int,
                SELECTIVITY_SCALE as int,
                ratio as int,
                SELECTIVITY_SCALE as int,
            );
            vstd::arithmetic::div_mod::lemma_div_is_ordered(
                acc as int * ratio as int,
                SELECTIVITY_SCALE as int * SELECTIVITY_SCALE as int,
                SELECTIVITY_SCALE as int,
            );
            vstd::arithmetic::div_mod::lemma_div_multiples_vanish(
                SELECTIVITY_SCALE as int,
                SELECTIVITY_SCALE as int,
            );
        }
        let prod: u64 = acc * ratio;
        acc = prod / SELECTIVITY_SCALE;
        i += 1;
    }
    Ok(Selectivity { ppb: acc })
}

/// Whether a graph node references the given column.
pub open spec fn spec_node_matches(g: GraphNode, c: Column) -> bool {
    match g {
        GraphNode::Column(cc) => spec_same_column(cc, c),
        _ => false,
    }
}

/// Whether some graph node references the given column.
pub open spec fn spec_col_node_exists(ns: Seq<GraphNode>, c: Column) -> bool {
    exists|i: int| 0 <= i < ns.len() && spec_node_matches(#[trigger] ns[i], c)
}

/// The last (in postorder) graph node referencing the given column, or `-1`.
pub open spec fn spec_last_col_node(ns: Seq<GraphNode>, c: Column) -> int
    decreases ns.len(),
{
    if ns.len() == 0 {
        -1
    } else if spec_node_matches(ns.last(), c) {
        ns.len() - 1
    } else {
        spec_last_col_node(ns.drop_last(), c)
    }
}

/// The first boundary whose column identity matches, and its interval.
pub open spec fn spec_find_boundary(bs: Seq<ExprBoundaries>, c: Column) -> Option<Interval>
    decreases bs.len(),
{
    if bs.len() == 0 {
        None
    } else if spec_same_column(bs[0].column, c) {
        Some(bs[0].interval)
    } else {
        spec_find_boundary(bs.drop_first(), c)
    }
}

/// Whether boundary `j` is the first of its column.
pub open spec fn spec_is_first_match(bs: Seq<ExprBoundaries>, j: int) -> bool {
    forall|m: int|
        0 <= m < j ==> !spec_same_column((#[trigger] bs[m]).column, bs[j].column)
}

/// The seed interval of node `i`: the first matching boundary's interval
/// when the node references a known column, else nothing.
pub open spec fn spec_node_seed(ns: Seq<GraphNode>, bs: Seq<ExprBoundaries>, i: int) -> Option<
    Interval,
> {
    match ns[i] {
        GraphNode::Column(c) => spec_find_boundary(bs, c),
        _ => None,
    }
}

/// The seed intervals of every node.
pub open spec fn spec_analysis_seeds(ns: Seq<GraphNode>, bs: Seq<ExprBoundaries>) -> Seq<
    Option<Interval>,
> {
    Seq::new(ns.len(), |i: int| spec_node_seed(ns, bs, i))
}

/// What boundary `j` becomes after propagation: when it is the first
/// boundary of its column and some node references that column, it takes
/// the last such node's interval; otherwise it passes through unchanged.
pub open spec fn spec_refined_boundary(
    ns: Seq<GraphNode>,
    ivs: Seq<Option<Interval>>,
    bs: Seq<ExprBoundaries>,
    j: int,
) -> ExprBoundaries {
    let b = bs[j];
    if spec_is_first_match(bs, j) && spec_col_node_exists(ns, b.column) {
        match ivs[spec_last_col_node(ns, b.column)] {
            Some(v) => ExprBoundaries { column: b.column, interval: v, distinct_count: b.distinct_count },
            None => b,
        }
    } else {
        b
    }
}

/// Every boundary after propagation.
pub open spec fn spec_refined_boundaries(
    ns: Seq<GraphNode>,
    ivs: Seq<Option<Interval>>,
    bs: Seq<ExprBoundaries>,
) -> Seq<ExprBoundaries> {
    Seq::new(bs.len(), |j: int| spec_refined_boundary(ns, ivs, bs, j))
}

/// Exec counterpart of [`spec_find_boundary`].
fn find_boundary(boundaries: &Vec<ExprBoundaries>, c: &Column) -> (r: Option<Interval>)
    ensures
        r == spec_find_boundary(boundaries@, *c),
{
    proof {
        assert(boundaries@.skip(0) =~= boundaries@);
    }
    let mut j: usize = 0;
    while j < boundaries.len()
        invariant
            j <= boundaries@.len(),
            spec_find_boundary(boundaries@, *c) == spec_find_boundary(
                boundaries@.skip(j as int),
                *c,
            ),
        decreases boundaries@.len() - j,
    {
        proof {
            assert(boundaries@.skip(j as int)[0] == boundaries@[j as int]);
            assert(boundaries@.skip(j as int).drop_first() =~= boundaries@.skip(j as int + 1));
        }
        if boundaries[j].column.same_as(c) {
            return Some(boundaries[j].interval);
        }
        j += 1;
    }
    proof {
        assert(boundaries@.skip(boundaries@.len() as int).len() == 0);
    }
    None
}

/// Exec counterpart of [`spec_is_first_match`].
fn is_first_match(boundaries: &Vec<ExprBoundaries>, j: usize) -> (r: bool)
    requires
        j < boundaries@.len(),
    ensures
        r == spec_is_first_match(boundaries@, j as int),
{
    let mut m: usize = 0;
    while m < j
        invariant
            m <= j,
            j < boundaries@.len(),
            forall|t: int|
                0 <= t < m ==> !spec_same_column(
                    (#[trigger] boundaries@[t]).column,
                    boundaries@[j as int].column,
                ),
        decreases j - m,
    {
        if boundaries[m].column.same_as(&boundaries[j].column) {
            return false;
        }
        m += 1;
    }
    true
}

/// Exec counterpart of [`spec_last_col_node`]: the last node referencing
/// the column, when one exists.
fn last_col_node(graph: &ExprIntervalGraph, c: &Column) -> (r: Option<usize>)
    ensures
        match r {
            Some(i) => i < graph.spec_nodes().len() && i as int == spec_last_col_node(
                graph.spec_nodes(),
                *c,
            ) && spec_col_node_exists(graph.spec_nodes(), *c),
            None => !spec_col_node_exists(graph.spec_nodes(), *c),
        },
{
    let ghost ns = graph.spec_nodes();
    let n = graph.node_count();
    proof {
        assert(ns.take(n as int) =~= ns);
    }
    let mut k: usize = n;
    while k > 0
        invariant
            k <= n,
            n == ns.len(),
            ns == graph.spec_nodes(),
            spec_last_col_node(ns, *c) == spec_last_col_node(ns.take(k as int), *c),
            forall|m: int| k <= m < n ==> !spec_node_matches(#[trigger] ns[m], *c),
        decreases k,
    {
        k -= 1;
        proof {
            assert(ns.take(k as int + 1).last() == ns[k as int]);
            assert(ns.take(k as int + 1).drop_last() =~= ns.take(k as int));
        }
        let is_match = match graph.column_at(k) {
            Some(cc) => cc.same_as(c),
            None => false,
        };
        if is_match {
            proof {
                assert(spec_node_matches(ns[k as int], *c));
                assert(spec_last_col_node(ns.take(k as int + 1), *c) == k as int);
            }
            return Some(k);
        }
        proof {
            assert(!spec_node_matches(ns[k as int], *c));
        }
    }
    proof {
        assert(ns.take(0).len() == 0);
        assert(spec_last_col_node(ns, *c) == -1);
    }
    None
}

/// On a successful propagation, copies each bound node's refined interval
/// back onto the matching boundary, reads the root node's final interval,
/// and computes the selectivity from the refined and initial boundaries.
fn shrink_boundaries(graph: &ExprIntervalGraph, target_boundaries: &Vec<ExprBoundaries>) -> (r:
    Result<AnalysisContext, AnalysisError>)
    requires
        graph.spec_nodes().len() >= 1,
        graph.spec_intervals().len() == graph.spec_nodes().len(),
        graph.spec_intervals()[graph.spec_nodes().len() - 1] is Some,
    ensures
        ({
            let ns = graph.spec_nodes();
            let ivs = graph.spec_intervals();
            let rbs = spec_refined_boundaries(ns, ivs, target_boundaries@);
            let root = ivs[ns.len() - 1]->0;
            match spec_calculate_selectivity(root.lower, root.upper, rbs, target_boundaries@) {
                Some(p) => r matches Ok(ctx) && (ctx.boundaries@ == rbs && (ctx.selectivity
                    matches Some(s) && (s.ppb == p && s.spec_wf()))),
                None => r == Err::<AnalysisContext, AnalysisError>(AnalysisError::TypeConversion),
            }
        }),
{
    let ghost ns = graph.spec_nodes();
    let ghost ivs = graph.spec_intervals();
    let n_bounds = target_boundaries.len();
    let mut refined: Vec<ExprBoundaries> = Vec::new();
    let mut j: usize = 0;
    while j < n_bounds
        invariant
            j <= n_bounds,
            n_bounds == target_boundaries@.len(),
            ns == graph.spec_nodes(),
            ivs == graph.spec_intervals(),
            ivs.len() == ns.len(),
            refined@.len() == j,
            forall|m: int|
                0 <= m < j ==> refined@[m] == spec_refined_boundary(
                    ns,
                    ivs,
                    target_boundaries@,
                    m,
                ),
        decreases n_bounds - j,
    {
        let b = &target_boundaries[j];
        let mut nb = b.duplicate();
        if is_first_match(target_boundaries, j) {
            match last_col_node(graph, &b.column) {
                Some(i) => {
                    match graph.get_interval(i) {
                        Some(v) => {
                            nb.interval = v;
                        },
                        None => {},
                    }
                },
                None => {},
            }
        }
        refined.push(nb);
        j += 1;
    }
    let nc = graph.node_count();
    if nc == 0 {
        proof {
            assert(false);
        }
        return Err(AnalysisError::InternalConsistency);
    }
    let root_iv = graph.get_interval(nc - 1);
    match root_iv {
        Some(root) => {
            proof {
                assert(refined@ =~= spec_refined_boundaries(ns, ivs, target_boundaries@));
            }
            match calculate_selectivity(&root.lower, &root.upper, &refined, target_boundaries) {
                Ok(sel) => Ok(
                    AnalysisContext { boundaries: refined, selectivity: Some(sel) },
                ),
                Err(e) => Err(e),
            }
        },
        None => {
            proof {
                assert(false);
            }
            Err(AnalysisError::InternalConsistency)
        },
    }
}

/// Attempts to refine the column boundaries in `context` under the
/// predicate `expr` and to compute the predicate's selectivity.
///
/// The propagation outcome selects the branch. When it is infeasible, the
/// input boundaries come back unchanged with selectivity exactly zero; when
/// nothing could be determined, they come back unchanged with selectivity
/// exactly one; on success, the refined boundaries come back with the
/// product of the per-column cardinality ratios, computed under the
/// documented independence and uniformity assumption. Every returned
/// selectivity lies between selecting nothing and selecting everything.
pub fn analyze(expr: &Expr, context: AnalysisContext) -> (r: Result<
    AnalysisContext,
    AnalysisError,
>)
    ensures
        ({
            let ns = spec_subtree_nodes(*expr, 0);
            let bs = context.boundaries@;
            let seeds = spec_analysis_seeds(ns, bs);
            let out = spec_outcome(ns, seeds);
            &&& (r matches Ok(ctx) ==> (ctx.boundaries@.len() == bs.len() && (ctx.selectivity
                matches Some(s) && s.spec_wf())))
            &&& (out is Infeasible ==> (r matches Ok(ctx) && (ctx.boundaries@ == bs
                && ctx.selectivity == Some(Selectivity { ppb: 0 }))))
            &&& (out is CannotPropagate ==> (r matches Ok(ctx) && (ctx.boundaries@ == bs
                && ctx.selectivity == Some(Selectivity { ppb: SELECTIVITY_SCALE }))))
            &&& (out is Success ==> {
                let evald = Seq::new(ns.len(), |i: int| spec_eval(ns, seeds, i));
                let ivs_final = spec_down_all(ns, evald);
                let rbs = spec_refined_boundaries(ns, ivs_final, bs);
                ivs_final[ns.len() - 1] matches Some(root) && match spec_calculate_selectivity(
                    root.lower,
                    root.upper,
                    rbs,
                    bs,
                ) {
                    Some(p) => r matches Ok(ctx) && (ctx.boundaries@ == rbs && (ctx.selectivity
                        matches Some(s) && s.ppb == p)),
                    None => r == Err::<AnalysisContext, AnalysisError>(
                        AnalysisError::TypeConversion,
                    ),
                }
            })
        }),
{
    let mut graph = ExprIntervalGraph::new(expr);
    let ghost ns = graph.spec_nodes();
    let ghost bs = context.boundaries@;
    let nc = graph.node_count();
    let mut bindings: Vec<(usize, Interval)> = Vec::new();
    let mut i: usize = 0;
    while i < nc
        invariant
            i <= nc,
            nc == ns.len(),
            graph.spec_nodes() == ns,
            graph.spec_intervals().len() == ns.len(),
            context.boundaries@ == bs,
            forall|k: int| 0 <= k < bindings@.len() ==> (#[trigger] bindings@[k]).0 < i,
            forall|k1: int, k2: int|
                0 <= k1 < k2 < bindings@.len() ==> bindings@[k1].0 < bindings@[k2].0,
            forall|m: int|
                0 <= m < i ==> spec_seed_lookup(bindings@, m) == spec_node_seed(ns, bs, m),
        decreases nc - i,
    {
        let seed = match graph.column_at(i) {
            Some(c) => find_boundary(&context.boundaries, c),
            None => None,
        };
        proof {
            assert(seed == spec_node_seed(ns, bs, i as int));
            lemma_seed_lookup_in_range(bindings@, i as int);
        }
        match seed {
            Some(iv) => {
                proof {
                    assert forall|m: int| 0 <= m <= i implies spec_seed_lookup(
                        bindings@.push((i, iv)),
                        m,
                    ) == (if m == i as int {
                        Some(iv)
                    } else {
                        spec_seed_lookup(bindings@, m)
                    }) by {
                        lemma_seed_lookup_snoc(bindings@, (i, iv), m);
                    }
                }
                bindings.push((i, iv));
            },
            None => {},
        }
        i += 1;
    }
    let result = graph.update_ranges(&bindings);
    proof {
        assert(spec_seeded(ns, bindings@) =~= spec_analysis_seeds(ns, bs));
    }
    match result {
        PropagationResult::Success => {
            let ghost seeds = spec_analysis_seeds(ns, bs);
            let ghost evald = Seq::new(ns.len(), |m: int| spec_eval(ns, seeds, m));
            proof {
                lemma_down_preserves_root(ns, evald, 0);
                assert(graph.spec_intervals()[ns.len() - 1] == evald[ns.len() - 1]);
                assert(evald[ns.len() - 1] == spec_eval(ns, seeds, ns.len() - 1));
            }
            shrink_boundaries(&graph, &context.boundaries)
        },
        PropagationResult::Infeasible => Ok(
            AnalysisContext::new(context.boundaries).with_selectivity(Selectivity::zero()),
        ),
        PropagationResult::CannotPropagate => Ok(
            AnalysisContext::new(context.boundaries).with_selectivity(Selectivity::one()),
        ),
    }
}

} // verus!
