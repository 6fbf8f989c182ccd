//! The interval constraint-propagation engine.
//!
//! A graph holds one node per sub-expression of a predicate, laid out in
//! postorder: every inner node's children sit at smaller indices and the
//! predicate's own root expression is the last node. Propagation runs in two
//! passes over the node intervals. A bottom-up pass evaluates each node's
//! interval from its children; three-valued boolean intervals classify a
//! predicate as surely true (`[true, true]`), surely false
//! (`[false, false]`) or undetermined (`[false, true]`). When the root comes
//! out undetermined, a top-down pass assumes the predicate holds and narrows
//! the operand intervals of every node whose interval demands truth. Closed
//! integer bounds are used throughout: a strict comparison tightens an
//! integer bound by one. A narrowing that cannot be expressed (an unknown
//! operand, mismatched types, a boolean under a strict comparison, or a
//! tightening that would empty an interval) is skipped, which is always
//! sound: it only leaves an interval wider than necessary.

use vstd::prelude::*;
use crate::expr::{Column, Expr, Op};
use crate::interval::Interval;
use crate::scalar::{DataType, Scalar};

verus! {

/// The outcome of one propagation run.
#[derive(Clone, Copy, Debug, PartialEq, Eq)]
pub enum PropagationResult {
    /// Intervals were tightened and are internally consistent.
    Success,
    /// No value can satisfy the predicate under the seeded bounds.
    Infeasible,
    /// The engine could make no determination (for instance, the root is a
    /// constant or its shape is not supported); nothing was narrowed.
    CannotPropagate,
}

/// One graph node: a sub-expression with children resolved to node indices.
#[derive(Debug)]
pub enum GraphNode {
    Column(Column),
    Literal(Scalar),
    Binary { op: Op, left: usize, right: usize },
}

/// Child indices precede their parent.
pub open spec fn spec_node_wf_at(ns: Seq<GraphNode>, i: int) -> bool {
    match ns[i] {
        GraphNode::Binary { left, right, .. } => left < i && right < i,
        _ => true,
    }
}

/// A postorder node sequence: every inner node's children sit below it.
pub open spec fn spec_wf_nodes(ns: Seq<GraphNode>) -> bool {
    forall|i: int| 0 <= i < ns.len() ==> spec_node_wf_at(ns, i)
}

/// The node sequence that a sub-expression contributes when its first node
/// is placed at offset `off`: left subtree, right subtree, then the node
/// itself, with child indices resolved absolutely.
pub open spec fn spec_subtree_nodes(e: Expr, off: int) -> Seq<GraphNode>
    decreases e,
{
    match e {
        Expr::Column(c) => seq![GraphNode::Column(c)],
        Expr::Literal(v) => seq![GraphNode::Literal(v)],
        Expr::Binary { op, left, right } => {
            let ln = spec_subtree_nodes(*left, off);
            let rn = spec_subtree_nodes(*right, off + ln.len());
            ln + rn + seq![
                GraphNode::Binary {
                    op,
                    left: (off + ln.len() - 1) as usize,
                    right: (off + ln.len() + rn.len() - 1) as usize,
                },
            ]
        },
    }
}

/// Child bounds of one node relative to where its subtree starts.
pub open spec fn spec_node_children_in(g: GraphNode, lo: int, hi: int) -> bool {
    match g {
        GraphNode::Binary { left, right, .. } => lo <= left && (left as int) < hi && lo <= right
            && (right as int) < hi,
        _ => true,
    }
}

/// A subtree contributes at least one node.
pub proof fn lemma_subtree_len_pos(e: Expr, off: int)
    ensures
        spec_subtree_nodes(e, off).len() >= 1,
    decreases e,
{
    match e {
        Expr::Column(_) => {},
        Expr::Literal(_) => {},
        Expr::Binary { op, left, right } => {
            lemma_subtree_len_pos(*left, off);
        },
    }
}

/// When a subtree's nodes fit at offset `off`, every inner node's children
/// lie inside the subtree, below the node itself.
pub proof fn lemma_subtree_nodes_ok(e: Expr, off: int)
    requires
        0 <= off,
        off + spec_subtree_nodes(e, off).len() <= usize::MAX,
    ensures
        spec_subtree_nodes(e, off).len() >= 1,
        forall|k: int|
            0 <= k < spec_subtree_nodes(e, off).len() ==> spec_node_children_in(
                #[trigger] spec_subtree_nodes(e, off)[k],
                off,
                off + k,
            ),
    decreases e,
{
    match e {
        Expr::Column(_) => {},
        Expr::Literal(_) => {},
        Expr::Binary { op, left, right } => {
            let ln = spec_subtree_nodes(*left, off);
            lemma_subtree_nodes_ok(*left, off);
            let rn = spec_subtree_nodes(*right, off + ln.len());
            lemma_subtree_nodes_ok(*right, off + ln.len());
            let s = spec_subtree_nodes(e, off);
            assert forall|k: int| 0 <= k < s.len() implies spec_node_children_in(
                #[trigger] s[k],
                off,
                off + k,
            ) by {
                if k < ln.len() {
                    assert(s[k] == ln[k]);
                } else if k < ln.len() + rn.len() {
                    assert(s[k] == rn[k - ln.len()]);
                }
            }
        },
    }
}

/// Certainly-true and certainly-false tests for one comparison over two
/// operand intervals of one type; `None` when the types differ or the
/// operator is not a comparison. Null bounds decide nothing.
pub open spec fn spec_compare(op: Op, li: Interval, ri: Interval) -> Option<Interval> {
    if li.spec_data_type() != ri.spec_data_type() {
        None
    } else {
        match op {
            Op::Greater => Some(
                spec_three_valued(
                    Scalar::spec_lt(ri.upper, li.lower),
                    Scalar::spec_le(li.upper, ri.lower),
                ),
            ),
            Op::GreaterOrEqual => Some(
                spec_three_valued(
                    Scalar::spec_le(ri.upper, li.lower),
                    Scalar::spec_lt(li.upper, ri.lower),
                ),
            ),
            Op::Less => Some(
                spec_three_valued(
                    Scalar::spec_lt(li.upper, ri.lower),
                    Scalar::spec_le(ri.upper, li.lower),
                ),
            ),
            Op::LessOrEqual => Some(
                spec_three_valued(
                    Scalar::spec_le(li.upper, ri.lower),
                    Scalar::spec_lt(ri.upper, li.lower),
                ),
            ),
            Op::Equal => Some(
                spec_three_valued(
                    !li.lower.spec_is_null() && li.lower == li.upper && ri.lower == ri.upper
                        && li.lower == ri.lower,
                    Scalar::spec_lt(li.upper, ri.lower) || Scalar::spec_lt(ri.upper, li.lower),
                ),
            ),
            Op::And => None,
        }
    }
}

/// The boolean interval for a predicate that is surely true, surely false,
/// or undetermined.
pub open spec fn spec_three_valued(sure_true: bool, sure_false: bool) -> Interval {
    if sure_true {
        Interval::spec_certainly_true()
    } else if sure_false {
        Interval::spec_certainly_false()
    } else {
        Interval::spec_uncertain()
    }
}

/// Reads an operand as a boolean range. An unknown operand is an
/// undetermined boolean; a null bound decides nothing; a non-boolean
/// operand has no boolean range.
pub open spec fn spec_bool_bounds(o: Option<Interval>) -> Option<(bool, bool)> {
    match o {
        None => Some((false, true)),
        Some(iv) => if iv.spec_data_type() == DataType::Boolean {
            Some(
                (
                    match iv.lower {
                        Scalar::Boolean(Some(x)) => x,
                        _ => false,
                    },
                    match iv.upper {
                        Scalar::Boolean(Some(y)) => y,
                        _ => true,
                    },
                ),
            )
        } else {
            None
        },
    }
}

/// Conjunction of two boolean operand ranges.
pub open spec fn spec_and(l: Option<Interval>, r: Option<Interval>) -> Option<Interval> {
    match (spec_bool_bounds(l), spec_bool_bounds(r)) {
        (Some((a, b)), Some((c, d))) => Some(
            Interval {
                lower: Scalar::Boolean(Some(a && c)),
                upper: Scalar::Boolean(Some(b && d)),
            },
        ),
        _ => None,
    }
}

/// One node's interval from its operator and its children's intervals.
/// A comparison with an unknown operand is an undetermined boolean.
pub open spec fn spec_combine(op: Op, l: Option<Interval>, r: Option<Interval>) -> Option<
    Interval,
> {
    match op {
        Op::And => spec_and(l, r),
        _ => match (l, r) {
            (Some(li), Some(ri)) => spec_compare(op, li, ri),
            _ => Some(Interval::spec_uncertain()),
        },
    }
}

/// The bottom-up evaluation of node `i`: column nodes keep their seeded
/// interval, literals are singletons, inner nodes combine their children.
pub open spec fn spec_eval(
    ns: Seq<GraphNode>,
    ivs0: Seq<Option<Interval>>,
    i: int,
) -> Option<Interval>
    decreases i,
{
    if 0 <= i < ns.len() {
        match ns[i] {
            GraphNode::Column(_) => if i < ivs0.len() {
                ivs0[i]
            } else {
                None
            },
            GraphNode::Literal(v) => Some(Interval::spec_singleton(v)),
            GraphNode::Binary { op, left, right } => if left < i && right < i {
                spec_combine(
                    op,
                    spec_eval(ns, ivs0, left as int),
                    spec_eval(ns, ivs0, right as int),
                )
            } else {
                None
            },
        }
    } else {
        None
    }
}

/// The larger of two lower bounds; a null lower bound constrains nothing.
pub open spec fn spec_max_lower(a: Scalar, b: Scalar) -> Scalar {
    if a.spec_is_null() {
        b
    } else if b.spec_is_null() {
        a
    } else if Scalar::spec_le(a, b) {
        b
    } else {
        a
    }
}

/// The smaller of two upper bounds; a null upper bound constrains nothing.
pub open spec fn spec_min_upper(a: Scalar, b: Scalar) -> Scalar {
    if a.spec_is_null() {
        b
    } else if b.spec_is_null() {
        a
    } else if Scalar::spec_le(a, b) {
        a
    } else {
        b
    }
}

/// Both bounds concrete and out of order: the interval holds no value.
pub open spec fn spec_interval_empty(iv: Interval) -> bool {
    !iv.lower.spec_is_null() && !iv.upper.spec_is_null() && !Scalar::spec_le(iv.lower, iv.upper)
}

/// The next larger integer scalar, when one exists.
pub open spec fn spec_succ(s: Scalar) -> Option<Scalar> {
    match s {
        Scalar::Int64(Some(x)) => if x < i64::MAX {
            Some(Scalar::Int64(Some((x + 1) as i64)))
        } else {
            None
        },
        _ => None,
    }
}

/// The next smaller integer scalar, when one exists.
pub open spec fn spec_pred(s: Scalar) -> Option<Scalar> {
    match s {
        Scalar::Int64(Some(x)) => if x > i64::MIN {
            Some(Scalar::Int64(Some((x - 1) as i64)))
        } else {
            None
        },
        _ => None,
    }
}

/// Keeps a tightened interval unless the tightening emptied it.
pub open spec fn spec_keep_nonempty(tightened: Interval, original: Interval) -> Interval {
    if spec_interval_empty(tightened) {
        original
    } else {
        tightened
    }
}

/// A boolean child of a conjunction that must hold becomes surely true,
/// unless it is already surely false (a contradiction better detected by
/// evaluation) or not boolean at all.
pub open spec fn spec_narrow_true(c: Interval) -> Interval {
    if c.spec_data_type() == DataType::Boolean && c.upper != Scalar::Boolean(Some(false)) {
        Interval::spec_certainly_true()
    } else {
        c
    }
}

/// Narrows the two operand intervals of a node whose interval demands
/// truth. Every clause that cannot be expressed is skipped, leaving the
/// operand unchanged.
pub open spec fn spec_narrow(op: Op, li: Interval, ri: Interval) -> (Interval, Interval) {
    if li.spec_data_type() != ri.spec_data_type() {
        (li, ri)
    } else {
        match op {
            Op::Equal => {
                let m = Interval {
                    lower: spec_max_lower(li.lower, ri.lower),
                    upper: spec_min_upper(li.upper, ri.upper),
                };
                if spec_interval_empty(m) {
                    (li, ri)
                } else {
                    (m, m)
                }
            },
            Op::Greater => (
                spec_narrow_lower_strict(li, ri.lower),
                spec_narrow_upper_strict(ri, li.upper),
            ),
            Op::GreaterOrEqual => (
                spec_keep_nonempty(
                    Interval { lower: spec_max_lower(li.lower, ri.lower), upper: li.upper },
                    li,
                ),
                spec_keep_nonempty(
                    Interval { lower: ri.lower, upper: spec_min_upper(ri.upper, li.upper) },
                    ri,
                ),
            ),
            Op::Less => (
                spec_narrow_upper_strict(li, ri.upper),
                spec_narrow_lower_strict(ri, li.lower),
            ),
            Op::LessOrEqual => (
                spec_keep_nonempty(
                    Interval { lower: li.lower, upper: spec_min_upper(li.upper, ri.upper) },
                    li,
                ),
                spec_keep_nonempty(
                    Interval { lower: spec_max_lower(ri.lower, li.lower), upper: ri.upper },
                    ri,
                ),
            ),
            Op::And => (spec_narrow_true(li), spec_narrow_true(ri)),
        }
    }
}

/// Raises `iv`'s lower bound strictly above `other_lower`, when integers
/// allow saying so.
pub open spec fn spec_narrow_lower_strict(iv: Interval, other_lower: Scalar) -> Interval {
    match spec_succ(other_lower) {
        Some(s) => spec_keep_nonempty(
            Interval { lower: spec_max_lower(iv.lower, s), upper: iv.upper },
            iv,
        ),
        None => iv,
    }
}

/// Lowers `iv`'s upper bound strictly below `other_upper`, when integers
/// allow saying so.
pub open spec fn spec_narrow_upper_strict(iv: Interval, other_upper: Scalar) -> Interval {
    match spec_pred(other_upper) {
        Some(p) => spec_keep_nonempty(
            Interval { lower: iv.lower, upper: spec_min_upper(iv.upper, p) },
            iv,
        ),
        None => iv,
    }
}

/// What a node's interval demands during the top-down pass: the root is
/// assumed true, every other node demands its current interval.
pub open spec fn spec_demand(ivs: Seq<Option<Interval>>, i: int, root: int) -> Option<Interval> {
    if i == root {
        Some(Interval::spec_certainly_true())
    } else {
        ivs[i]
    }
}

/// One top-down step: a binary node whose interval demands truth narrows
/// its two children's intervals, when both are known.
pub open spec fn spec_down_step(
    ns: Seq<GraphNode>,
    ivs: Seq<Option<Interval>>,
    i: int,
    root: int,
) -> Seq<Option<Interval>> {
    if 0 <= i < ns.len() && i < ivs.len() {
        match ns[i] {
            GraphNode::Binary { op, left, right } => if left < i && right < i && spec_demand(
                ivs,
                i,
                root,
            ) == Some(Interval::spec_certainly_true()) {
                match (ivs[left as int], ivs[right as int]) {
                    (Some(li), Some(ri)) => {
                        let nlr = spec_narrow(op, li, ri);
                        ivs.update(left as int, Some(nlr.0)).update(right as int, Some(nlr.1))
                    },
                    _ => ivs,
                }
            } else {
                ivs
            },
            _ => ivs,
        }
    } else {
        ivs
    }
}

/// The top-down pass applied from the root down to node `k`.
pub open spec fn spec_down_upto(
    ns: Seq<GraphNode>,
    ivs0: Seq<Option<Interval>>,
    k: int,
) -> Seq<Option<Interval>>
    decreases ns.len() - k,
{
    if k >= ns.len() {
        ivs0
    } else {
        spec_down_step(ns, spec_down_upto(ns, ivs0, k + 1), k, ns.len() - 1)
    }
}

/// The whole top-down pass.
pub open spec fn spec_down_all(
    ns: Seq<GraphNode>,
    ivs0: Seq<Option<Interval>>,
) -> Seq<Option<Interval>> {
    spec_down_upto(ns, ivs0, 0)
}

/// The whole top-down pass keeps the interval sequence's length.
pub proof fn lemma_down_upto_len(ns: Seq<GraphNode>, ivs0: Seq<Option<Interval>>, k: int)
    ensures
        spec_down_upto(ns, ivs0, k).len() == ivs0.len(),
    decreases ns.len() - k,
{
    if k < ns.len() {
        lemma_down_upto_len(ns, ivs0, k + 1);
    }
}

/// The first seed binding naming node `i`, if any.
pub open spec fn spec_seed_lookup(bindings: Seq<(usize, Interval)>, i: int) -> Option<Interval>
    decreases bindings.len(),
{
    if bindings.len() == 0 {
        None
    } else if bindings[0].0 == i {
        Some(bindings[0].1)
    } else {
        spec_seed_lookup(bindings.drop_first(), i)
    }
}

/// Appending a binding changes lookups only for its own node, and only
/// when that node was unbound.
pub proof fn lemma_seed_lookup_snoc(
    bindings: Seq<(usize, Interval)>,
    b: (usize, Interval),
    i: int,
)
    ensures
        spec_seed_lookup(bindings.push(b), i) == if spec_seed_lookup(bindings, i) is Some {
            spec_seed_lookup(bindings, i)
        } else if b.0 == i {
            Some(b.1)
        } else {
            None
        },
    decreases bindings.len(),
{
    if bindings.len() == 0 {
        assert(bindings.push(b)[0] == b);
        assert(bindings.push(b).drop_first() =~= Seq::<(usize, Interval)>::empty());
        assert(spec_seed_lookup(bindings.push(b).drop_first(), i) is None);
        if b.0 == i {
            assert(spec_seed_lookup(bindings.push(b), i) == Some(b.1));
        } else {
            assert(spec_seed_lookup(bindings.push(b), i) is None);
        }
    } else {
        assert(bindings.push(b)[0] == bindings[0]);
        assert(bindings.push(b).drop_first() =~= bindings.drop_first().push(b));
        assert(bindings.push(b).drop_first() == bindings.drop_first().push(b));
        lemma_seed_lookup_snoc(bindings.drop_first(), b, i);
        if bindings[0].0 == i {
            assert(spec_seed_lookup(bindings.push(b), i) == Some(bindings[0].1));
            assert(spec_seed_lookup(bindings, i) == Some(bindings[0].1));
        } else {
            assert(spec_seed_lookup(bindings.push(b), i) == spec_seed_lookup(
                bindings.drop_first().push(b),
                i,
            ));
            assert(spec_seed_lookup(bindings, i) == spec_seed_lookup(bindings.drop_first(), i));
        }
    }
}

/// The node intervals right after seeding: bound column nodes carry their
/// boundary interval, all other nodes are unknown.
pub open spec fn spec_seeded(
    ns: Seq<GraphNode>,
    bindings: Seq<(usize, Interval)>,
) -> Seq<Option<Interval>> {
    Seq::new(ns.len(), |i: int| spec_seed_lookup(bindings, i))
}

/// How one propagation run over seeded intervals comes out: a surely-false
/// root is infeasible, an undetermined boolean root supports narrowing,
/// anything else (a surely-true root, a constant or unsupported root)
/// permits no determination.
pub open spec fn spec_outcome(
    ns: Seq<GraphNode>,
    ivs0: Seq<Option<Interval>>,
) -> PropagationResult {
    let root = spec_eval(ns, ivs0, ns.len() - 1);
    if root == Some(Interval::spec_certainly_false()) {
        PropagationResult::Infeasible
    } else if root == Some(Interval::spec_uncertain()) {
        PropagationResult::Success
    } else {
        PropagationResult::CannotPropagate
    }
}

/// Exec counterpart of [`spec_three_valued`].
fn three_valued(sure_true: bool, sure_false: bool) -> (r: Interval)
    ensures
        r == spec_three_valued(sure_true, sure_false),
{
    if sure_true {
        Interval::certainly_true()
    } else if sure_false {
        Interval::certainly_false()
    } else {
        Interval::uncertain()
    }
}

/// Exec counterpart of [`spec_compare`].
fn compare_intervals(op: Op, li: &Interval, ri: &Interval) -> (r: Option<Interval>)
    ensures
        r == spec_compare(op, *li, *ri),
{
    let dl = li.lower.data_type();
    let dr = ri.lower.data_type();
    if !dl.same_as(&dr) {
        return None;
    }
    match op {
        Op::Greater => Some(
            three_valued(Scalar::lt(&ri.upper, &li.lower), Scalar::le(&li.upper, &ri.lower)),
        ),
        Op::GreaterOrEqual => Some(
            three_valued(Scalar::le(&ri.upper, &li.lower), Scalar::lt(&li.upper, &ri.lower)),
        ),
        Op::Less => Some(
            three_valued(Scalar::lt(&li.upper, &ri.lower), Scalar::le(&ri.upper, &li.lower)),
        ),
        Op::LessOrEqual => Some(
            three_valued(Scalar::le(&li.upper, &ri.lower), Scalar::lt(&ri.upper, &li.lower)),
        ),
        Op::Equal => Some(
            three_valued(
                !li.lower.is_null() && li.lower.same_as(&li.upper) && ri.lower.same_as(&ri.upper)
                    && li.lower.same_as(&ri.lower),
                Scalar::lt(&li.upper, &ri.lower) || Scalar::lt(&ri.upper, &li.lower),
            ),
        ),
        Op::And => None,
    }
}

/// Exec counterpart of [`spec_bool_bounds`].
fn bool_bounds(o: Option<Interval>) -> (r: Option<(bool, bool)>)
    ensures
        r == spec_bool_bounds(o),
{
    match o {
        None => Some((false, true)),
        Some(iv) => {
            let dt = iv.lower.data_type();
            if dt.same_as(&DataType::Boolean) {
                let lo = match iv.lower {
                    Scalar::Boolean(Some(x)) => x,
                    _ => false,
                };
                let hi = match iv.upper {
                    Scalar::Boolean(Some(y)) => y,
                    _ => true,
                };
                Some((lo, hi))
            } else {
                None
            }
        },
    }
}

/// Exec counterpart of [`spec_combine`].
fn combine(op: Op, l: Option<Interval>, r: Option<Interval>) -> (res: Option<Interval>)
    ensures
        res == spec_combine(op, l, r),
{
    match op {
        Op::And => match (bool_bounds(l), bool_bounds(r)) {
            (Some((a, b)), Some((c, d))) => Some(
                Interval {
                    lower: Scalar::Boolean(Some(a && c)),
                    upper: Scalar::Boolean(Some(b && d)),
                },
            ),
            _ => None,
        },
        _ => match (l, r) {
            (Some(li), Some(ri)) => compare_intervals(op, &li, &ri),
            _ => Some(Interval::uncertain()),
        },
    }
}

/// Exec counterpart of [`spec_max_lower`].
fn max_lower(a: Scalar, b: Scalar) -> (r: Scalar)
    ensures
        r == spec_max_lower(a, b),
{
    if a.is_null() {
        b
    } else if b.is_null() {
        a
    } else if Scalar::le(&a, &b) {
        b
    } else {
        a
    }
}

/// Exec counterpart of [`spec_min_upper`].
fn min_upper(a: Scalar, b: Scalar) -> (r: Scalar)
    ensures
        r == spec_min_upper(a, b),
{
    if a.is_null() {
        b
    } else if b.is_null() {
        a
    } else if Scalar::le(&a, &b) {
        a
    } else {
        b
    }
}

/// Exec counterpart of [`spec_interval_empty`].
fn interval_empty(iv: &Interval) -> (r: bool)
    ensures
        r == spec_interval_empty(*iv),
{
    !iv.lower.is_null() && !iv.upper.is_null() && !Scalar::le(&iv.lower, &iv.upper)
}

/// Exec counterpart of [`spec_keep_nonempty`].
fn keep_nonempty(tightened: Interval, original: Interval) -> (r: Interval)
    ensures
        r == spec_keep_nonempty(tightened, original),
{
    if interval_empty(&tightened) {
        original
    } else {
        tightened
    }
}

/// Exec counterpart of [`spec_succ`].
fn succ(s: Scalar) -> (r: Option<Scalar>)
    ensures
        r == spec_succ(s),
{
    match s {
        Scalar::Int64(Some(x)) => if x < i64::MAX {
            Some(Scalar::Int64(Some(x + 1)))
        } else {
            None
        },
        _ => None,
    }
}

/// Exec counterpart of [`spec_pred`].
fn pred(s: Scalar) -> (r: Option<Scalar>)
    ensures
        r == spec_pred(s),
{
    match s {
        Scalar::Int64(Some(x)) => if x > i64::MIN {
            Some(Scalar::Int64(Some(x - 1)))
        } else {
            None
        },
        _ => None,
    }
}

/// Exec counterpart of [`spec_narrow_true`].
fn narrow_true(c: Interval) -> (r: Interval)
    ensures
        r == spec_narrow_true(c),
{
    let dt = c.lower.data_type();
    let sure_false = c.upper.same_as(&Scalar::Boolean(Some(false)));
    if dt.same_as(&DataType::Boolean) && !sure_false {
        Interval::certainly_true()
    } else {
        c
    }
}

/// Exec counterpart of [`spec_narrow_lower_strict`].
fn narrow_lower_strict(iv: Interval, other_lower: Scalar) -> (r: Interval)
    ensures
        r == spec_narrow_lower_strict(iv, other_lower),
{
    match succ(other_lower) {
        Some(s) => keep_nonempty(
            Interval { lower: max_lower(iv.lower, s), upper: iv.upper },
            iv,
        ),
        None => iv,
    }
}

/// Exec counterpart of [`spec_narrow_upper_strict`].
fn narrow_upper_strict(iv: Interval, other_upper: Scalar) -> (r: Interval)
    ensures
        r == spec_narrow_upper_strict(iv, other_upper),
{
    match pred(other_upper) {
        Some(p) => keep_nonempty(
            Interval { lower: iv.lower, upper: min_upper(iv.upper, p) },
            iv,
        ),
        None => iv,
    }
}

/// Exec counterpart of [`spec_narrow`].
fn narrow(op: Op, li: Interval, ri: Interval) -> (res: (Interval, Interval))
    ensures
        res == spec_narrow(op, li, ri),
{
    let dl = li.lower.data_type();
    let dr = ri.lower.data_type();
    if !dl.same_as(&dr) {
        return (li, ri);
    }
    match op {
        Op::Equal => {
            let m = Interval {
                lower: max_lower(li.lower, ri.lower),
                upper: min_upper(li.upper, ri.upper),
            };
            if interval_empty(&m) {
                (li, ri)
            } else {
                (m, m)
            }
        },
        Op::Greater => (narrow_lower_strict(li, ri.lower), narrow_upper_strict(ri, li.upper)),
        Op::GreaterOrEqual => (
            keep_nonempty(
                Interval { lower: max_lower(li.lower, ri.lower), upper: li.upper },
                li,
            ),
            keep_nonempty(
                Interval { lower: ri.lower, upper: min_upper(ri.upper, li.upper) },
                ri,
            ),
        ),
        Op::Less => (narrow_upper_strict(li, ri.upper), narrow_lower_strict(ri, li.lower)),
        Op::LessOrEqual => (
            keep_nonempty(
                Interval { lower: li.lower, upper: min_upper(li.upper, ri.upper) },
                li,
            ),
            keep_nonempty(
                Interval { lower: max_lower(ri.lower, li.lower), upper: ri.upper },
                ri,
            ),
        ),
        Op::And => (narrow_true(li), narrow_true(ri)),
    }
}

/// The constraint-propagation graph of one predicate: its sub-expressions
/// in postorder (the root last) and one current interval per node.
#[derive(Debug)]
pub struct ExprIntervalGraph {
    nodes: Vec<GraphNode>,
    intervals: Vec<Option<Interval>>,
}

/// Pushes `e`'s subtree onto `nodes` in postorder.
fn push_subtree(e: &Expr, nodes: &mut Vec<GraphNode>)
    ensures
        final(nodes)@ == old(nodes)@ + spec_subtree_nodes(*e, old(nodes)@.len() as int),
    decreases *e,
{
    match e {
        Expr::Column(c) => {
            nodes.push(GraphNode::Column(c.duplicate()));
            assert(nodes@ =~= old(nodes)@ + spec_subtree_nodes(*e, old(nodes)@.len() as int));
        },
        Expr::Literal(v) => {
            nodes.push(GraphNode::Literal(*v));
            assert(nodes@ =~= old(nodes)@ + spec_subtree_nodes(*e, old(nodes)@.len() as int));
        },
        Expr::Binary { op, left, right } => {
            let ghost off = old(nodes)@.len() as int;
            proof {
                lemma_subtree_len_pos(**left, off);
            }
            push_subtree(left, nodes);
            let li = nodes.len() - 1;
            proof {
                lemma_subtree_len_pos(**right, off + spec_subtree_nodes(**left, off).len());
            }
            push_subtree(right, nodes);
            let ri = nodes.len() - 1;
            nodes.push(GraphNode::Binary { op: *op, left: li, right: ri });
            proof {
                let ln = spec_subtree_nodes(**left, off);
                let rn = spec_subtree_nodes(**right, off + ln.len());
                assert(li == off + ln.len() - 1);
                assert(ri == off + ln.len() + rn.len() - 1);
                assert(nodes@ =~= old(nodes)@ + spec_subtree_nodes(*e, off));
            }
        },
    }
}

impl ExprIntervalGraph {
    /// The graph's nodes, in postorder.
    pub closed spec fn spec_nodes(self) -> Seq<GraphNode> {
        self.nodes@
    }

    /// The current interval of each node; `None` is an unknown interval.
    pub closed spec fn spec_intervals(self) -> Seq<Option<Interval>> {
        self.intervals@
    }

    /// Builds the graph of a predicate: one node per sub-expression, in
    /// postorder, every interval unknown.
    pub fn new(expr: &Expr) -> (g: ExprIntervalGraph)
        ensures
            g.spec_nodes() == spec_subtree_nodes(*expr, 0),
            spec_wf_nodes(g.spec_nodes()),
            g.spec_nodes().len() >= 1,
            g.spec_intervals().len() == g.spec_nodes().len(),
    {
        let mut nodes: Vec<GraphNode> = Vec::new();
        push_subtree(expr, &mut nodes);
        let n = nodes.len();
        proof {
            lemma_subtree_nodes_ok(*expr, 0);
            assert forall|i: int| 0 <= i < nodes@.len() implies spec_node_wf_at(nodes@, i) by {
                assert(spec_node_children_in(nodes@[i], 0, i));
            }
        }
        let mut intervals: Vec<Option<Interval>> = Vec::new();
        let mut j: usize = 0;
        while j < n
            invariant
                j <= n,
                intervals@.len() == j,
            decreases n - j,
        {
            intervals.push(None);
            j += 1;
        }
        ExprIntervalGraph { nodes, intervals }
    }

    /// How many nodes the graph has.
    pub fn node_count(&self) -> (n: usize)
        ensures
            n == self.spec_nodes().len(),
    {
        self.nodes.len()
    }

    /// The column that node `i` references, when it is a column node.
    pub fn column_at(&self, i: usize) -> (r: Option<&Column>)
        requires
            i < self.spec_nodes().len(),
        ensures
            match r {
                Some(c) => self.spec_nodes()[i as int] == GraphNode::Column(*c),
                None => !(self.spec_nodes()[i as int] is Column),
            },
    {
        match &self.nodes[i] {
            GraphNode::Column(c) => Some(c),
            _ => None,
        }
    }

    /// A pure read of node `i`'s current interval; meaningful after a
    /// propagation run.
    pub fn get_interval(&self, i: usize) -> (r: Option<Interval>)
        requires
            i < self.spec_intervals().len(),
        ensures
            r == self.spec_intervals()[i as int],
    {
        self.intervals[i]
    }

    /// Seeds the named column nodes with their boundary intervals,
    /// evaluates every node bottom-up, and — when the root comes out as an
    /// undetermined boolean — narrows the node intervals top-down under the
    /// assumption that the predicate holds.
    pub fn update_ranges(&mut self, bindings: &Vec<(usize, Interval)>) -> (r: PropagationResult)
        requires
            spec_wf_nodes(old(self).spec_nodes()),
            forall|k: int|
                0 <= k < bindings@.len() ==> (#[trigger] bindings@[k]).0
                    < old(self).spec_nodes().len(),
            forall|k1: int, k2: int|
                0 <= k1 < k2 < bindings@.len() ==> bindings@[k1].0 != bindings@[k2].0,
        ensures
            final(self).spec_nodes() == old(self).spec_nodes(),
            final(self).spec_intervals().len() == old(self).spec_nodes().len(),
            r == spec_outcome(
                old(self).spec_nodes(),
                spec_seeded(old(self).spec_nodes(), bindings@),
            ),
            r is Success ==> final(self).spec_intervals() == spec_down_all(
                old(self).spec_nodes(),
                Seq::new(
                    old(self).spec_nodes().len(),
                    |i: int|
                        spec_eval(
                            old(self).spec_nodes(),
                            spec_seeded(old(self).spec_nodes(), bindings@),
                            i,
                        ),
                ),
            ),
    {
        let ghost ns = self.nodes@;
        let n = self.nodes.len();
        let mut ivs: Vec<Option<Interval>> = Vec::new();
        let mut j: usize = 0;
        while j < n
            invariant
                j <= n,
                ivs@.len() == j,
                forall|i: int| 0 <= i < j ==> ivs@[i] is None,
            decreases n - j,
        {
            ivs.push(None);
            j += 1;
        }
        // Seed the bound column nodes.
        let mut k: usize = 0;
        while k < bindings.len()
            invariant
                k <= bindings@.len(),
                ivs@.len() == n,
                n == ns.len(),
                forall|m: int|
                    0 <= m < bindings@.len() ==> (#[trigger] bindings@[m]).0 < n,
                forall|k1: int, k2: int|
                    0 <= k1 < k2 < bindings@.len() ==> bindings@[k1].0 != bindings@[k2].0,
                forall|i: int|
                    0 <= i < n ==> ivs@[i] == spec_seed_lookup(bindings@.take(k as int), i),
            decreases bindings@.len() - k,
        {
            let (idx, iv) = bindings[k];
            proof {
                assert(bindings@.take(k as int).push(bindings@[k as int]) =~= bindings@.take(
                    k as int + 1,
                ));
                lemma_seed_lookup_in_range(bindings@.take(k as int), idx as int);
                assert forall|i: int| 0 <= i < n implies spec_seed_lookup(
                    bindings@.take(k as int + 1),
                    i,
                ) == if i == idx as int {
                    Some(iv)
                } else {
                    spec_seed_lookup(bindings@.take(k as int), i)
                } by {
                    lemma_seed_lookup_snoc(bindings@.take(k as int), bindings@[k as int], i);
                }
            }
            ivs[idx] = Some(iv);
            k += 1;
        }
        proof {
            assert(bindings@.take(bindings@.len() as int) =~= bindings@);
            assert(ivs@ =~= spec_seeded(ns, bindings@));
        }
        let ghost ivs0 = ivs@;
        // Evaluate bottom-up.
        let mut i: usize = 0;
        while i < n
            invariant
                i <= n,
                ivs@.len() == n,
                n == ns.len(),
                self.nodes@ == ns,
                ivs0.len() == n,
                spec_wf_nodes(ns),
                forall|m: int| i <= m < n ==> ivs@[m] == ivs0[m],
                forall|m: int| 0 <= m < i ==> ivs@[m] == spec_eval(ns, ivs0, m),
            decreases n - i,
        {
            proof {
                assert(spec_node_wf_at(ns, i as int));
            }
            match &self.nodes[i] {
                GraphNode::Column(_) => {
                    assert(ivs@[i as int] == spec_eval(ns, ivs0, i as int));
                },
                GraphNode::Literal(v) => {
                    let iv = Interval::singleton(*v);
                    ivs[i] = Some(iv);
                },
                GraphNode::Binary { op, left, right } => {
                    let l = *left;
                    let rr = *right;
                    let lv = ivs[l];
                    let rv = ivs[rr];
                    let res = combine(*op, lv, rv);
                    ivs[i] = res;
                },
            }
            i += 1;
        }
        if n == 0 {
            self.intervals = ivs;
            return PropagationResult::CannotPropagate;
        }
        let root_iv = ivs[n - 1];
        assert(root_iv == spec_eval(ns, ivs0, n - 1));
        let root_sure_false = match root_iv {
            Some(iv) => iv.same_as(&Interval::certainly_false()),
            None => false,
        };
        if root_sure_false {
            self.intervals = ivs;
            return PropagationResult::Infeasible;
        }
        let root_uncertain = match root_iv {
            Some(iv) => iv.same_as(&Interval::uncertain()),
            None => false,
        };
        if !root_uncertain {
            self.intervals = ivs;
            return PropagationResult::CannotPropagate;
        }
        // Narrow top-down under the assumption that the root holds.
        let ghost ivs_eval = ivs@;
        proof {
            assert(ivs_eval =~= Seq::new(ns.len(), |m: int| spec_eval(ns, ivs0, m)));
        }
        let mut d: usize = n;
        while d > 0
            invariant
                d <= n,
                ivs@.len() == n,
                n == ns.len(),
                n >= 1,
                self.nodes@ == ns,
                spec_wf_nodes(ns),
                ivs@ == spec_down_upto(ns, ivs_eval, d as int),
            decreases d,
        {
            d -= 1;
            let ghost before = ivs@;
            proof {
                assert(spec_node_wf_at(ns, d as int));
            }
            match &self.nodes[d] {
                GraphNode::Binary { op, left, right } => {
                    let l = *left;
                    let rr = *right;
                    let demand_true = if d == n - 1 {
                        true
                    } else {
                        match ivs[d] {
                            Some(iv) => iv.same_as(&Interval::certainly_true()),
                            None => false,
                        }
                    };
                    if demand_true {
                        let lv = ivs[l];
                        let rv = ivs[rr];
                        match (lv, rv) {
                            (Some(li), Some(ri)) => {
                                let nlr = narrow(*op, li, ri);
                                ivs[l] = Some(nlr.0);
                                ivs[rr] = Some(nlr.1);
                            },
                            _ => {},
                        }
                    }
                },
                _ => {},
            }
            proof {
                assert(ivs@ =~= spec_down_step(ns, before, d as int, n - 1));
            }
        }
        self.intervals = ivs;
        PropagationResult::Success
    }
}

/// The top-down pass never touches the root node's interval: in a postorder
/// layout no node has the root as a child.
pub proof fn lemma_down_preserves_root(
    ns: Seq<GraphNode>,
    ivs0: Seq<Option<Interval>>,
    k: int,
)
    requires
        spec_wf_nodes(ns),
        ivs0.len() == ns.len(),
        ns.len() >= 1,
        0 <= k,
    ensures
        spec_down_upto(ns, ivs0, k).len() == ivs0.len(),
        spec_down_upto(ns, ivs0, k)[ns.len() - 1] == ivs0[ns.len() - 1],
    decreases ns.len() - k,
{
    if k < ns.len() {
        lemma_down_preserves_root(ns, ivs0, k + 1);
        assert(spec_node_wf_at(ns, k));
    }
}

/// A lookup in bindings that all name other nodes finds nothing.
pub proof fn lemma_seed_lookup_in_range(bindings: Seq<(usize, Interval)>, i: int)
    requires
        forall|m: int| 0 <= m < bindings.len() ==> (#[trigger] bindings[m]).0 != i,
    ensures
        spec_seed_lookup(bindings, i) is None,
    decreases bindings.len(),
{
    if bindings.len() > 0 {
        assert(bindings[0].0 != i);
        assert(forall|m: int|
            0 <= m < bindings.drop_first().len() ==> (#[trigger] bindings.drop_first()[m]).0
                != i);
        lemma_seed_lookup_in_range(bindings.drop_first(), i);
    }
}

} // verus!
