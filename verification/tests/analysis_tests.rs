use selectivity_analysis::{
    analyze, calculate_selectivity, AnalysisContext, AnalysisError, ColumnStatistics, DataType,
    Expr, Field, Op, Precision, Scalar, Schema, Selectivity, SELECTIVITY_SCALE,
};

fn int_field(name: &str) -> Field {
    Field { name: name.to_string(), data_type: DataType::Int64 }
}

fn int_stats(min: i64, max: i64) -> ColumnStatistics {
    ColumnStatistics {
        min_value: Precision::Exact(Scalar::Int64(Some(min))),
        max_value: Precision::Exact(Scalar::Int64(Some(max))),
        distinct_count: Precision::Absent,
    }
}

fn context_one_int(name: &str, min: i64, max: i64) -> AnalysisContext {
    let schema = Schema::new(vec![int_field(name)]);
    let stats = vec![int_stats(min, max)];
    AnalysisContext::try_from_statistics(&schema, &stats).unwrap()
}

#[test]
fn build_context_one_boundary_per_column() {
    let schema = Schema::new(vec![int_field("a"), int_field("b")]);
    let stats = vec![int_stats(0, 100), int_stats(-5, 19)];
    let ctx = AnalysisContext::try_from_statistics(&schema, &stats).unwrap();
    assert_eq!(ctx.boundaries.len(), 2);
    assert_eq!(ctx.selectivity, None);
    assert_eq!(ctx.boundaries[0].column.name, "a");
    assert_eq!(ctx.boundaries[0].column.index, 0);
    assert_eq!(ctx.boundaries[0].interval.lower, Scalar::Int64(Some(0)));
    assert_eq!(ctx.boundaries[0].interval.upper, Scalar::Int64(Some(100)));
    assert_eq!(ctx.boundaries[1].column.name, "b");
    assert_eq!(ctx.boundaries[1].column.index, 1);
    assert_eq!(ctx.boundaries[1].interval.lower, Scalar::Int64(Some(-5)));
    assert_eq!(ctx.boundaries[1].interval.upper, Scalar::Int64(Some(19)));
}

#[test]
fn build_context_missing_stats_become_null_bounds() {
    let schema = Schema::new(vec![int_field("a")]);
    let stats = vec![ColumnStatistics {
        min_value: Precision::Absent,
        max_value: Precision::Absent,
        distinct_count: Precision::Inexact(7),
    }];
    let ctx = AnalysisContext::try_from_statistics(&schema, &stats).unwrap();
    assert_eq!(ctx.boundaries[0].interval.lower, Scalar::Int64(None));
    assert_eq!(ctx.boundaries[0].interval.upper, Scalar::Int64(None));
    assert_eq!(ctx.boundaries[0].distinct_count, Precision::Inexact(7));
}

#[test]
fn build_context_copies_distinct_count() {
    let schema = Schema::new(vec![int_field("a")]);
    let stats = vec![ColumnStatistics {
        min_value: Precision::Inexact(Scalar::Int64(Some(3))),
        max_value: Precision::Exact(Scalar::Int64(Some(9))),
        distinct_count: Precision::Exact(5),
    }];
    let ctx = AnalysisContext::try_from_statistics(&schema, &stats).unwrap();
    assert_eq!(ctx.boundaries[0].distinct_count, Precision::Exact(5));
    assert_eq!(ctx.boundaries[0].interval.lower, Scalar::Int64(Some(3)));
    assert_eq!(ctx.boundaries[0].interval.upper, Scalar::Int64(Some(9)));
}

#[test]
fn with_selectivity_sets_the_value() {
    let ctx = context_one_int("a", 0, 9);
    let ctx = ctx.with_selectivity(Selectivity::one());
    assert_eq!(ctx.selectivity.unwrap().as_ppb(), SELECTIVITY_SCALE);
}

#[test]
fn greater_than_halves_the_range() {
    let ctx = context_one_int("a", 0, 100);
    let expr = Expr::binary(Op::Greater, Expr::column("a", 0), Expr::literal_i64(50));
    let out = analyze(&expr, ctx).unwrap();
    assert_eq!(out.boundaries[0].interval.lower, Scalar::Int64(Some(51)));
    assert_eq!(out.boundaries[0].interval.upper, Scalar::Int64(Some(100)));
    // 50 of the original 101 values remain: floor(50e9 / 101).
    let ppb = out.selectivity.unwrap().as_ppb();
    assert_eq!(ppb, 495_049_504);
    assert!(ppb <= SELECTIVITY_SCALE);
}

#[test]
fn constant_false_comparison_is_infeasible() {
    let ctx = context_one_int("a", 0, 100);
    let expr = Expr::binary(Op::Equal, Expr::literal_i64(1), Expr::literal_i64(2));
    let out = analyze(&expr, ctx).unwrap();
    assert_eq!(out.selectivity.unwrap().as_ppb(), 0);
    assert_eq!(out.boundaries[0].interval.lower, Scalar::Int64(Some(0)));
    assert_eq!(out.boundaries[0].interval.upper, Scalar::Int64(Some(100)));
}

#[test]
fn out_of_range_comparison_is_infeasible() {
    let ctx = context_one_int("a", 0, 100);
    let expr = Expr::binary(Op::Greater, Expr::column("a", 0), Expr::literal_i64(200));
    let out = analyze(&expr, ctx).unwrap();
    assert_eq!(out.selectivity.unwrap().as_ppb(), 0);
    // Infeasibility keeps the input boundaries exactly.
    assert_eq!(out.boundaries[0].interval.lower, Scalar::Int64(Some(0)));
    assert_eq!(out.boundaries[0].interval.upper, Scalar::Int64(Some(100)));
}

#[test]
fn constant_true_permits_no_determination() {
    let ctx = context_one_int("a", 0, 100);
    let expr = Expr::literal_bool(true);
    let out = analyze(&expr, ctx).unwrap();
    assert_eq!(out.selectivity.unwrap().as_ppb(), SELECTIVITY_SCALE);
    assert_eq!(out.boundaries[0].interval.lower, Scalar::Int64(Some(0)));
    assert_eq!(out.boundaries[0].interval.upper, Scalar::Int64(Some(100)));
}

#[test]
fn always_true_comparison_permits_no_determination() {
    // The root evaluates to surely-true, so nothing can be narrowed and the
    // selectivity is one.
    let ctx = context_one_int("a", 0, 100);
    let expr = Expr::binary(Op::Less, Expr::literal_i64(1), Expr::literal_i64(2));
    let out = analyze(&expr, ctx).unwrap();
    assert_eq!(out.selectivity.unwrap().as_ppb(), SELECTIVITY_SCALE);
    assert_eq!(out.boundaries[0].interval.lower, Scalar::Int64(Some(0)));
}

#[test]
fn conjunction_multiplies_column_ratios() {
    let schema = Schema::new(vec![int_field("a"), int_field("b")]);
    let stats = vec![int_stats(0, 100), int_stats(0, 19)];
    let ctx = AnalysisContext::try_from_statistics(&schema, &stats).unwrap();
    let expr = Expr::binary(
        Op::And,
        Expr::binary(Op::Greater, Expr::column("a", 0), Expr::literal_i64(50)),
        Expr::binary(Op::Less, Expr::column("b", 1), Expr::literal_i64(10)),
    );
    let out = analyze(&expr, ctx).unwrap();
    assert_eq!(out.boundaries[0].interval.lower, Scalar::Int64(Some(51)));
    assert_eq!(out.boundaries[0].interval.upper, Scalar::Int64(Some(100)));
    assert_eq!(out.boundaries[1].interval.lower, Scalar::Int64(Some(0)));
    assert_eq!(out.boundaries[1].interval.upper, Scalar::Int64(Some(9)));
    // floor(50e9 / 101) = 495_049_504, then halved by b's ratio.
    assert_eq!(out.selectivity.unwrap().as_ppb(), 247_524_752);
}

#[test]
fn equality_pins_the_column() {
    let ctx = context_one_int("a", 0, 9);
    let expr = Expr::binary(Op::Equal, Expr::column("a", 0), Expr::literal_i64(7));
    let out = analyze(&expr, ctx).unwrap();
    assert_eq!(out.boundaries[0].interval.lower, Scalar::Int64(Some(7)));
    assert_eq!(out.boundaries[0].interval.upper, Scalar::Int64(Some(7)));
    assert_eq!(out.selectivity.unwrap().as_ppb(), 100_000_000);
}

#[test]
fn narrower_predicate_never_raises_selectivity() {
    let wide = analyze(
        &Expr::binary(Op::Greater, Expr::column("a", 0), Expr::literal_i64(50)),
        context_one_int("a", 0, 100),
    )
    .unwrap();
    let narrow = analyze(
        &Expr::binary(Op::Greater, Expr::column("a", 0), Expr::literal_i64(80)),
        context_one_int("a", 0, 100),
    )
    .unwrap();
    assert_eq!(narrow.selectivity.unwrap().as_ppb(), 198_019_801);
    assert!(narrow.selectivity.unwrap().as_ppb() <= wide.selectivity.unwrap().as_ppb());
}

#[test]
fn unconstrained_column_does_not_affect_selectivity() {
    let expr = Expr::binary(Op::Greater, Expr::column("a", 0), Expr::literal_i64(50));
    let alone = analyze(&expr, context_one_int("a", 0, 100)).unwrap();
    let schema = Schema::new(vec![int_field("a"), int_field("b")]);
    let stats = vec![int_stats(0, 100), int_stats(0, 9)];
    let with_b = AnalysisContext::try_from_statistics(&schema, &stats).unwrap();
    let with_b = analyze(&expr, with_b).unwrap();
    assert_eq!(
        alone.selectivity.unwrap().as_ppb(),
        with_b.selectivity.unwrap().as_ppb()
    );
    // The untouched column's boundaries pass through unchanged.
    assert_eq!(with_b.boundaries[1].interval.lower, Scalar::Int64(Some(0)));
    assert_eq!(with_b.boundaries[1].interval.upper, Scalar::Int64(Some(9)));
}

#[test]
fn unknown_statistics_make_ratio_uncomputable() {
    let schema = Schema::new(vec![int_field("a")]);
    let stats = vec![ColumnStatistics {
        min_value: Precision::Absent,
        max_value: Precision::Absent,
        distinct_count: Precision::Absent,
    }];
    let ctx = AnalysisContext::try_from_statistics(&schema, &stats).unwrap();
    let expr = Expr::binary(Op::Greater, Expr::column("a", 0), Expr::literal_i64(50));
    let out = analyze(&expr, ctx);
    assert_eq!(out.unwrap_err(), AnalysisError::TypeConversion);
}

#[test]
fn unknown_column_reference_is_skipped() {
    // The predicate references a column the context does not know; the
    // reference stays unconstrained and the known column passes through.
    let ctx = context_one_int("a", 0, 100);
    let expr = Expr::binary(Op::Greater, Expr::column("zzz", 7), Expr::literal_i64(50));
    let out = analyze(&expr, ctx).unwrap();
    assert_eq!(out.selectivity.unwrap().as_ppb(), SELECTIVITY_SCALE);
    assert_eq!(out.boundaries[0].interval.lower, Scalar::Int64(Some(0)));
    assert_eq!(out.boundaries[0].interval.upper, Scalar::Int64(Some(100)));
}

#[test]
fn column_identity_needs_name_and_ordinal() {
    // Same name, wrong ordinal: no binding is applied.
    let ctx = context_one_int("a", 0, 100);
    let expr = Expr::binary(Op::Greater, Expr::column("a", 3), Expr::literal_i64(50));
    let out = analyze(&expr, ctx).unwrap();
    assert_eq!(out.selectivity.unwrap().as_ppb(), SELECTIVITY_SCALE);
    assert_eq!(out.boundaries[0].interval.lower, Scalar::Int64(Some(0)));
}

#[test]
fn exact_true_root_selects_everything() {
    let target: Vec<_> = Vec::new();
    let initial: Vec<_> = Vec::new();
    let s = calculate_selectivity(
        &Scalar::Boolean(Some(true)),
        &Scalar::Boolean(Some(true)),
        &target,
        &initial,
    )
    .unwrap();
    assert_eq!(s.as_ppb(), SELECTIVITY_SCALE);
}

#[test]
fn exact_false_root_selects_nothing() {
    let ctx = context_one_int("a", 0, 100);
    let s = calculate_selectivity(
        &Scalar::Boolean(Some(false)),
        &Scalar::Boolean(Some(false)),
        &ctx.boundaries,
        &ctx.boundaries,
    )
    .unwrap();
    assert_eq!(s.as_ppb(), 0);
}

#[test]
fn greater_or_equal_keeps_the_bound() {
    let ctx = context_one_int("a", 0, 100);
    let expr = Expr::binary(Op::GreaterOrEqual, Expr::column("a", 0), Expr::literal_i64(50));
    let out = analyze(&expr, ctx).unwrap();
    assert_eq!(out.boundaries[0].interval.lower, Scalar::Int64(Some(50)));
    assert_eq!(out.boundaries[0].interval.upper, Scalar::Int64(Some(100)));
    // 51 of the original 101 values remain: floor(51e9 / 101).
    assert_eq!(out.selectivity.unwrap().as_ppb(), 504_950_495);
}

#[test]
fn less_or_equal_keeps_the_bound() {
    let ctx = context_one_int("a", 0, 100);
    let expr = Expr::binary(Op::LessOrEqual, Expr::column("a", 0), Expr::literal_i64(9));
    let out = analyze(&expr, ctx).unwrap();
    assert_eq!(out.boundaries[0].interval.lower, Scalar::Int64(Some(0)));
    assert_eq!(out.boundaries[0].interval.upper, Scalar::Int64(Some(9)));
    // 10 of the original 101 values remain: floor(10e9 / 101).
    assert_eq!(out.selectivity.unwrap().as_ppb(), 99_009_900);
}

#[test]
fn selectivity_is_within_bounds_for_various_predicates() {
    let preds = [
        Expr::binary(Op::GreaterOrEqual, Expr::column("a", 0), Expr::literal_i64(100)),
        Expr::binary(Op::LessOrEqual, Expr::column("a", 0), Expr::literal_i64(0)),
        Expr::binary(Op::Less, Expr::column("a", 0), Expr::literal_i64(1)),
        Expr::binary(Op::Equal, Expr::column("a", 0), Expr::literal_i64(0)),
    ];
    for p in preds {
        let out = analyze(&p, context_one_int("a", 0, 100)).unwrap();
        let ppb = out.selectivity.unwrap().as_ppb();
        assert!(ppb <= SELECTIVITY_SCALE);
    }
}

#[test]
fn error_messages_name_their_cause() {
    assert!(AnalysisError::TypeConversion.message().contains("compared"));
    assert!(AnalysisError::InternalConsistency.message().contains("nodes"));
}
