//! Routines and sequences.

use pgdump::objects::{Routine, Sequence};
use pgdump::routines::{cost_to_keep, normalize_routines, rows_to_keep, AggregateRow, RoutineRow};
use pgdump::sequences::SequenceRow;

fn aggregate_row() -> AggregateRow {
    AggregateRow {
        sfunc: None,
        stype: None,
        sspace: None,
        finalfunc: None,
        finalfunc_extra: None,
        finalfunc_modify: None,
        combinefunc: None,
        serialfunc: None,
        deserialfunc: None,
        initcond: None,
        msfunc: None,
        minvfunc: None,
        mstype: None,
        msspace: None,
        mfinalfunc: None,
        mfinalfunc_extra: None,
        mfinalfunc_modify: None,
        minitcond: None,
        sortop: None,
        kind: None,
        num_direct_args: None,
    }
}

fn routine_row(kind: &str) -> RoutineRow {
    RoutineRow {
        schema: "s".to_string(),
        oid: 5,
        name: "r".to_string(),
        lang: "plpgsql".to_string(),
        kind: kind.to_string(),
        return_type: None,
        arguments: "a text".to_string(),
        arguments_defaults: None,
        owner: None,
        comment: None,
        source_code: "begin\r\nend".to_string(),
        volatility: "v".to_string(),
        is_strict: true,
        is_leakproof: false,
        parallel: "u".to_string(),
        security_definer: false,
        config: None,
        aggregate: aggregate_row(),
        cost_bits: Some(100.0_f64.to_bits()),
        rows_bits: Some(0.0_f64.to_bits()),
        support_function: None,
        transform_types: None,
        acl: None,
    }
}

#[test]
fn what_is_missing_gets_its_default() {
    let routine = Routine::from_row(routine_row("function"));
    assert_eq!(routine.return_type, "void");
    assert_eq!(routine.owner, "");
    assert_eq!(routine.volatility, "volatile");
    assert_eq!(routine.parallel, "unsafe");
    assert_eq!(routine.source_code, "begin\nend");
    assert_eq!(routine.cost_bits, None);
    assert_eq!(routine.rows_bits, None);
    assert_eq!(routine.aggregate_info, None);
    assert_eq!(routine.oid, 5);
    assert!(routine.is_strict);
}

#[test]
fn letters_are_written_out() {
    for (letter, name) in [("i", "immutable"), ("s", "stable"), ("x", "volatile")] {
        let mut row = routine_row("function");
        row.volatility = letter.to_string();
        assert_eq!(Routine::from_row(row).volatility, name);
    }
    for (letter, name) in [("s", "safe"), ("r", "restricted"), ("", "unsafe")] {
        let mut row = routine_row("function");
        row.parallel = letter.to_string();
        assert_eq!(Routine::from_row(row).parallel, name);
    }
}

#[test]
fn aggregates_have_their_parts() {
    let mut row = routine_row("aggregate");
    row.aggregate.sfunc = Some("add".to_string());
    row.aggregate.finalfunc_modify = Some("r".to_string());
    row.aggregate.mfinalfunc_modify = Some("w".to_string());
    row.aggregate.finalfunc_extra = Some(true);
    row.aggregate.kind = Some("hypothetical".to_string());
    row.aggregate.num_direct_args = Some(2);
    let info = Routine::from_row(row).aggregate_info.unwrap();
    assert_eq!(info.sfunc, "add");
    assert_eq!(info.stype, "");
    assert_eq!(info.finalfunc_modify, None);
    assert_eq!(info.mfinalfunc_modify.as_deref(), Some("w"));
    assert!(info.finalfunc_extra && !info.mfinalfunc_extra);
    assert_eq!(info.kind, 'h');
    assert_eq!(info.num_direct_args, 2);
    let bare = Routine::from_row(routine_row("aggregate")).aggregate_info.unwrap();
    assert_eq!(bare.kind, 'n');
    assert_eq!(bare.num_direct_args, 0);
}

/// The rule for costs, on the numbers themselves.
fn keeps_cost(kind: &str, lang: &str, cost: f64) -> bool {
    let usual = if lang == "c" || lang == "internal" { 1.0 } else { 100.0 };
    kind != "procedure" && (cost - usual).abs() > f64::EPSILON
}

#[test]
fn usual_costs_are_left_out() {
    let below = |x: f64, steps: u64| f64::from_bits(x.to_bits() - steps);
    let above = |x: f64, steps: u64| f64::from_bits(x.to_bits() + steps);
    let costs = [
        0.0,
        -0.0,
        1.0,
        -1.0,
        100.0,
        -100.0,
        0.5,
        1e300,
        f64::INFINITY,
        f64::NEG_INFINITY,
        f64::NAN,
        -f64::NAN,
        below(1.0, 1),
        below(1.0, 2),
        below(1.0, 3),
        above(1.0, 1),
        above(1.0, 2),
        below(100.0, 1),
        above(100.0, 1),
        f64::MIN_POSITIVE,
    ];
    for lang in ["c", "internal", "sql", "plpgsql"] {
        for kind in ["function", "procedure", "aggregate"] {
            for cost in costs {
                let kept = cost_to_keep(kind, lang, Some(cost.to_bits()));
                assert_eq!(kept.is_some(), keeps_cost(kind, lang, cost), "{lang} {kind} {cost}");
                assert!(kept.is_none() || kept == Some(cost.to_bits()));
            }
        }
    }
    assert_eq!(cost_to_keep("function", "sql", None), None);
}

#[test]
fn row_estimates_above_zero_stay() {
    for rows in [0.0, -0.0, 1.0, -1.0, 1000.0, f64::INFINITY, f64::NAN, f64::MIN_POSITIVE] {
        let kept = rows_to_keep("function", Some(rows.to_bits()));
        assert_eq!(kept.is_some(), rows > 0.0, "{rows}");
        assert_eq!(rows_to_keep("procedure", Some(rows.to_bits())), None);
    }
    assert_eq!(rows_to_keep("function", None), None);
}

#[test]
fn routines_with_crlf_are_normalized() {
    let mut first = Routine::from_row(routine_row("function"));
    first.hash = Some("old".to_string());
    let mut second = first.clone();
    second.source_code = "a\r\nb\r\n".to_string();
    let third = first.clone();
    let mut routines = vec![first.clone(), second, third];
    assert_eq!(normalize_routines(&mut routines), [1]);
    assert_eq!(routines[1].source_code, "a\nb\n");
    assert_eq!(routines[1].hash.as_deref(), Some("old"));
    assert_eq!(routines[0], first);
    assert!(normalize_routines(&mut routines).is_empty());
}

fn sequence_row() -> SequenceRow {
    SequenceRow {
        schema: "s".to_string(),
        name: "q".to_string(),
        owner: "o".to_string(),
        data_type: "bigint".to_string(),
        start_value: Some(1),
        min_value: None,
        max_value: Some(i64::MAX),
        increment_by: Some(-1),
        cycle: true,
        cache_size: None,
        last_value: None,
        owned_by_schema: None,
        owned_by_table: Some("t".to_string()),
        owned_by_column: None,
        comment: None,
        acl: None,
        dependency_type: None,
        persistence: None,
    }
}

#[test]
fn sequences_know_identities_and_logging() {
    let plain = Sequence::from_row(sequence_row());
    assert!(!plain.is_identity && !plain.is_unlogged && plain.acl.is_empty());
    assert_eq!(plain.increment_by, Some(-1));
    assert_eq!(plain.owned_by_table.as_deref(), Some("t"));
    let mut row = sequence_row();
    row.dependency_type = Some("i".to_string());
    row.persistence = Some("p".to_string());
    row.acl = Some(vec!["x".to_string()]);
    let identity = Sequence::from_row(row);
    assert!(identity.is_identity && !identity.is_unlogged);
    assert_eq!(identity.acl, ["x"]);
    let mut row = sequence_row();
    row.dependency_type = Some("a".to_string());
    row.persistence = Some("u".to_string());
    let unlogged = Sequence::from_row(row);
    assert!(!unlogged.is_identity && unlogged.is_unlogged);
}
