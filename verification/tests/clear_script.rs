//! The script that drops everything a dump holds.

use pgdump::config::DumpConfig;
use pgdump::dump::Dump;
use pgdump::objects::{
    Extension, PgType, Routine, Schema, Sequence, Table, TableConstraint, UserMapping, View,
};

fn empty_dump() -> Dump {
    Dump::new(DumpConfig {
        host: "localhost".to_string(),
        port: "5432".to_string(),
        user: "test".to_string(),
        password: "test".to_string(),
        database: "testdb".to_string(),
        scheme: "public".to_string(),
        ssl: false,
        file: String::new(),
    })
}

fn make_schema(name: &str) -> Schema {
    Schema::new(name.to_string(), name.to_string(), None)
}

fn make_extension(name: &str) -> Extension {
    Extension {
        name: name.to_string(),
        version: "1.0".to_string(),
        schema: "public".to_string(),
        owner: String::new(),
    }
}

fn make_table(schema: &str, name: &str) -> Table {
    Table {
        schema: schema.to_string(),
        name: name.to_string(),
        raw_schema: schema.to_string(),
        raw_name: name.to_string(),
        owner: String::new(),
        space: None,
        has_indexes: false,
        has_triggers: false,
        has_rules: false,
        has_rowsecurity: false,
        columns: Vec::new(),
        constraints: Vec::new(),
        indexes: Vec::new(),
        triggers: Vec::new(),
        policies: Vec::new(),
        definition: None,
        partition_key: None,
        partition_of: None,
        partition_bound: None,
        comment: None,
        access_method: None,
        is_unlogged: false,
        storage_parameters: None,
        replica_identity: None,
        force_rowsecurity: false,
        inherits_from: Vec::new(),
        typed_table_type: None,
        acl: Vec::new(),
        hash: None,
    }
}

fn make_table_with_fk(schema: &str, name: &str, fk_name: &str) -> Table {
    let fk = TableConstraint {
        catalog: "postgres".to_string(),
        schema: schema.to_string(),
        name: fk_name.to_string(),
        table_name: name.to_string(),
        constraint_type: "FOREIGN KEY".to_string(),
        is_deferrable: false,
        initially_deferred: false,
        definition: None,
        coninhcount: 0,
        is_enforced: true,
        no_inherit: false,
        nulls_not_distinct: false,
        comment: None,
    };
    let mut table = make_table(schema, name);
    table.constraints.push(fk);
    table
}

fn make_view(schema: &str, name: &str) -> View {
    make_view_with_deps(schema, name, Vec::new())
}

fn make_view_with_deps(schema: &str, name: &str, deps: Vec<&str>) -> View {
    View {
        schema: schema.to_string(),
        name: name.to_string(),
        definition: "select 1".to_string(),
        table_relation: deps.into_iter().map(String::from).collect(),
        owner: String::new(),
        comment: None,
        is_materialized: false,
        security_invoker: false,
        check_option: None,
        column_comments: Vec::new(),
        storage_parameters: None,
        tablespace: None,
        acl: Vec::new(),
        hash: None,
    }
}

fn make_materialized_view(schema: &str, name: &str) -> View {
    let mut view = make_view(schema, name);
    view.is_materialized = true;
    view
}

fn make_sequence(schema: &str, name: &str) -> Sequence {
    Sequence {
        schema: schema.to_string(),
        name: name.to_string(),
        owner: String::new(),
        data_type: "bigint".to_string(),
        start_value: Some(1),
        min_value: Some(1),
        max_value: Some(i64::MAX),
        increment_by: Some(1),
        cycle: false,
        cache_size: Some(1),
        last_value: None,
        owned_by_schema: None,
        owned_by_table: None,
        owned_by_column: None,
        is_identity: false,
        is_unlogged: false,
        comment: None,
        acl: Vec::new(),
        hash: None,
    }
}

fn make_routine(schema: &str, name: &str) -> Routine {
    Routine {
        schema: schema.to_string(),
        oid: 1,
        name: name.to_string(),
        lang: "plpgsql".to_string(),
        kind: "function".to_string(),
        return_type: "void".to_string(),
        arguments: String::new(),
        arguments_defaults: None,
        owner: String::new(),
        comment: None,
        source_code: "BEGIN END".to_string(),
        volatility: "volatile".to_string(),
        is_strict: false,
        is_leakproof: false,
        parallel: "unsafe".to_string(),
        security_definer: false,
        config: Vec::new(),
        aggregate_info: None,
        cost_bits: None,
        rows_bits: None,
        support_function: None,
        transform_types: Vec::new(),
        acl: Vec::new(),
        hash: None,
    }
}

fn make_pg_type(schema: &str, name: &str) -> PgType {
    PgType {
        oid: 10000,
        schema: schema.to_string(),
        typname: name.to_string(),
        typnamespace: 2200,
        typowner: 10,
        owner: String::new(),
        typlen: -1,
        typbyval: false,
        typtype: b'c' as i8,
        typcategory: b'C' as i8,
        typispreferred: false,
        typisdefined: true,
        typdelim: b',' as i8,
        typrelid: None,
        typsubscript: None,
        typelem: None,
        typarray: None,
        typinput: "record_in".to_string(),
        typoutput: "record_out".to_string(),
        typreceive: None,
        typsend: None,
        typmodin: None,
        typmodout: None,
        typanalyze: None,
        typalign: b'i' as i8,
        typstorage: b'x' as i8,
        typnotnull: false,
        typbasetype: None,
        typtypmod: None,
        typndims: 0,
        typcollation: None,
        typdefault: None,
        formatted_basetype: None,
        enum_labels: Vec::new(),
        domain_constraints: Vec::new(),
        composite_attributes: Vec::new(),
        range_subtype: None,
        range_collation: None,
        range_opclass: None,
        range_canonical: None,
        range_subdiff: None,
        multirange_name: None,
        domain_collation_name: None,
        comment: None,
        acl: Vec::new(),
        hash: None,
    }
}

#[test]
fn test_clear_script_empty_dump() {
    let dump = empty_dump();
    let script = dump.generate_clear_script(false, false, false);
    // Should only contain the header comment
    assert!(script.contains("clear command"));
    assert!(script.contains("testdb"));
    assert!(!script.contains("drop"));
}

#[test]
fn test_clear_script_single_transaction() {
    let mut dump = empty_dump();
    dump.schemas.push(make_schema("public"));
    let script = dump.generate_clear_script(true, false, false);
    assert!(script.contains("begin;\n"));
    assert!(script.contains("commit;\n"));
}

#[test]
fn test_clear_script_no_transaction() {
    let mut dump = empty_dump();
    dump.schemas.push(make_schema("public"));
    let script = dump.generate_clear_script(false, false, false);
    assert!(!script.contains("begin;"));
    assert!(!script.contains("commit;"));
}

#[test]
fn test_clear_script_with_comments() {
    let mut dump = empty_dump();
    dump.schemas.push(make_schema("public"));
    dump.tables.push(make_table("public", "users"));
    let script = dump.generate_clear_script(false, true, false);
    assert!(script.contains("/* Drop schema: public */"));
    assert!(script.contains("/* Drop table: public.users */"));
    assert!(script.contains("/* ---> Drop Tables --------------- */"));
    assert!(script.contains("/* ---> Drop Schemas --------------- */"));
}

#[test]
fn test_clear_script_without_comments() {
    let mut dump = empty_dump();
    dump.schemas.push(make_schema("public"));
    dump.tables.push(make_table("public", "users"));
    let script = dump.generate_clear_script(false, false, false);
    assert!(!script.contains("/* Drop schema:"));
    assert!(!script.contains("/* Drop table:"));
    // Drop statements should still be present (without cascade)
    assert!(script.contains("drop schema if exists public;"));
    assert!(script.contains("drop table if exists public.users;"));
    assert!(!script.contains("cascade"));
}

#[test]
fn test_clear_script_drops_schemas() {
    let mut dump = empty_dump();
    dump.schemas.push(make_schema("public"));
    dump.schemas.push(make_schema("analytics"));
    let script = dump.generate_clear_script(false, false, false);
    assert!(script.contains("drop schema if exists public;"));
    assert!(script.contains("drop schema if exists analytics;"));
}

#[test]
fn test_clear_script_drops_extensions() {
    let mut dump = empty_dump();
    dump.extensions.push(make_extension("\"uuid-ossp\""));
    dump.extensions.push(make_extension("pg_trgm"));
    let script = dump.generate_clear_script(false, false, false);
    assert!(script.contains("drop extension if exists \"uuid-ossp\";"));
    assert!(script.contains("drop extension if exists pg_trgm;"));
}

#[test]
fn test_clear_script_drops_tables() {
    let mut dump = empty_dump();
    dump.tables.push(make_table("public", "users"));
    dump.tables.push(make_table("public", "orders"));
    let script = dump.generate_clear_script(false, false, false);
    assert!(script.contains("drop table if exists public.users;"));
    assert!(script.contains("drop table if exists public.orders;"));
}

#[test]
fn test_clear_script_drops_foreign_keys_before_tables() {
    let mut dump = empty_dump();
    dump.tables
        .push(make_table_with_fk("public", "orders", "fk_orders_users"));
    let script = dump.generate_clear_script(false, false, false);
    let fk_pos = script
        .find("alter table public.orders drop constraint if exists fk_orders_users;")
        .expect("FK drop missing");
    let table_pos = script
        .find("drop table if exists public.orders;")
        .expect("table drop missing");
    assert!(fk_pos < table_pos, "FK should be dropped before the table");
}

#[test]
fn test_clear_script_drops_views() {
    let mut dump = empty_dump();
    dump.views.push(make_view("public", "active_users"));
    let script = dump.generate_clear_script(false, false, false);
    assert!(script.contains("drop view if exists public.active_users;"));
}

#[test]
fn test_clear_script_drops_materialized_views() {
    let mut dump = empty_dump();
    dump.views
        .push(make_materialized_view("public", "daily_stats"));
    let script = dump.generate_clear_script(false, false, false);
    assert!(script.contains("drop materialized view if exists public.daily_stats;"));
}

#[test]
fn test_clear_script_drops_materialized_before_regular_views() {
    let mut dump = empty_dump();
    dump.views.push(make_view("public", "regular_view"));
    dump.views
        .push(make_materialized_view("public", "mat_view"));
    let script = dump.generate_clear_script(false, false, false);
    let mat_pos = script
        .find("drop materialized view if exists public.mat_view;")
        .expect("materialized view drop missing");
    let reg_pos = script
        .find("drop view if exists public.regular_view;")
        .expect("regular view drop missing");
    assert!(
        mat_pos < reg_pos,
        "Materialized views should be dropped before regular views"
    );
}

#[test]
fn test_clear_script_drops_sequences() {
    let mut dump = empty_dump();
    dump.sequences.push(make_sequence("public", "users_id_seq"));
    let script = dump.generate_clear_script(false, false, false);
    assert!(script.contains("drop sequence if exists public.users_id_seq;"));
}

#[test]
fn test_clear_script_drops_routines() {
    let mut dump = empty_dump();
    dump.routines.push(make_routine("public", "my_func"));
    let script = dump.generate_clear_script(false, false, false);
    assert!(script.contains("drop function if exists public.my_func ();"));
}

#[test]
fn test_clear_script_drops_types() {
    let mut dump = empty_dump();
    dump.types.push(make_pg_type("public", "my_composite"));
    let script = dump.generate_clear_script(false, false, false);
    assert!(script.contains("drop type if exists public.my_composite;"));
}

#[test]
fn test_clear_script_dependency_order() {
    let mut dump = empty_dump();
    dump.schemas.push(make_schema("public"));
    dump.extensions.push(make_extension("pg_trgm"));
    dump.types.push(make_pg_type("public", "my_type"));
    dump.sequences.push(make_sequence("public", "seq1"));
    dump.routines.push(make_routine("public", "fn1"));
    dump.tables.push(make_table("public", "tbl1"));
    dump.views.push(make_view("public", "v1"));

    let script = dump.generate_clear_script(false, false, false);

    let find = |needle: &str| {
        script
            .find(needle)
            .unwrap_or_else(|| panic!("missing `{needle}` in clear script:\n{script}"))
    };
    let view_pos = find("drop view if exists public.v1;");
    let table_pos = find("drop table if exists public.tbl1;");
    let routine_pos = find("drop function if exists public.fn1 ();");
    let seq_pos = find("drop sequence if exists public.seq1;");
    let type_pos = find("drop type if exists public.my_type;");
    let ext_pos = find("drop extension if exists pg_trgm;");
    let schema_pos = find("drop schema if exists public;");

    assert!(view_pos < table_pos, "views before tables");
    assert!(table_pos < routine_pos, "tables before routines");
    assert!(routine_pos < seq_pos, "routines before sequences");
    assert!(seq_pos < type_pos, "sequences before types");
    assert!(type_pos < ext_pos, "types before extensions");
    assert!(ext_pos < schema_pos, "extensions before schemas");
}

#[test]
fn test_clear_script_header_contains_db_info() {
    let dump = empty_dump();
    let script = dump.generate_clear_script(false, false, false);
    assert!(script.contains("Database: testdb"));
    assert!(script.contains("Schema(s): public"));
    assert!(script.contains("Dump Info:"));
}

#[test]
fn test_clear_script_no_cascade_by_default() {
    let mut dump = empty_dump();
    dump.schemas.push(make_schema("public"));
    dump.extensions.push(make_extension("pg_trgm"));
    dump.types.push(make_pg_type("public", "my_type"));
    dump.sequences.push(make_sequence("public", "seq1"));
    dump.tables.push(make_table("public", "tbl1"));
    dump.views.push(make_view("public", "v1"));

    let script = dump.generate_clear_script(false, false, false);

    assert!(
        !script.contains("cascade"),
        "default should not use CASCADE"
    );
    assert!(script.contains("drop view if exists public.v1;"));
    assert!(script.contains("drop table if exists public.tbl1;"));
    assert!(script.contains("drop sequence if exists public.seq1;"));
    assert!(script.contains("drop type if exists public.my_type;"));
    assert!(script.contains("drop extension if exists pg_trgm;"));
    assert!(script.contains("drop schema if exists public;"));
}

#[test]
fn test_clear_script_cascade_when_enabled() {
    let mut dump = empty_dump();
    dump.schemas.push(make_schema("public"));
    dump.extensions.push(make_extension("pg_trgm"));
    dump.types.push(make_pg_type("public", "my_type"));
    dump.sequences.push(make_sequence("public", "seq1"));
    dump.routines.push(make_routine("public", "fn1"));
    dump.tables.push(make_table("public", "tbl1"));
    dump.views.push(make_view("public", "v1"));

    let script = dump.generate_clear_script(false, false, true);

    assert!(script.contains("drop view if exists public.v1 cascade;"));
    assert!(script.contains("drop table if exists public.tbl1 cascade;"));
    assert!(script.contains("drop function if exists public.fn1 () cascade;"));
    assert!(script.contains("drop sequence if exists public.seq1 cascade;"));
    assert!(script.contains("drop type if exists public.my_type cascade;"));
    assert!(script.contains("drop extension if exists pg_trgm cascade;"));
    assert!(script.contains("drop schema if exists public cascade;"));
}

#[test]
fn test_clear_script_full_integration() {
    let mut dump = empty_dump();
    dump.schemas.push(make_schema("app"));
    dump.extensions.push(make_extension("\"uuid-ossp\""));
    dump.tables
        .push(make_table_with_fk("app", "orders", "fk_user"));
    dump.tables.push(make_table("app", "users"));
    dump.views.push(make_view("app", "order_summary"));
    dump.views
        .push(make_materialized_view("app", "daily_report"));
    dump.sequences.push(make_sequence("app", "orders_id_seq"));
    dump.routines.push(make_routine("app", "calc_total"));
    dump.types.push(make_pg_type("app", "order_status"));

    let script = dump.generate_clear_script(true, true, false);

    // Transaction wrapping
    assert!(script.contains("begin;"));
    assert!(script.contains("commit;"));

    // All section headers
    assert!(script.contains("/* ---> Drop Views --------------- */"));
    assert!(script.contains("/* ---> Drop Tables --------------- */"));
    assert!(script.contains("/* ---> Drop Routines --------------- */"));
    assert!(script.contains("/* ---> Drop Sequences --------------- */"));
    assert!(script.contains("/* ---> Drop Types --------------- */"));
    assert!(script.contains("/* ---> Drop Extensions --------------- */"));
    assert!(script.contains("/* ---> Drop Schemas --------------- */"));

    // All objects are dropped (without cascade by default)
    assert!(script.contains("drop materialized view if exists app.daily_report;"));
    assert!(script.contains("drop view if exists app.order_summary;"));
    assert!(script.contains("alter table app.orders drop constraint if exists fk_user;"));
    assert!(script.contains("drop table if exists app.orders;"));
    assert!(script.contains("drop table if exists app.users;"));
    assert!(script.contains("drop function if exists app.calc_total ();"));
    assert!(script.contains("drop sequence if exists app.orders_id_seq;"));
    assert!(script.contains("drop type if exists app.order_status;"));
    assert!(script.contains("drop extension if exists \"uuid-ossp\";"));
    assert!(script.contains("drop schema if exists app;"));
    assert!(!script.contains("cascade"));
}

#[test]
fn test_clear_script_view_on_view_dependency_order() {
    // v_top_customers depends on v_customer_summary — must be dropped first
    let mut dump = empty_dump();
    dump.views.push(make_view_with_deps(
        "app",
        "v_customer_summary",
        vec!["app.customers"],
    ));
    dump.views.push(make_view_with_deps(
        "app",
        "v_top_customers",
        vec!["app.v_customer_summary"],
    ));

    let script = dump.generate_clear_script(false, false, false);
    let top_pos = script
        .find("drop view if exists app.v_top_customers;")
        .expect("v_top_customers drop missing");
    let summary_pos = script
        .find("drop view if exists app.v_customer_summary;")
        .expect("v_customer_summary drop missing");
    assert!(
        top_pos < summary_pos,
        "dependent view must be dropped before its dependency"
    );
}

#[test]
fn test_clear_script_regular_view_depends_on_materialized_view() {
    // regular view depends on a materialized view
    let mut dump = empty_dump();
    let mut mv = make_view_with_deps("app", "base_stats", vec!["app.orders"]);
    mv.is_materialized = true;
    dump.views.push(mv);
    dump.views.push(make_view_with_deps(
        "app",
        "top_stats",
        vec!["app.base_stats"],
    ));

    let script = dump.generate_clear_script(false, false, false);
    let top_pos = script
        .find("drop view if exists app.top_stats;")
        .expect("top_stats drop missing");
    let base_pos = script
        .find("drop materialized view if exists app.base_stats;")
        .expect("base_stats drop missing");
    assert!(
        top_pos < base_pos,
        "regular view that depends on materialized view must be dropped first"
    );
}

#[test]
fn test_clear_script_three_level_view_chain() {
    // c depends on b, b depends on a — must drop c, b, a
    let mut dump = empty_dump();
    dump.views
        .push(make_view_with_deps("s", "a", vec!["s.tbl"]));
    dump.views.push(make_view_with_deps("s", "b", vec!["s.a"]));
    dump.views.push(make_view_with_deps("s", "c", vec!["s.b"]));

    let script = dump.generate_clear_script(false, false, false);
    let find = |needle: &str| {
        script
            .find(needle)
            .unwrap_or_else(|| panic!("missing `{needle}` in clear script:\n{script}"))
    };
    let pos_c = find("drop view if exists s.c;");
    let pos_b = find("drop view if exists s.b;");
    let pos_a = find("drop view if exists s.a;");
    assert!(pos_c < pos_b, "c before b");
    assert!(pos_b < pos_a, "b before a");
}

#[test]
fn test_clear_script_views_stable_alphabetical_tie_break() {
    // Independent views with no deps — must appear in alphabetical order
    let mut dump = empty_dump();
    dump.views.push(make_view("s", "zeta"));
    dump.views.push(make_view("s", "alpha"));
    dump.views.push(make_view("s", "mu"));

    let script = dump.generate_clear_script(false, false, false);
    let find = |needle: &str| {
        script
            .find(needle)
            .unwrap_or_else(|| panic!("missing `{needle}` in clear script:\n{script}"))
    };
    let pos_a = find("drop view if exists s.alpha;");
    let pos_m = find("drop view if exists s.mu;");
    let pos_z = find("drop view if exists s.zeta;");
    assert!(pos_a < pos_m, "alpha before mu");
    assert!(pos_m < pos_z, "mu before zeta");
}

#[test]
fn test_clear_script_views_materialized_tie_break_before_regular() {
    // At the same dependency level, materialized views come first
    let mut dump = empty_dump();
    dump.views.push(make_view("s", "regular_b"));
    dump.views.push(make_materialized_view("s", "mat_a"));
    dump.views.push(make_view("s", "regular_a"));

    let script = dump.generate_clear_script(false, false, false);
    let find = |needle: &str| {
        script
            .find(needle)
            .unwrap_or_else(|| panic!("missing `{needle}` in clear script:\n{script}"))
    };
    let mat_pos = find("drop materialized view if exists s.mat_a;");
    let reg_a_pos = find("drop view if exists s.regular_a;");
    let reg_b_pos = find("drop view if exists s.regular_b;");
    assert!(mat_pos < reg_a_pos, "materialized before regular_a");
    assert!(mat_pos < reg_b_pos, "materialized before regular_b");
    assert!(
        reg_a_pos < reg_b_pos,
        "regular_a before regular_b alphabetically"
    );
}

const HEADER: &str = "/*\n Script generated by PostgreSQL Comparer (clear command)\n Database: testdb\n Schema(s): public\n\n\tDump Info:\n\t\t- Schemas: 0\n\t\t- Extensions: 0\n\t\t- Types: 0\n\t\t- Enums: 0\n\t\t- Routines: 0\n\t\t- Tables: 0\n\t\t- Views: 0\n*/\n";

#[test]
fn nothing_to_drop_leaves_the_header() {
    let dump = empty_dump();
    assert_eq!(dump.generate_clear_script(false, true, true), HEADER);
    assert_eq!(dump.generate_clear_script(false, false, false), HEADER);
    assert_eq!(
        dump.generate_clear_script(true, true, false),
        format!("{HEADER}begin;\n\ncommit;\n")
    );
}

#[test]
fn whole_script_of_one_view_and_one_table() {
    let mut dump = empty_dump();
    dump.tables.push(make_table_with_fk("s", "t", "fk"));
    dump.views.push(make_materialized_view("s", "m"));
    let header = HEADER
        .replace("Tables: 0", "Tables: 1")
        .replace("Views: 0", "Views: 1");
    assert_eq!(
        dump.generate_clear_script(false, false, true),
        format!(
            "{header}drop materialized view if exists s.m cascade;\n\nalter table s.t drop constraint if exists fk;\n\ndrop table if exists s.t cascade;\n\n"
        )
    );
    assert_eq!(
        dump.generate_clear_script(true, true, false),
        format!(
            "{header}begin;\n\n/* ---> Drop Views --------------- */\n/* Drop materialized view: s.m */\ndrop materialized view if exists s.m;\n\n\n/* ---> Drop Tables --------------- */\n/* Drop foreign key: s.t.fk */\nalter table s.t drop constraint if exists fk;\n\n/* Drop table: s.t */\ndrop table if exists s.t;\n\n\ncommit;\n"
        )
    );
}

#[test]
fn constraints_of_other_kinds_stay() {
    let mut dump = empty_dump();
    let mut table = make_table_with_fk("s", "t", "one");
    table.constraints[0].constraint_type = "Foreign Key".to_string();
    let mut check = table.constraints[0].clone();
    check.name = "two".to_string();
    check.constraint_type = "CHECK".to_string();
    table.constraints.push(check);
    dump.tables.push(table);
    let script = dump.generate_clear_script(false, false, false);
    assert!(script.contains("drop constraint if exists one;"));
    assert!(!script.contains("drop constraint if exists two;"));
}

#[test]
fn partitions_go_before_other_tables() {
    let mut dump = empty_dump();
    dump.tables.push(make_table("s", "parent"));
    let mut child = make_table("s", "child");
    child.partition_of = Some("s.parent".to_string());
    dump.tables.push(child);
    dump.tables.push(make_table("s", "other"));
    let script = dump.generate_clear_script(false, false, false);
    let drops = &script[script.find("drop").unwrap()..];
    assert_eq!(
        drops,
        "drop table if exists s.child;\n\ndrop table if exists s.parent;\n\ndrop table if exists s.other;\n\n"
    );
}

#[test]
fn routines_are_dropped_by_kind() {
    let mut dump = empty_dump();
    for (kind, arguments) in [
        ("Window", "integer"),
        ("procedure", "a text"),
        ("aggregate", ""),
        ("AGGREGATE", "integer"),
        ("other", ""),
    ] {
        let mut routine = make_routine("s", "r");
        routine.kind = kind.to_string();
        routine.arguments = arguments.to_string();
        dump.routines.push(routine);
    }
    let script = dump.generate_clear_script(false, true, false);
    let drops = &script[script.find("\n/* --->").unwrap()..];
    assert_eq!(
        drops,
        "\n/* ---> Drop Routines --------------- */\n/* Drop Window: s.r */\ndrop function if exists s.r (integer);\n\n/* Drop procedure: s.r */\ndrop procedure if exists s.r (a text);\n\n/* Drop aggregate: s.r */\ndrop aggregate if exists s.r (*);\n\n/* Drop AGGREGATE: s.r */\ndrop aggregate if exists s.r (integer);\n\n/* Drop other: s.r */\ndrop function if exists s.r ();\n\n"
    );
}

/// The last words of the drops of a dump, in order.
fn drop_order(dump: &Dump) -> Vec<String> {
    let script = dump.generate_clear_script(false, false, false);
    script
        .lines()
        .filter(|line| line.starts_with("drop"))
        .map(|line| line.rsplit(' ').next().unwrap().trim_end_matches(';').to_string())
        .collect()
}

#[test]
fn views_that_read_each_other_go_last_by_rank() {
    let mut dump = empty_dump();
    dump.views.push(make_view_with_deps("s", "z", vec!["s.y"]));
    dump.views.push(make_view_with_deps("s", "y", vec!["s.z"]));
    dump.views.push(make_view("s", "zz"));
    assert_eq!(drop_order(&dump), ["s.zz", "s.y", "s.z"]);
}

#[test]
fn a_view_that_reads_itself_is_free() {
    let mut dump = empty_dump();
    dump.views.push(make_view_with_deps("s", "b", vec!["s.b"]));
    dump.views.push(make_view_with_deps("s", "a", vec!["s.b", "s.b"]));
    assert_eq!(drop_order(&dump), ["s.a", "s.b"]);
}

#[test]
fn released_views_join_the_queue_by_rank() {
    let mut dump = empty_dump();
    dump.views.push(make_view_with_deps("s", "top", vec!["s.a", "s.m"]));
    dump.views.push(make_view("s", "a"));
    dump.views.push(make_materialized_view("s", "m"));
    dump.views.push(make_view("s", "zeta"));
    assert_eq!(drop_order(&dump), ["s.top", "s.m", "s.a", "s.zeta"]);
}

#[test]
fn of_views_with_one_name_the_last_is_meant() {
    let mut dump = empty_dump();
    dump.views.push(make_view("s", "same"));
    dump.views.push(make_materialized_view("s", "same"));
    dump.views.push(make_view_with_deps("s", "top", vec!["s.same"]));
    let script = dump.generate_clear_script(false, false, false);
    let drops = &script[script.find("drop").unwrap()..];
    assert_eq!(
        drops,
        "drop view if exists s.same;\n\ndrop view if exists s.top;\n\ndrop materialized view if exists s.same;\n\n"
    );
}

fn make_partition(schema: &str, name: &str, parent: &str) -> Table {
    let mut table = make_table(schema, name);
    table.partition_of = Some(parent.to_string());
    table
}

#[test]
fn partitions_of_partitions_go_first() {
    let mut dump = empty_dump();
    dump.tables.push(make_table("s", "top"));
    dump.tables.push(make_partition("s", "mid", "s.top"));
    dump.tables.push(make_partition("s", "leaf", "s.mid"));
    dump.tables.push(make_partition("s", "side", "s.top"));
    dump.tables.push(make_partition("s", "lone", "other.parent"));
    assert_eq!(
        drop_order(&dump),
        ["s.leaf", "s.mid", "s.side", "s.lone", "s.top"]
    );
    dump.tables.reverse();
    let order = drop_order(&dump);
    let place = |name: &str| order.iter().position(|n| n == name).unwrap();
    assert_eq!(order.len(), 5);
    assert!(place("s.leaf") < place("s.mid"));
    assert!(place("s.mid") < place("s.top"));
    assert!(place("s.side") < place("s.top"));
}

#[test]
fn partitions_in_circles_wait_for_those_outside() {
    let mut dump = empty_dump();
    dump.tables.push(make_table("s", "top"));
    dump.tables.push(make_partition("s", "a", "s.b"));
    dump.tables.push(make_partition("s", "x", "s.top"));
    dump.tables.push(make_partition("s", "b", "s.a"));
    dump.tables.push(make_partition("s", "leaf", "s.a"));
    // `a` waits for `leaf`; `a` and `b` do not wait for each other
    assert_eq!(drop_order(&dump), ["s.x", "s.b", "s.leaf", "s.a", "s.top"]);
}

#[test]
fn a_circle_alone_is_dropped_in_list_order() {
    let mut dump = empty_dump();
    dump.tables.push(make_partition("s", "a", "s.b"));
    dump.tables.push(make_partition("s", "b", "s.a"));
    dump.tables.push(make_partition("s", "x", "other.parent"));
    assert_eq!(drop_order(&dump), ["s.a", "s.b", "s.x"]);
}

#[test]
fn a_table_that_names_itself_waits_for_its_other_partitions() {
    let mut dump = empty_dump();
    dump.tables.push(make_partition("s", "own", "s.own"));
    dump.tables.push(make_partition("s", "part", "s.own"));
    assert_eq!(drop_order(&dump), ["s.part", "s.own"]);
}

#[test]
fn unrelated_partitions_keep_the_order_of_the_list() {
    let mut dump = empty_dump();
    dump.tables.push(make_partition("s", "x", "s.a"));
    dump.tables.push(make_partition("s", "y", "s.b"));
    dump.tables.push(make_partition("s", "b", "s.c"));
    dump.tables.push(make_table("s", "c"));
    dump.tables.push(make_table("s", "a"));
    assert_eq!(drop_order(&dump), ["s.x", "s.y", "s.b", "s.c", "s.a"]);
}

/// A dump with something of many kinds.
fn mixed_dump() -> Dump {
    let mut dump = empty_dump();
    dump.tables.push(make_table_with_fk("s", "t", "fk"));
    dump.tables.push(make_partition("s", "p", "s.t"));
    dump.views.push(make_view_with_deps("s", "v", vec!["s.w"]));
    dump.views.push(make_view("s", "w"));
    dump.views.push(make_materialized_view("s", "m"));
    dump.routines.push(make_routine("s", "r"));
    dump.sequences.push(make_sequence("s", "q"));
    dump.types.push(make_pg_type("s", "ty"));
    dump.extensions.push(make_extension("e"));
    dump.schemas.push(make_schema("s"));
    dump.user_mappings.push(UserMapping {
        server_name: "srv".to_string(),
        username: "u".to_string(),
        options: Vec::new(),
        hash: None,
    });
    dump
}

#[test]
fn cascade_changes_the_drops_that_take_it_and_nothing_else() {
    let dump = mixed_dump();
    for (transaction, comments) in [(false, false), (false, true), (true, false), (true, true)] {
        let plain = dump.generate_clear_script(transaction, comments, false);
        let cascaded = dump.generate_clear_script(transaction, comments, true);
        let expected: String = plain
            .lines()
            .map(|line| {
                if line.starts_with("drop ") && !line.starts_with("drop user mapping ") {
                    format!("{} cascade;\n", line.strip_suffix(';').unwrap())
                } else {
                    format!("{line}\n")
                }
            })
            .collect();
        assert_eq!(cascaded, expected);
    }
    let cascaded = dump.generate_clear_script(false, false, true);
    assert!(cascaded.contains("\nalter table s.t drop constraint if exists fk;\n"));
    assert!(cascaded.contains("\ndrop user mapping if exists for u server srv;\n"));
}

#[test]
fn comments_and_the_transaction_leave_the_statements() {
    let dump = mixed_dump();
    let statements = |transaction: bool, comments: bool| -> Vec<String> {
        dump.generate_clear_script(transaction, comments, false)
            .lines()
            .filter(|line| line.starts_with("drop ") || line.starts_with("alter "))
            .map(String::from)
            .collect()
    };
    let plain = statements(false, false);
    assert_eq!(plain.len(), 12);
    for (transaction, comments) in [(false, true), (true, false), (true, true)] {
        assert_eq!(statements(transaction, comments), plain);
    }
    let whole = dump.generate_clear_script(true, false, false);
    assert_eq!(whole.lines().filter(|line| *line == "begin;").count(), 1);
    assert_eq!(whole.lines().last(), Some("commit;"));
}

#[test]
fn views_may_be_listed_in_any_order() {
    let views = [
        make_view_with_deps("s", "a", vec!["s.c", "s.d", "s.c"]),
        make_materialized_view("s", "b"),
        make_view_with_deps("s", "c", vec!["s.d"]),
        make_view("s", "d"),
        make_view_with_deps("s", "x", vec!["s.y"]),
        make_view_with_deps("s", "y", vec!["s.x"]),
    ];
    let mut dump = empty_dump();
    dump.views = views.to_vec();
    let script = dump.generate_clear_script(true, true, true);
    assert_eq!(
        drop_order(&dump),
        ["s.b", "s.a", "s.c", "s.d", "s.x", "s.y"]
    );
    for turn in 1..views.len() {
        dump.views.rotate_left(1);
        assert_eq!(dump.generate_clear_script(true, true, true), script, "{turn}");
    }
    dump.views.reverse();
    assert_eq!(dump.generate_clear_script(true, true, true), script);
}
