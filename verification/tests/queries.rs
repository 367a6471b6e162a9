//! The queries that read the catalog.

use pgdump::dump::Dump;
use pgdump::queries::{
    casts_query, collations_query, default_privileges_query, extensions_query,
    multirange_probe_needed, ranges_query, types_query, CollationColumns, SUBSCRIPTIONS_QUERY,
};

#[test]
fn fetch_view_col_comments_query_filters_pg_description_by_classoid() {
    let query = Dump::build_view_col_comments_query("('public')");

    assert!(
        query.contains("d.classoid = 'pg_class'::regclass"),
        "pg_description join on view column comments must filter by classoid to avoid OID collisions across catalogs: {query}"
    );
}

#[test]
fn fetch_sequences_query_filters_pg_description_by_classoid() {
    let query = Dump::build_sequences_query("('public')");

    assert!(
        query.contains("seq_desc.classoid = 'pg_class'::regclass"),
        "pg_description join on sequences must filter by classoid to avoid OID collisions across catalogs: {query}"
    );
}

#[test]
fn fetch_tables_query_filters_pg_description_by_classoid() {
    let query = Dump::build_tables_query("('public')");

    assert!(
        query.contains("d.classoid = 'pg_class'::regclass"),
        "pg_description join on tables must filter by classoid to avoid OID collisions across catalogs: {query}"
    );
}

#[test]
fn fetch_regular_views_query_filters_pg_description_by_classoid() {
    let query = Dump::build_regular_views_query("('public')");

    assert!(
        query.contains("d.classoid = 'pg_class'::regclass"),
        "pg_description join on regular views must filter by classoid to avoid OID collisions across catalogs: {query}"
    );
}

#[test]
fn fetch_mat_views_query_filters_pg_description_by_classoid() {
    let query = Dump::build_mat_views_query("('public')");

    assert!(
        query.contains("d.classoid = 'pg_class'::regclass"),
        "pg_description join on materialized views must filter by classoid to avoid OID collisions across catalogs: {query}"
    );
}

#[test]
fn the_filter_stands_where_it_belongs() {
    let query = extensions_query("('a', 'b')");
    assert!(query.starts_with("\n            select\n                quote_ident(n.nspname) as nspname,"));
    assert!(query.ends_with("(n.nspname in ('a', 'b') or n.nspname = 'public')"));
    assert!(casts_query("(NULL)").contains("WHERE n.nspname IN (NULL)\n            )"));
    assert!(Dump::build_tables_query("('x')").contains("and t.schemaname in ('x')\n"));
}

#[test]
fn braces_stand_for_themselves() {
    assert!(default_privileges_query("('a')").contains("'{}'::text[]) as acl"));
    assert!(types_query("('a')").contains("'{}'::text[]\n"));
    assert!(SUBSCRIPTIONS_QUERY.contains("COALESCE(s.subpublications, '{}'::text[])"));
}

#[test]
fn multiranges_are_asked_for_where_there_are_some() {
    let with = ranges_query(true, "('a')");
    assert!(with.contains("quote_ident(mt.typname) as multirange_name\n"));
    assert!(with.contains("left join pg_type mt on mt.oid = r.rngmultitypid\n"));
    assert!(with.contains("where n.nspname in ('a')\n"));
    let without = ranges_query(false, "('a')");
    assert!(without.contains("null::text as multirange_name\n"));
    assert!(!without.contains("rngmultitypid"));
    assert!(multirange_probe_needed(140000));
    assert!(!multirange_probe_needed(139999));
}

#[test]
fn missing_collation_columns_are_null() {
    let none = CollationColumns {
        icu_locale: false,
        icu_rules: false,
        locale: false,
    };
    let query = collations_query(none, "('a')");
    assert!(query.contains("NULL::text as coll_locale,"));
    assert!(query.contains("NULL::text as coll_icu_locale,"));
    assert!(query.contains("NULL::text as coll_icu_rules,"));
    let all = CollationColumns {
        icu_locale: true,
        icu_rules: true,
        locale: true,
    };
    let query = collations_query(all, "('a')");
    assert!(query.contains("c.colllocale as coll_locale,"));
    assert!(query.contains("c.colliculocale as coll_icu_locale,"));
    assert!(query.contains("c.collicurules as coll_icu_rules,"));
    assert!(query.contains("WHERE n.nspname IN ('a')\n"));
    assert!(!query.contains("NULL::text"));
}
