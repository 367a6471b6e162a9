//! What the queries ask for: the objects of the schemas of the filter, and only
//! those that belong to no extension.

use crate::queries::{
    casts_query_text, collations_query_text, column_or_null, composite_attributes_query_text,
    default_privileges_query_text, domain_constraints_query_text, extensions_query_text,
    foreign_table_columns_query_text, foreign_tables_query_text, lemma_filter_inside,
    mat_views_query_text, occurs_in, operators_query_text, ranges_query_text,
    regular_views_query_text, routines_query_text, rules_query_text, sequences_query_text,
    statistics_query_text, tables_query_text, ts_config_mappings_query_text,
    ts_config_oids_query_text, ts_configs_query_text, ts_dicts_query_text, types_query_text,
    view_col_comments_query_text, CASTS_HEAD, CASTS_TAIL, COLLATIONS_AFTER_ICU_LOCALE,
    COLLATIONS_AFTER_ICU_RULES, COLLATIONS_AFTER_LOCALE, COLLATIONS_HEAD, COLLATIONS_TAIL,
    COMMENT_CONDITION, COMPOSITE_ATTRIBUTES_HEAD, COMPOSITE_ATTRIBUTES_TAIL, CollationColumns,
    DEFAULT_PRIVILEGES_HEAD, DEFAULT_PRIVILEGES_TAIL, DOMAIN_CONSTRAINTS_HEAD,
    DOMAIN_CONSTRAINTS_TAIL, ENUMS_QUERY, EXTENSIONS_HEAD, EXTENSIONS_TAIL,
    FOREIGN_DATA_WRAPPERS_QUERY, FOREIGN_SERVERS_QUERY, FOREIGN_TABLES_HEAD, FOREIGN_TABLES_TAIL,
    FOREIGN_TABLE_COLUMNS_HEAD, FOREIGN_TABLE_COLUMNS_TAIL, ICU_LOCALE_COLUMN, ICU_RULES_COLUMN,
    LOCALE_COLUMN, MAT_VIEWS_HEAD, MAT_VIEWS_MIDDLE, MAT_VIEWS_TAIL, MULTIRANGE_COLUMN,
    MULTIRANGE_JOIN, NO_MULTIRANGE_COLUMN, OPERATORS_HEAD, OPERATORS_TAIL, PUBLICATION_TABLES_QUERY,
    RANGES_CONDITION, RANGES_HEAD, RANGES_SOURCE, RANGES_TAIL, REGULAR_VIEWS_HEAD,
    REGULAR_VIEWS_MIDDLE, REGULAR_VIEWS_TAIL, ROUTINES_HEAD, ROUTINES_TAIL, RULES_HEAD, RULES_TAIL,
    SCHEMAS_QUERY, SEQUENCES_HEAD, SEQUENCES_MIDDLE, SEQUENCES_TAIL, SEQUENCE_COMMENT_CONDITION,
    STATISTICS_HEAD, STATISTICS_TAIL, TABLES_HEAD, TABLES_MIDDLE, TABLES_TAIL, TS_CONFIGS_HEAD,
    TS_CONFIGS_TAIL, TS_CONFIG_MAPPINGS_HEAD, TS_CONFIG_MAPPINGS_TAIL, TS_CONFIG_OIDS_HEAD,
    TS_CONFIG_OIDS_TAIL, TS_DICTS_HEAD, TS_DICTS_TAIL, TYPES_HEAD, TYPES_TAIL,
    VIEW_COL_COMMENTS_HEAD, VIEW_COL_COMMENTS_MIDDLE, VIEW_COL_COMMENTS_TAIL,
};
use vstd::prelude::*;

verus! {

/// What stands around two filters alike tells them apart.
proof fn lemma_filters_apart(before: Seq<char>, a: Seq<char>, b: Seq<char>, after: Seq<char>)
    ensures
        before + a + after == before + b + after ==> a == b,
{
    let (x, y) = (before + a + after, before + b + after);
    if x == y {
        assert(x.len() == y.len());
        assert(a =~= x.subrange(before.len() as int, before.len() as int + a.len()));
        assert(b =~= y.subrange(before.len() as int, before.len() as int + b.len()));
    }
}

/// Every query is limited to the schemas of the filter, which stands as it is
/// behind the `in` of the schema.
pub proof fn law_queries_are_limited_to_the_filter(
    filter: Seq<char>,
    has_multirange: bool,
    columns: CollationColumns,
)
    ensures
        occurs_in("n.nspname in "@ + filter, extensions_query_text(filter)),
        occurs_in("n.nspname in "@ + filter, composite_attributes_query_text(filter)),
        occurs_in("n.nspname in "@ + filter, types_query_text(filter)),
        occurs_in("n.nspname in "@ + filter, domain_constraints_query_text(filter)),
        occurs_in("n.nspname in "@ + filter, routines_query_text(filter)),
        occurs_in("n.nspname in "@ + filter, foreign_tables_query_text(filter)),
        occurs_in("n.nspname in "@ + filter, foreign_table_columns_query_text(filter)),
        occurs_in("n.nspname in "@ + filter, statistics_query_text(filter)),
        occurs_in("n.nspname in "@ + filter, rules_query_text(filter)),
        occurs_in("n.nspname IN "@ + filter, ts_configs_query_text(filter)),
        occurs_in("n.nspname IN "@ + filter, ts_config_mappings_query_text(filter)),
        occurs_in("n.nspname IN "@ + filter, ts_config_oids_query_text(filter)),
        occurs_in("n.nspname IN "@ + filter, ts_dicts_query_text(filter)),
        occurs_in("n.nspname IN "@ + filter, casts_query_text(filter)),
        occurs_in("n.nspname IN "@ + filter, operators_query_text(filter)),
        occurs_in("n.nspname IN "@ + filter, default_privileges_query_text(filter)),
        occurs_in("seq.schemaname in "@ + filter, sequences_query_text(filter)),
        occurs_in("t.schemaname in "@ + filter, tables_query_text(filter)),
        occurs_in("n.nspname in "@ + filter, view_col_comments_query_text(filter)),
        occurs_in("v.table_schema in "@ + filter, regular_views_query_text(filter)),
        occurs_in("mv.schemaname in "@ + filter, mat_views_query_text(filter)),
        occurs_in("n.nspname in "@ + filter, ranges_query_text(has_multirange, filter)),
        occurs_in("n.nspname IN "@ + filter, collations_query_text(columns, filter)),
{
    lemma_filter_inside(
        EXTENSIONS_HEAD@,
        "n.nspname in "@,
        filter,
        EXTENSIONS_TAIL@,
    );
    lemma_filter_inside(
        COMPOSITE_ATTRIBUTES_HEAD@,
        "n.nspname in "@,
        filter,
        COMPOSITE_ATTRIBUTES_TAIL@,
    );
    lemma_filter_inside(
        TYPES_HEAD@,
        "n.nspname in "@,
        filter,
        TYPES_TAIL@,
    );
    lemma_filter_inside(
        DOMAIN_CONSTRAINTS_HEAD@,
        "n.nspname in "@,
        filter,
        DOMAIN_CONSTRAINTS_TAIL@,
    );
    lemma_filter_inside(
        ROUTINES_HEAD@,
        "n.nspname in "@,
        filter,
        ROUTINES_TAIL@,
    );
    lemma_filter_inside(
        FOREIGN_TABLES_HEAD@,
        "n.nspname in "@,
        filter,
        FOREIGN_TABLES_TAIL@,
    );
    lemma_filter_inside(
        FOREIGN_TABLE_COLUMNS_HEAD@,
        "n.nspname in "@,
        filter,
        FOREIGN_TABLE_COLUMNS_TAIL@,
    );
    lemma_filter_inside(
        STATISTICS_HEAD@,
        "n.nspname in "@,
        filter,
        STATISTICS_TAIL@,
    );
    lemma_filter_inside(
        RULES_HEAD@,
        "n.nspname in "@,
        filter,
        RULES_TAIL@,
    );
    lemma_filter_inside(
        TS_CONFIGS_HEAD@,
        "n.nspname IN "@,
        filter,
        TS_CONFIGS_TAIL@,
    );
    lemma_filter_inside(
        TS_CONFIG_MAPPINGS_HEAD@,
        "n.nspname IN "@,
        filter,
        TS_CONFIG_MAPPINGS_TAIL@,
    );
    lemma_filter_inside(
        TS_CONFIG_OIDS_HEAD@,
        "n.nspname IN "@,
        filter,
        TS_CONFIG_OIDS_TAIL@,
    );
    lemma_filter_inside(
        TS_DICTS_HEAD@,
        "n.nspname IN "@,
        filter,
        TS_DICTS_TAIL@,
    );
    lemma_filter_inside(
        CASTS_HEAD@,
        "n.nspname IN "@,
        filter,
        CASTS_TAIL@,
    );
    lemma_filter_inside(
        OPERATORS_HEAD@,
        "n.nspname IN "@,
        filter,
        OPERATORS_TAIL@,
    );
    lemma_filter_inside(
        DEFAULT_PRIVILEGES_HEAD@,
        "n.nspname IN "@,
        filter,
        DEFAULT_PRIVILEGES_TAIL@,
    );
    lemma_filter_inside(
        SEQUENCES_HEAD@ + SEQUENCE_COMMENT_CONDITION@ + SEQUENCES_MIDDLE@,
        "seq.schemaname in "@,
        filter,
        SEQUENCES_TAIL@,
    );
    lemma_filter_inside(
        TABLES_HEAD@ + COMMENT_CONDITION@ + TABLES_MIDDLE@,
        "t.schemaname in "@,
        filter,
        TABLES_TAIL@,
    );
    lemma_filter_inside(
        VIEW_COL_COMMENTS_HEAD@ + COMMENT_CONDITION@ + VIEW_COL_COMMENTS_MIDDLE@,
        "n.nspname in "@,
        filter,
        VIEW_COL_COMMENTS_TAIL@,
    );
    lemma_filter_inside(
        REGULAR_VIEWS_HEAD@ + COMMENT_CONDITION@ + REGULAR_VIEWS_MIDDLE@,
        "v.table_schema in "@,
        filter,
        REGULAR_VIEWS_TAIL@,
    );
    lemma_filter_inside(
        MAT_VIEWS_HEAD@ + COMMENT_CONDITION@ + MAT_VIEWS_MIDDLE@,
        "mv.schemaname in "@,
        filter,
        MAT_VIEWS_TAIL@,
    );
    lemma_filter_inside(
        RANGES_HEAD@ + (if has_multirange {
        MULTIRANGE_COLUMN@
    } else {
        NO_MULTIRANGE_COLUMN@
    }) + RANGES_SOURCE@ + (if has_multirange {
        MULTIRANGE_JOIN@
    } else {
        Seq::empty()
    }) + RANGES_CONDITION@,
        "n.nspname in "@,
        filter,
        RANGES_TAIL@,
    );
    lemma_filter_inside(
        COLLATIONS_HEAD@ + column_or_null(columns.locale, LOCALE_COLUMN@) + COLLATIONS_AFTER_LOCALE@
            + column_or_null(columns.icu_locale, ICU_LOCALE_COLUMN@) + COLLATIONS_AFTER_ICU_LOCALE@
            + column_or_null(columns.icu_rules, ICU_RULES_COLUMN@) + COLLATIONS_AFTER_ICU_RULES@,
        "n.nspname IN "@,
        filter,
        COLLATIONS_TAIL@,
    );
}

/// Different filters give different queries, and nothing but the filter differs.
pub proof fn law_queries_tell_filters_apart(
    a: Seq<char>,
    b: Seq<char>,
    has_multirange: bool,
    columns: CollationColumns,
)
    ensures
        extensions_query_text(a) == extensions_query_text(b) ==> a == b,
        extensions_query_text(a).len() - a.len() == extensions_query_text(b).len() - b.len(),
        composite_attributes_query_text(a) == composite_attributes_query_text(b) ==> a == b,
        composite_attributes_query_text(a).len() - a.len() == composite_attributes_query_text(b).len() - b.len(),
        types_query_text(a) == types_query_text(b) ==> a == b,
        types_query_text(a).len() - a.len() == types_query_text(b).len() - b.len(),
        domain_constraints_query_text(a) == domain_constraints_query_text(b) ==> a == b,
        domain_constraints_query_text(a).len() - a.len() == domain_constraints_query_text(b).len() - b.len(),
        routines_query_text(a) == routines_query_text(b) ==> a == b,
        routines_query_text(a).len() - a.len() == routines_query_text(b).len() - b.len(),
        foreign_tables_query_text(a) == foreign_tables_query_text(b) ==> a == b,
        foreign_tables_query_text(a).len() - a.len() == foreign_tables_query_text(b).len() - b.len(),
        foreign_table_columns_query_text(a) == foreign_table_columns_query_text(b) ==> a == b,
        foreign_table_columns_query_text(a).len() - a.len() == foreign_table_columns_query_text(b).len() - b.len(),
        statistics_query_text(a) == statistics_query_text(b) ==> a == b,
        statistics_query_text(a).len() - a.len() == statistics_query_text(b).len() - b.len(),
        rules_query_text(a) == rules_query_text(b) ==> a == b,
        rules_query_text(a).len() - a.len() == rules_query_text(b).len() - b.len(),
        ts_configs_query_text(a) == ts_configs_query_text(b) ==> a == b,
        ts_configs_query_text(a).len() - a.len() == ts_configs_query_text(b).len() - b.len(),
        ts_config_mappings_query_text(a) == ts_config_mappings_query_text(b) ==> a == b,
        ts_config_mappings_query_text(a).len() - a.len() == ts_config_mappings_query_text(b).len() - b.len(),
        ts_config_oids_query_text(a) == ts_config_oids_query_text(b) ==> a == b,
        ts_config_oids_query_text(a).len() - a.len() == ts_config_oids_query_text(b).len() - b.len(),
        ts_dicts_query_text(a) == ts_dicts_query_text(b) ==> a == b,
        ts_dicts_query_text(a).len() - a.len() == ts_dicts_query_text(b).len() - b.len(),
        casts_query_text(a) == casts_query_text(b) ==> a == b,
        casts_query_text(a).len() - a.len() == casts_query_text(b).len() - b.len(),
        operators_query_text(a) == operators_query_text(b) ==> a == b,
        operators_query_text(a).len() - a.len() == operators_query_text(b).len() - b.len(),
        default_privileges_query_text(a) == default_privileges_query_text(b) ==> a == b,
        default_privileges_query_text(a).len() - a.len() == default_privileges_query_text(b).len() - b.len(),
        sequences_query_text(a) == sequences_query_text(b) ==> a == b,
        sequences_query_text(a).len() - a.len() == sequences_query_text(b).len() - b.len(),
        tables_query_text(a) == tables_query_text(b) ==> a == b,
        tables_query_text(a).len() - a.len() == tables_query_text(b).len() - b.len(),
        view_col_comments_query_text(a) == view_col_comments_query_text(b) ==> a == b,
        view_col_comments_query_text(a).len() - a.len() == view_col_comments_query_text(b).len() - b.len(),
        regular_views_query_text(a) == regular_views_query_text(b) ==> a == b,
        regular_views_query_text(a).len() - a.len() == regular_views_query_text(b).len() - b.len(),
        mat_views_query_text(a) == mat_views_query_text(b) ==> a == b,
        mat_views_query_text(a).len() - a.len() == mat_views_query_text(b).len() - b.len(),
        ranges_query_text(has_multirange, a) == ranges_query_text(has_multirange, b) ==> a == b,
        ranges_query_text(has_multirange, a).len() - a.len() == ranges_query_text(has_multirange, b).len() - b.len(),
        collations_query_text(columns, a) == collations_query_text(columns, b) ==> a == b,
        collations_query_text(columns, a).len() - a.len() == collations_query_text(columns, b).len() - b.len(),
{
    lemma_filters_apart(
        EXTENSIONS_HEAD@ + "n.nspname in "@,
        a,
        b,
        EXTENSIONS_TAIL@,
    );
    lemma_filters_apart(
        COMPOSITE_ATTRIBUTES_HEAD@ + "n.nspname in "@,
        a,
        b,
        COMPOSITE_ATTRIBUTES_TAIL@,
    );
    lemma_filters_apart(
        TYPES_HEAD@ + "n.nspname in "@,
        a,
        b,
        TYPES_TAIL@,
    );
    lemma_filters_apart(
        DOMAIN_CONSTRAINTS_HEAD@ + "n.nspname in "@,
        a,
        b,
        DOMAIN_CONSTRAINTS_TAIL@,
    );
    lemma_filters_apart(
        ROUTINES_HEAD@ + "n.nspname in "@,
        a,
        b,
        ROUTINES_TAIL@,
    );
    lemma_filters_apart(
        FOREIGN_TABLES_HEAD@ + "n.nspname in "@,
        a,
        b,
        FOREIGN_TABLES_TAIL@,
    );
    lemma_filters_apart(
        FOREIGN_TABLE_COLUMNS_HEAD@ + "n.nspname in "@,
        a,
        b,
        FOREIGN_TABLE_COLUMNS_TAIL@,
    );
    lemma_filters_apart(
        STATISTICS_HEAD@ + "n.nspname in "@,
        a,
        b,
        STATISTICS_TAIL@,
    );
    lemma_filters_apart(
        RULES_HEAD@ + "n.nspname in "@,
        a,
        b,
        RULES_TAIL@,
    );
    lemma_filters_apart(
        TS_CONFIGS_HEAD@ + "n.nspname IN "@,
        a,
        b,
        TS_CONFIGS_TAIL@,
    );
    lemma_filters_apart(
        TS_CONFIG_MAPPINGS_HEAD@ + "n.nspname IN "@,
        a,
        b,
        TS_CONFIG_MAPPINGS_TAIL@,
    );
    lemma_filters_apart(
        TS_CONFIG_OIDS_HEAD@ + "n.nspname IN "@,
        a,
        b,
        TS_CONFIG_OIDS_TAIL@,
    );
    lemma_filters_apart(
        TS_DICTS_HEAD@ + "n.nspname IN "@,
        a,
        b,
        TS_DICTS_TAIL@,
    );
    lemma_filters_apart(
        CASTS_HEAD@ + "n.nspname IN "@,
        a,
        b,
        CASTS_TAIL@,
    );
    lemma_filters_apart(
        OPERATORS_HEAD@ + "n.nspname IN "@,
        a,
        b,
        OPERATORS_TAIL@,
    );
    lemma_filters_apart(
        DEFAULT_PRIVILEGES_HEAD@ + "n.nspname IN "@,
        a,
        b,
        DEFAULT_PRIVILEGES_TAIL@,
    );
    lemma_filters_apart(
        SEQUENCES_HEAD@ + SEQUENCE_COMMENT_CONDITION@ + SEQUENCES_MIDDLE@ + "seq.schemaname in "@,
        a,
        b,
        SEQUENCES_TAIL@,
    );
    lemma_filters_apart(
        TABLES_HEAD@ + COMMENT_CONDITION@ + TABLES_MIDDLE@ + "t.schemaname in "@,
        a,
        b,
        TABLES_TAIL@,
    );
    lemma_filters_apart(
        VIEW_COL_COMMENTS_HEAD@ + COMMENT_CONDITION@ + VIEW_COL_COMMENTS_MIDDLE@ + "n.nspname in "@,
        a,
        b,
        VIEW_COL_COMMENTS_TAIL@,
    );
    lemma_filters_apart(
        REGULAR_VIEWS_HEAD@ + COMMENT_CONDITION@ + REGULAR_VIEWS_MIDDLE@ + "v.table_schema in "@,
        a,
        b,
        REGULAR_VIEWS_TAIL@,
    );
    lemma_filters_apart(
        MAT_VIEWS_HEAD@ + COMMENT_CONDITION@ + MAT_VIEWS_MIDDLE@ + "mv.schemaname in "@,
        a,
        b,
        MAT_VIEWS_TAIL@,
    );
    lemma_filters_apart(
        RANGES_HEAD@ + (if has_multirange {
        MULTIRANGE_COLUMN@
    } else {
        NO_MULTIRANGE_COLUMN@
    }) + RANGES_SOURCE@ + (if has_multirange {
        MULTIRANGE_JOIN@
    } else {
        Seq::empty()
    }) + RANGES_CONDITION@ + "n.nspname in "@,
        a,
        b,
        RANGES_TAIL@,
    );
    lemma_filters_apart(
        COLLATIONS_HEAD@ + column_or_null(columns.locale, LOCALE_COLUMN@) + COLLATIONS_AFTER_LOCALE@
            + column_or_null(columns.icu_locale, ICU_LOCALE_COLUMN@) + COLLATIONS_AFTER_ICU_LOCALE@
            + column_or_null(columns.icu_rules, ICU_RULES_COLUMN@) + COLLATIONS_AFTER_ICU_RULES@ + "n.nspname IN "@,
        a,
        b,
        COLLATIONS_TAIL@,
    );
}

/// What stands behind the filter limits the objects further: what belongs to an
/// extension is left out, since it comes and goes with the extension, and so are
/// kinds of objects that are not dropped on their own.
pub proof fn law_conditions_behind_the_filter(
    filter: Seq<char>,
    has_multirange: bool,
    columns: CollationColumns,
)
    ensures
        " or n.nspname = 'public')"@.is_suffix_of(extensions_query_text(filter)),
        "
                    and t.typtype = 'c'
                    and c.relkind = 'c'
                    and t.typisdefined = true
                    and a.attnum > 0
                    and a.attisdropped = false
                    and not exists (
                        select 1 from pg_depend ext_dep
                        where ext_dep.objid = t.oid
                        and ext_dep.deptype = 'e'
                    )
                 order by t.oid, a.attnum"@.is_suffix_of(composite_attributes_query_text(filter)),
        " 
                and (
                    t.typtype in ('d', 'e', 'r', 'm')
                    or (t.typtype = 'c' and c.relkind = 'c')
                )
                and t.typisdefined = true
                and not exists (
                    select 1 from pg_depend ext_dep
                    where ext_dep.objid = t.oid
                    and ext_dep.deptype = 'e'
                )"@.is_suffix_of(types_query_text(filter)),
        "
              and not exists (
                  select 1 from pg_depend ext_dep
                  where ext_dep.objid = c.contypid
                  and ext_dep.deptype = 'e'
              )
            order by c.contypid, c.conname"@.is_suffix_of(domain_constraints_query_text(filter)),
        "
                and n.nspname not in ('pg_catalog', 'information_schema')
                and (l.lanname not in ('c', 'internal') or r.prokind in ('a', 'w'))
                and r.prokind in ('f', 'p', 'a', 'w')
                and not exists (
                    select 1 from pg_depend ext_dep
                    where ext_dep.objid = r.oid
                    and ext_dep.deptype = 'e'
                );"@.is_suffix_of(routines_query_text(filter)),
        "
                    and not exists (
                        select 1 from pg_depend ext_dep
                        where ext_dep.objid = c.oid
                        and ext_dep.deptype = 'e'
                    )
                order by n.nspname, c.relname"@.is_suffix_of(foreign_tables_query_text(filter)),
        "
                        and a.attnum > 0
                        and not a.attisdropped
                        and not exists (
                            select 1 from pg_depend ext_dep
                            where ext_dep.objid = c.oid
                            and ext_dep.deptype = 'e'
                        )
                    order by n.nspname, c.relname, a.attnum"@.is_suffix_of(foreign_table_columns_query_text(filter)),
        "
                    and not exists (
                        select 1 from pg_depend ext_dep
                        where ext_dep.objid = s.oid
                        and ext_dep.deptype = 'e'
                    )
                order by n.nspname, s.stxname"@.is_suffix_of(statistics_query_text(filter)),
        "
                    and r.rulename <> '_RETURN'
                    and not exists (
                        select 1 from pg_depend ext_dep
                        where ext_dep.objid = c.oid
                        and ext_dep.deptype = 'e'
                    )
                order by n.nspname, c.relname, r.rulename"@.is_suffix_of(rules_query_text(filter)),
        "
               AND NOT EXISTS (SELECT 1 FROM pg_depend ext WHERE ext.objid = c.oid AND ext.deptype = 'e')
             ORDER BY n.nspname, c.cfgname"@.is_suffix_of(ts_configs_query_text(filter)),
        "
               AND NOT EXISTS (SELECT 1 FROM pg_depend ext WHERE ext.objid = c.oid AND ext.deptype = 'e')
             GROUP BY c.cfgnamespace, c.oid, c.cfgname, t.alias
             ORDER BY c.oid, t.alias"@.is_suffix_of(ts_config_mappings_query_text(filter)),
        "
               AND NOT EXISTS (SELECT 1 FROM pg_depend ext WHERE ext.objid = c.oid AND ext.deptype = 'e')
             ORDER BY n.nspname, c.cfgname"@.is_suffix_of(ts_config_oids_query_text(filter)),
        "
               AND NOT EXISTS (SELECT 1 FROM pg_depend ext WHERE ext.objid = d.oid AND ext.deptype = 'e')
             ORDER BY n.nspname, d.dictname"@.is_suffix_of(ts_dicts_query_text(filter)),
        "
            )
            SELECT
                pg_catalog.format_type(c.castsource, NULL) as source_type,
                pg_catalog.format_type(c.casttarget, NULL) as target_type,
                c.castmethod::text as cast_method,
                CASE WHEN c.castfunc != 0 THEN
                    quote_ident(fn2.nspname) || '.' || quote_ident(p.proname) ||
                    '(' || pg_get_function_identity_arguments(p.oid) || ')'
                ELSE NULL END as function_name,
                c.castcontext::text as cast_context,
                d.description as cast_comment
            FROM pg_cast c
            LEFT JOIN pg_proc p ON p.oid = c.castfunc
            LEFT JOIN pg_namespace fn2 ON fn2.oid = p.pronamespace
            LEFT JOIN pg_description d ON d.objoid = c.oid
                AND d.classoid = 'pg_cast'::regclass AND d.objsubid = 0
            WHERE NOT EXISTS (SELECT 1 FROM pg_depend pd WHERE pd.objid = c.oid AND pd.deptype IN ('e', 'i'))
              AND (c.castsource IN (SELECT oid FROM user_types)
                   OR c.casttarget IN (SELECT oid FROM user_types))
            ORDER BY source_type, target_type"@.is_suffix_of(casts_query_text(filter)),
        "
               AND NOT EXISTS (SELECT 1 FROM pg_depend ext WHERE ext.objid = o.oid AND ext.deptype = 'e')
             ORDER BY n.nspname, o.oprname"@.is_suffix_of(operators_query_text(filter)),
        "
             ORDER BY r.rolname, COALESCE(n.nspname, ''), da.defaclobjtype"@.is_suffix_of(default_privileges_query_text(filter)),
        "
                and not exists (
                    select 1 from pg_depend ext_dep
                    where ext_dep.objid = seq_class.oid
                    and ext_dep.deptype = 'e'
                )"@.is_suffix_of(sequences_query_text(filter)),
        "
                    and t.tablename not like 'pg_%'
                    and not exists (
                        select 1 from pg_depend ext_dep
                        where ext_dep.objid = c.oid
                        and ext_dep.deptype = 'e'
                    );"@.is_suffix_of(tables_query_text(filter)),
        "
            order by n.nspname, c.relname, a.attnum;"@.is_suffix_of(view_col_comments_query_text(filter)),
        "
                and not exists (
                    select 1 from pg_depend ext_dep
                    where ext_dep.objid = c.oid
                    and ext_dep.deptype = 'e'
                )
            group by v.table_schema, v.table_name, v.view_definition, pv.viewowner, d.description, c.oid, c.reloptions, v.check_option;"@.is_suffix_of(regular_views_query_text(filter)),
        "
                and not exists (
                    select 1 from pg_depend ext_dep
                    where ext_dep.objid = c.oid
                    and ext_dep.deptype = 'e'
                );"@.is_suffix_of(mat_views_query_text(filter)),
        "
                  and not exists (
                      select 1 from pg_depend ext_dep
                      where ext_dep.objid = t.oid
                      and ext_dep.deptype = 'e'
                  )"@.is_suffix_of(ranges_query_text(has_multirange, filter)),
        "
               AND c.collencoding IN (-1, (SELECT encoding FROM pg_database WHERE datname = current_database()))
               AND NOT EXISTS (SELECT 1 FROM pg_depend ext WHERE ext.objid = c.oid AND ext.deptype = 'e')
             ORDER BY n.nspname, c.collname"@.is_suffix_of(collations_query_text(columns, filter)),
{
    lemma_tail(
        EXTENSIONS_HEAD@ + "n.nspname in "@ + filter,
        EXTENSIONS_TAIL@,
    );
    lemma_tail(
        COMPOSITE_ATTRIBUTES_HEAD@ + "n.nspname in "@ + filter,
        COMPOSITE_ATTRIBUTES_TAIL@,
    );
    lemma_tail(
        TYPES_HEAD@ + "n.nspname in "@ + filter,
        TYPES_TAIL@,
    );
    lemma_tail(
        DOMAIN_CONSTRAINTS_HEAD@ + "n.nspname in "@ + filter,
        DOMAIN_CONSTRAINTS_TAIL@,
    );
    lemma_tail(
        ROUTINES_HEAD@ + "n.nspname in "@ + filter,
        ROUTINES_TAIL@,
    );
    lemma_tail(
        FOREIGN_TABLES_HEAD@ + "n.nspname in "@ + filter,
        FOREIGN_TABLES_TAIL@,
    );
    lemma_tail(
        FOREIGN_TABLE_COLUMNS_HEAD@ + "n.nspname in "@ + filter,
        FOREIGN_TABLE_COLUMNS_TAIL@,
    );
    lemma_tail(
        STATISTICS_HEAD@ + "n.nspname in "@ + filter,
        STATISTICS_TAIL@,
    );
    lemma_tail(
        RULES_HEAD@ + "n.nspname in "@ + filter,
        RULES_TAIL@,
    );
    lemma_tail(
        TS_CONFIGS_HEAD@ + "n.nspname IN "@ + filter,
        TS_CONFIGS_TAIL@,
    );
    lemma_tail(
        TS_CONFIG_MAPPINGS_HEAD@ + "n.nspname IN "@ + filter,
        TS_CONFIG_MAPPINGS_TAIL@,
    );
    lemma_tail(
        TS_CONFIG_OIDS_HEAD@ + "n.nspname IN "@ + filter,
        TS_CONFIG_OIDS_TAIL@,
    );
    lemma_tail(
        TS_DICTS_HEAD@ + "n.nspname IN "@ + filter,
        TS_DICTS_TAIL@,
    );
    lemma_tail(
        CASTS_HEAD@ + "n.nspname IN "@ + filter,
        CASTS_TAIL@,
    );
    lemma_tail(
        OPERATORS_HEAD@ + "n.nspname IN "@ + filter,
        OPERATORS_TAIL@,
    );
    lemma_tail(
        DEFAULT_PRIVILEGES_HEAD@ + "n.nspname IN "@ + filter,
        DEFAULT_PRIVILEGES_TAIL@,
    );
    lemma_tail(
        SEQUENCES_HEAD@ + SEQUENCE_COMMENT_CONDITION@ + SEQUENCES_MIDDLE@ + "seq.schemaname in "@ + filter,
        SEQUENCES_TAIL@,
    );
    lemma_tail(
        TABLES_HEAD@ + COMMENT_CONDITION@ + TABLES_MIDDLE@ + "t.schemaname in "@ + filter,
        TABLES_TAIL@,
    );
    lemma_tail(
        VIEW_COL_COMMENTS_HEAD@ + COMMENT_CONDITION@ + VIEW_COL_COMMENTS_MIDDLE@ + "n.nspname in "@ + filter,
        VIEW_COL_COMMENTS_TAIL@,
    );
    lemma_tail(
        REGULAR_VIEWS_HEAD@ + COMMENT_CONDITION@ + REGULAR_VIEWS_MIDDLE@ + "v.table_schema in "@ + filter,
        REGULAR_VIEWS_TAIL@,
    );
    lemma_tail(
        MAT_VIEWS_HEAD@ + COMMENT_CONDITION@ + MAT_VIEWS_MIDDLE@ + "mv.schemaname in "@ + filter,
        MAT_VIEWS_TAIL@,
    );
    lemma_tail(
        RANGES_HEAD@ + (if has_multirange {
        MULTIRANGE_COLUMN@
    } else {
        NO_MULTIRANGE_COLUMN@
    }) + RANGES_SOURCE@ + (if has_multirange {
        MULTIRANGE_JOIN@
    } else {
        Seq::empty()
    }) + RANGES_CONDITION@ + "n.nspname in "@ + filter,
        RANGES_TAIL@,
    );
    lemma_tail(
        COLLATIONS_HEAD@ + column_or_null(columns.locale, LOCALE_COLUMN@) + COLLATIONS_AFTER_LOCALE@
            + column_or_null(columns.icu_locale, ICU_LOCALE_COLUMN@) + COLLATIONS_AFTER_ICU_LOCALE@
            + column_or_null(columns.icu_rules, ICU_RULES_COLUMN@) + COLLATIONS_AFTER_ICU_RULES@ + "n.nspname IN "@ + filter,
        COLLATIONS_TAIL@,
    );
}

/// What stands between the condition on comments and the filter: the objects of
/// the system's own schemas are left out whatever the filter says, and sequences
/// find the columns that own them.
pub proof fn law_conditions_before_the_filter(filter: Seq<char>)
    ensures
        occurs_in(
            SEQUENCE_COMMENT_CONDITION@ + "
                left join pg_depend dep on dep.objid = seq_class.oid
                    and dep.deptype in ('a', 'i')
                left join pg_class owner_table on owner_table.oid = dep.refobjid
                left join pg_namespace owner_ns on owner_ns.oid = owner_table.relnamespace
                left join pg_attribute owner_attr on owner_attr.attrelid = dep.refobjid
                    and owner_attr.attnum = dep.refobjsubid
            where
                "@ + "seq.schemaname in "@ + filter,
            sequences_query_text(filter),
        ),
        occurs_in(
            COMMENT_CONDITION@ + "
                where
                    t.schemaname not in ('pg_catalog', 'information_schema')
                    and "@ + "t.schemaname in "@ + filter,
            tables_query_text(filter),
        ),
        occurs_in(
            COMMENT_CONDITION@ + " and d.objsubid = a.attnum
            where c.relkind in ('v', 'm')
                and n.nspname not in ('pg_catalog', 'information_schema')
                and "@ + "n.nspname in "@ + filter,
            view_col_comments_query_text(filter),
        ),
        occurs_in(
            COMMENT_CONDITION@ + "
            where
                v.table_schema not in ('pg_catalog', 'information_schema')
                and "@ + "v.table_schema in "@ + filter,
            regular_views_query_text(filter),
        ),
        occurs_in(
            COMMENT_CONDITION@ + "
            where mv.schemaname not in ('pg_catalog', 'information_schema')
                and "@ + "mv.schemaname in "@ + filter,
            mat_views_query_text(filter),
        ),
{
    lemma_middle(SEQUENCES_HEAD@, SEQUENCE_COMMENT_CONDITION@, SEQUENCES_MIDDLE@, "seq.schemaname in "@, filter, SEQUENCES_TAIL@);
    lemma_middle(TABLES_HEAD@, COMMENT_CONDITION@, TABLES_MIDDLE@, "t.schemaname in "@, filter, TABLES_TAIL@);
    lemma_middle(VIEW_COL_COMMENTS_HEAD@, COMMENT_CONDITION@, VIEW_COL_COMMENTS_MIDDLE@, "n.nspname in "@, filter, VIEW_COL_COMMENTS_TAIL@);
    lemma_middle(REGULAR_VIEWS_HEAD@, COMMENT_CONDITION@, REGULAR_VIEWS_MIDDLE@, "v.table_schema in "@, filter, REGULAR_VIEWS_TAIL@);
    lemma_middle(MAT_VIEWS_HEAD@, COMMENT_CONDITION@, MAT_VIEWS_MIDDLE@, "mv.schemaname in "@, filter, MAT_VIEWS_TAIL@);
}

proof fn lemma_middle(
    head: Seq<char>,
    comments: Seq<char>,
    middle: Seq<char>,
    condition: Seq<char>,
    filter: Seq<char>,
    tail: Seq<char>,
)
    ensures
        occurs_in(
            comments + middle + condition + filter,
            head + comments + middle + condition + filter + tail,
        ),
{
    assert(head + comments + middle + condition + filter + tail =~= head + (comments + middle
        + condition + filter) + tail);
}

proof fn lemma_tail(before: Seq<char>, tail: Seq<char>)
    ensures
        tail.is_suffix_of(before + tail),
{
    let all = before + tail;
    assert(tail =~= all.subrange(all.len() - tail.len(), all.len() as int));
}

/// Of the collations each column is asked for where the catalog has it, and a
/// null takes its place otherwise, column by column.
pub proof fn law_collation_columns(columns: CollationColumns, filter: Seq<char>)
    ensures
        occurs_in(
            (if columns.locale {
                "c.colllocale"@
            } else {
                "NULL::text"@
            }) + " as coll_locale,"@,
            collations_query_text(columns, filter),
        ),
        occurs_in(
            (if columns.icu_locale {
                "c.colliculocale"@
            } else {
                "NULL::text"@
            }) + " as coll_icu_locale,"@,
            collations_query_text(columns, filter),
        ),
        occurs_in(
            (if columns.icu_rules {
                "c.collicurules"@
            } else {
                "NULL::text"@
            }) + " as coll_icu_rules,"@,
            collations_query_text(columns, filter),
        ),
{
    let a = column_or_null(columns.locale, LOCALE_COLUMN@);
    let b = column_or_null(columns.icu_locale, ICU_LOCALE_COLUMN@);
    let c = column_or_null(columns.icu_rules, ICU_RULES_COLUMN@);
    let text = collations_query_text(columns, filter);
    let (x, y, z) = lemma_collation_names();
    let (h, p, q, t) = (COLLATIONS_HEAD@, "n.nspname IN "@, filter, COLLATIONS_TAIL@);
    let first = " as coll_locale,"@;
    let second = " as coll_icu_locale,"@;
    let third = " as coll_icu_rules,"@;
    lemma_named_in_row(h, a, first, x, b + (second + y) + c + (third + z) + p + q + t);
    lemma_named_in_row(h + a + (first + x), b, second, y, c + (third + z) + p + q + t);
    lemma_named_in_row(h + a + (first + x) + b + (second + y), c, third, z, p + q + t);
    let head = h + a + (first + x);
    lemma_regrouped(head, b, second + y, c, third + z, p, q, t);
    lemma_regrouped_again(head + b + (second + y), c, third + z, p, q, t);
}

proof fn lemma_named_in_row(
    before: Seq<char>,
    column: Seq<char>,
    name: Seq<char>,
    rest: Seq<char>,
    after: Seq<char>,
)
    ensures
        occurs_in(column + name, before + column + (name + rest) + after),
{
    assert(before + column + (name + rest) + after =~= before + (column + name) + (rest + after));
}

proof fn lemma_regrouped(
    head: Seq<char>,
    a: Seq<char>,
    b: Seq<char>,
    c: Seq<char>,
    d: Seq<char>,
    e: Seq<char>,
    f: Seq<char>,
    g: Seq<char>,
)
    ensures
        head + a + b + c + d + e + f + g == head + (a + b + c + d + e + f + g),
        head + a + b + c + d + e + f + g == head + a + b + (c + d + e + f + g),
{
    assert(head + a + b + c + d + e + f + g =~= head + (a + b + c + d + e + f + g));
    assert(head + a + b + c + d + e + f + g =~= head + a + b + (c + d + e + f + g));
}

proof fn lemma_regrouped_again(
    head: Seq<char>,
    a: Seq<char>,
    b: Seq<char>,
    c: Seq<char>,
    d: Seq<char>,
    e: Seq<char>,
)
    ensures
        head + a + b + c + d + e == head + a + b + (c + d + e),
{
    assert(head + a + b + c + d + e =~= head + a + b + (c + d + e));
}

proof fn lemma_collation_names() -> (r: (Seq<char>, Seq<char>, Seq<char>))
    ensures
        COLLATIONS_AFTER_LOCALE@ == " as coll_locale,"@ + r.0,
        COLLATIONS_AFTER_ICU_LOCALE@ == " as coll_icu_locale,"@ + r.1,
        COLLATIONS_AFTER_ICU_RULES@ == " as coll_icu_rules,"@ + r.2,
{
    reveal_strlit(" as coll_locale,
                c.collcollate as coll_collate,
                c.collctype as coll_ctype,
                ");
    reveal_strlit(" as coll_icu_locale,
                ");
    reveal_strlit(" as coll_icu_rules,
                c.collisdeterministic as coll_deterministic,
                d.description as coll_comment
             FROM pg_collation c
             JOIN pg_namespace n ON n.oid = c.collnamespace
             LEFT JOIN pg_roles r ON r.oid = c.collowner
             LEFT JOIN pg_description d ON d.objoid = c.oid
                 AND d.classoid = 'pg_collation'::regclass AND d.objsubid = 0
             WHERE ");
    reveal_strlit(" as coll_locale,");
    reveal_strlit(" as coll_icu_locale,");
    reveal_strlit(" as coll_icu_rules,");
    let x = COLLATIONS_AFTER_LOCALE@.skip(" as coll_locale,"@.len() as int);
    let y = COLLATIONS_AFTER_ICU_LOCALE@.skip(" as coll_icu_locale,"@.len() as int);
    let z = COLLATIONS_AFTER_ICU_RULES@.skip(" as coll_icu_rules,"@.len() as int);
    assert(COLLATIONS_AFTER_LOCALE@ =~= " as coll_locale,"@ + x);
    assert(COLLATIONS_AFTER_ICU_LOCALE@ =~= " as coll_icu_locale,"@ + y);
    assert(COLLATIONS_AFTER_ICU_RULES@ =~= " as coll_icu_rules,"@ + z);
    (x, y, z)
}

/// Multiranges are joined and named exactly where the catalog has them.
pub proof fn law_multirange_columns(has_multirange: bool, filter: Seq<char>)
    ensures
        has_multirange ==> occurs_in(
            "quote_ident(mt.typname) as multirange_name"@,
            ranges_query_text(has_multirange, filter),
        ) && occurs_in(
            "left join pg_type mt on mt.oid = r.rngmultitypid"@,
            ranges_query_text(has_multirange, filter),
        ),
        !has_multirange ==> occurs_in(
            "null::text as multirange_name"@,
            ranges_query_text(has_multirange, filter),
        ),
{
    let text = ranges_query_text(has_multirange, filter);
    let end = RANGES_CONDITION@ + "n.nspname in "@ + filter + RANGES_TAIL@;
    if has_multirange {
        assert(text =~= RANGES_HEAD@ + "quote_ident(mt.typname) as multirange_name"@ + (RANGES_SOURCE@
            + MULTIRANGE_JOIN@ + end));
        assert(text =~= (RANGES_HEAD@ + MULTIRANGE_COLUMN@ + RANGES_SOURCE@)
            + "left join pg_type mt on mt.oid = r.rngmultitypid"@ + end);
    } else {
        assert(text =~= RANGES_HEAD@ + "null::text as multirange_name"@ + (RANGES_SOURCE@
            + Seq::empty() + end));
    }
}

/// The queries without a filter are limited too: to the schemas that are asked
/// for and are not the system's, to what belongs to no extension, and to the
/// publications that list their tables. Views name their relations by schema and
/// name.
pub proof fn law_limits_of_the_other_queries()
    ensures
        occurs_in(
            "where n.nspname similar to $1
               and n.nspname not in ('pg_catalog', 'information_schema')"@,
            SCHEMAS_QUERY@,
        ),
        occurs_in(
            "from pg_enum e where not exists (select 1 from pg_depend ext_dep where ext_dep.objid = e.enumtypid and ext_dep.deptype = 'e')"@,
            ENUMS_QUERY@,
        ),
        occurs_in(
            "WHERE NOT EXISTS (SELECT 1 FROM pg_depend ext WHERE ext.objid = fdw.oid AND ext.deptype = 'e')"@,
            FOREIGN_DATA_WRAPPERS_QUERY@,
        ),
        occurs_in(
            "WHERE NOT EXISTS (SELECT 1 FROM pg_depend ext WHERE ext.objid = s.oid AND ext.deptype = 'e')"@,
            FOREIGN_SERVERS_QUERY@,
        ),
        occurs_in(
            "WHERE NOT p.puballtables"@,
            PUBLICATION_TABLES_QUERY@,
        ),
        occurs_in(
            "array_agg(distinct vtu.table_schema || '.' || vtu.table_name) as table_relation"@,
            REGULAR_VIEWS_HEAD@,
        ),
        occurs_in(
            "select distinct n.nspname || '.' || dc.relname"@,
            MAT_VIEWS_HEAD@,
        ),
{
    lemma_schemas_query();
    lemma_enums_query();
    lemma_foreign_data_wrappers_query();
    lemma_foreign_servers_query();
    lemma_publication_tables_query();
    lemma_regular_views_head();
    lemma_mat_views_head();
}

proof fn lemma_schemas_query()
    ensures
        occurs_in(
            "where n.nspname similar to $1
               and n.nspname not in ('pg_catalog', 'information_schema')"@,
            SCHEMAS_QUERY@,
        ),
{
    reveal_strlit("select
                    quote_ident(n.nspname) as schema_name,
                    n.nspname as raw_schema_name,
                    quote_ident(r.rolname) as schema_owner,
                    d.description as schema_comment,
                    has_schema_privilege(n.nspname, 'USAGE') as has_usage,
                    n.nspacl::text[] as schema_acl
             from pg_namespace n
             left join pg_roles r on r.oid = n.nspowner
             left join pg_description d on d.objoid = n.oid
                 and d.classoid = 'pg_namespace'::regclass
                 and d.objsubid = 0
             where n.nspname similar to $1
               and n.nspname not in ('pg_catalog', 'information_schema')");
    reveal_strlit("where n.nspname similar to $1
               and n.nspname not in ('pg_catalog', 'information_schema')");
    reveal_strlit("select
                    quote_ident(n.nspname) as schema_name,
                    n.nspname as raw_schema_name,
                    quote_ident(r.rolname) as schema_owner,
                    d.description as schema_comment,
                    has_schema_privilege(n.nspname, 'USAGE') as has_usage,
                    n.nspacl::text[] as schema_acl
             from pg_namespace n
             left join pg_roles r on r.oid = n.nspowner
             left join pg_description d on d.objoid = n.oid
                 and d.classoid = 'pg_namespace'::regclass
                 and d.objsubid = 0
             ");
    reveal_strlit("");
    assert(SCHEMAS_QUERY@ =~= "select
                    quote_ident(n.nspname) as schema_name,
                    n.nspname as raw_schema_name,
                    quote_ident(r.rolname) as schema_owner,
                    d.description as schema_comment,
                    has_schema_privilege(n.nspname, 'USAGE') as has_usage,
                    n.nspacl::text[] as schema_acl
             from pg_namespace n
             left join pg_roles r on r.oid = n.nspowner
             left join pg_description d on d.objoid = n.oid
                 and d.classoid = 'pg_namespace'::regclass
                 and d.objsubid = 0
             "@ + "where n.nspname similar to $1
               and n.nspname not in ('pg_catalog', 'information_schema')"@ + ""@);
}

proof fn lemma_enums_query()
    ensures
        occurs_in(
            "from pg_enum e where not exists (select 1 from pg_depend ext_dep where ext_dep.objid = e.enumtypid and ext_dep.deptype = 'e')"@,
            ENUMS_QUERY@,
        ),
{
    reveal_strlit("select e.* from pg_enum e where not exists (select 1 from pg_depend ext_dep where ext_dep.objid = e.enumtypid and ext_dep.deptype = 'e')");
    reveal_strlit("from pg_enum e where not exists (select 1 from pg_depend ext_dep where ext_dep.objid = e.enumtypid and ext_dep.deptype = 'e')");
    reveal_strlit("select e.* ");
    reveal_strlit("");
    assert(ENUMS_QUERY@ =~= "select e.* "@ + "from pg_enum e where not exists (select 1 from pg_depend ext_dep where ext_dep.objid = e.enumtypid and ext_dep.deptype = 'e')"@ + ""@);
}

proof fn lemma_foreign_data_wrappers_query()
    ensures
        occurs_in(
            "WHERE NOT EXISTS (SELECT 1 FROM pg_depend ext WHERE ext.objid = fdw.oid AND ext.deptype = 'e')"@,
            FOREIGN_DATA_WRAPPERS_QUERY@,
        ),
{
    reveal_strlit("SELECT
                quote_ident(fdw.fdwname) as fdw_name,
                COALESCE(quote_ident(r.rolname), '') as fdw_owner,
                CASE WHEN fdw.fdwhandler != 0 THEN
                    quote_ident(hn.nspname) || '.' || quote_ident(hp.proname)
                ELSE NULL END as handler_func,
                CASE WHEN fdw.fdwvalidator != 0 THEN
                    quote_ident(vn.nspname) || '.' || quote_ident(vp.proname)
                ELSE NULL END as validator_func,
                COALESCE(fdw.fdwoptions, '{}'::text[]) as fdw_options,
                d.description as fdw_comment
             FROM pg_foreign_data_wrapper fdw
             LEFT JOIN pg_roles r ON r.oid = fdw.fdwowner
             LEFT JOIN pg_proc hp ON hp.oid = fdw.fdwhandler
             LEFT JOIN pg_namespace hn ON hn.oid = hp.pronamespace
             LEFT JOIN pg_proc vp ON vp.oid = fdw.fdwvalidator
             LEFT JOIN pg_namespace vn ON vn.oid = vp.pronamespace
             LEFT JOIN pg_description d ON d.objoid = fdw.oid
                 AND d.classoid = 'pg_foreign_data_wrapper'::regclass AND d.objsubid = 0
             WHERE NOT EXISTS (SELECT 1 FROM pg_depend ext WHERE ext.objid = fdw.oid AND ext.deptype = 'e')
             ORDER BY fdw.fdwname");
    reveal_strlit("WHERE NOT EXISTS (SELECT 1 FROM pg_depend ext WHERE ext.objid = fdw.oid AND ext.deptype = 'e')");
    reveal_strlit("SELECT
                quote_ident(fdw.fdwname) as fdw_name,
                COALESCE(quote_ident(r.rolname), '') as fdw_owner,
                CASE WHEN fdw.fdwhandler != 0 THEN
                    quote_ident(hn.nspname) || '.' || quote_ident(hp.proname)
                ELSE NULL END as handler_func,
                CASE WHEN fdw.fdwvalidator != 0 THEN
                    quote_ident(vn.nspname) || '.' || quote_ident(vp.proname)
                ELSE NULL END as validator_func,
                COALESCE(fdw.fdwoptions, '{}'::text[]) as fdw_options,
                d.description as fdw_comment
             FROM pg_foreign_data_wrapper fdw
             LEFT JOIN pg_roles r ON r.oid = fdw.fdwowner
             LEFT JOIN pg_proc hp ON hp.oid = fdw.fdwhandler
             LEFT JOIN pg_namespace hn ON hn.oid = hp.pronamespace
             LEFT JOIN pg_proc vp ON vp.oid = fdw.fdwvalidator
             LEFT JOIN pg_namespace vn ON vn.oid = vp.pronamespace
             LEFT JOIN pg_description d ON d.objoid = fdw.oid
                 AND d.classoid = 'pg_foreign_data_wrapper'::regclass AND d.objsubid = 0
             ");
    reveal_strlit("
             ORDER BY fdw.fdwname");
    assert(FOREIGN_DATA_WRAPPERS_QUERY@ =~= "SELECT
                quote_ident(fdw.fdwname) as fdw_name,
                COALESCE(quote_ident(r.rolname), '') as fdw_owner,
                CASE WHEN fdw.fdwhandler != 0 THEN
                    quote_ident(hn.nspname) || '.' || quote_ident(hp.proname)
                ELSE NULL END as handler_func,
                CASE WHEN fdw.fdwvalidator != 0 THEN
                    quote_ident(vn.nspname) || '.' || quote_ident(vp.proname)
                ELSE NULL END as validator_func,
                COALESCE(fdw.fdwoptions, '{}'::text[]) as fdw_options,
                d.description as fdw_comment
             FROM pg_foreign_data_wrapper fdw
             LEFT JOIN pg_roles r ON r.oid = fdw.fdwowner
             LEFT JOIN pg_proc hp ON hp.oid = fdw.fdwhandler
             LEFT JOIN pg_namespace hn ON hn.oid = hp.pronamespace
             LEFT JOIN pg_proc vp ON vp.oid = fdw.fdwvalidator
             LEFT JOIN pg_namespace vn ON vn.oid = vp.pronamespace
             LEFT JOIN pg_description d ON d.objoid = fdw.oid
                 AND d.classoid = 'pg_foreign_data_wrapper'::regclass AND d.objsubid = 0
             "@ + "WHERE NOT EXISTS (SELECT 1 FROM pg_depend ext WHERE ext.objid = fdw.oid AND ext.deptype = 'e')"@ + "
             ORDER BY fdw.fdwname"@);
}

proof fn lemma_foreign_servers_query()
    ensures
        occurs_in(
            "WHERE NOT EXISTS (SELECT 1 FROM pg_depend ext WHERE ext.objid = s.oid AND ext.deptype = 'e')"@,
            FOREIGN_SERVERS_QUERY@,
        ),
{
    reveal_strlit("SELECT
                quote_ident(s.srvname) as srv_name,
                COALESCE(quote_ident(r.rolname), '') as srv_owner,
                quote_ident(fdw.fdwname) as fdw_name,
                s.srvtype as srv_type,
                s.srvversion as srv_version,
                COALESCE(s.srvoptions, '{}'::text[]) as srv_options,
                d.description as srv_comment
             FROM pg_foreign_server s
             JOIN pg_foreign_data_wrapper fdw ON fdw.oid = s.srvfdw
             LEFT JOIN pg_roles r ON r.oid = s.srvowner
             LEFT JOIN pg_description d ON d.objoid = s.oid
                 AND d.classoid = 'pg_foreign_server'::regclass AND d.objsubid = 0
             WHERE NOT EXISTS (SELECT 1 FROM pg_depend ext WHERE ext.objid = s.oid AND ext.deptype = 'e')
             ORDER BY s.srvname");
    reveal_strlit("WHERE NOT EXISTS (SELECT 1 FROM pg_depend ext WHERE ext.objid = s.oid AND ext.deptype = 'e')");
    reveal_strlit("SELECT
                quote_ident(s.srvname) as srv_name,
                COALESCE(quote_ident(r.rolname), '') as srv_owner,
                quote_ident(fdw.fdwname) as fdw_name,
                s.srvtype as srv_type,
                s.srvversion as srv_version,
                COALESCE(s.srvoptions, '{}'::text[]) as srv_options,
                d.description as srv_comment
             FROM pg_foreign_server s
             JOIN pg_foreign_data_wrapper fdw ON fdw.oid = s.srvfdw
             LEFT JOIN pg_roles r ON r.oid = s.srvowner
             LEFT JOIN pg_description d ON d.objoid = s.oid
                 AND d.classoid = 'pg_foreign_server'::regclass AND d.objsubid = 0
             ");
    reveal_strlit("
             ORDER BY s.srvname");
    assert(FOREIGN_SERVERS_QUERY@ =~= "SELECT
                quote_ident(s.srvname) as srv_name,
                COALESCE(quote_ident(r.rolname), '') as srv_owner,
                quote_ident(fdw.fdwname) as fdw_name,
                s.srvtype as srv_type,
                s.srvversion as srv_version,
                COALESCE(s.srvoptions, '{}'::text[]) as srv_options,
                d.description as srv_comment
             FROM pg_foreign_server s
             JOIN pg_foreign_data_wrapper fdw ON fdw.oid = s.srvfdw
             LEFT JOIN pg_roles r ON r.oid = s.srvowner
             LEFT JOIN pg_description d ON d.objoid = s.oid
                 AND d.classoid = 'pg_foreign_server'::regclass AND d.objsubid = 0
             "@ + "WHERE NOT EXISTS (SELECT 1 FROM pg_depend ext WHERE ext.objid = s.oid AND ext.deptype = 'e')"@ + "
             ORDER BY s.srvname"@);
}

proof fn lemma_publication_tables_query()
    ensures
        occurs_in(
            "WHERE NOT p.puballtables"@,
            PUBLICATION_TABLES_QUERY@,
        ),
{
    reveal_strlit("SELECT
                quote_ident(p.pubname) as pub_name,
                quote_ident(n.nspname) || '.' || quote_ident(c.relname) as table_name
             FROM pg_publication p
             JOIN pg_publication_rel pr ON pr.prpubid = p.oid
             JOIN pg_class c ON c.oid = pr.prrelid
             JOIN pg_namespace n ON n.oid = c.relnamespace
             WHERE NOT p.puballtables
             ORDER BY p.pubname, n.nspname, c.relname");
    reveal_strlit("WHERE NOT p.puballtables");
    reveal_strlit("SELECT
                quote_ident(p.pubname) as pub_name,
                quote_ident(n.nspname) || '.' || quote_ident(c.relname) as table_name
             FROM pg_publication p
             JOIN pg_publication_rel pr ON pr.prpubid = p.oid
             JOIN pg_class c ON c.oid = pr.prrelid
             JOIN pg_namespace n ON n.oid = c.relnamespace
             ");
    reveal_strlit("
             ORDER BY p.pubname, n.nspname, c.relname");
    assert(PUBLICATION_TABLES_QUERY@ =~= "SELECT
                quote_ident(p.pubname) as pub_name,
                quote_ident(n.nspname) || '.' || quote_ident(c.relname) as table_name
             FROM pg_publication p
             JOIN pg_publication_rel pr ON pr.prpubid = p.oid
             JOIN pg_class c ON c.oid = pr.prrelid
             JOIN pg_namespace n ON n.oid = c.relnamespace
             "@ + "WHERE NOT p.puballtables"@ + "
             ORDER BY p.pubname, n.nspname, c.relname"@);
}

proof fn lemma_regular_views_head()
    ensures
        occurs_in(
            "array_agg(distinct vtu.table_schema || '.' || vtu.table_name) as table_relation"@,
            REGULAR_VIEWS_HEAD@,
        ),
{
    reveal_strlit("select
                    quote_ident(v.table_schema) as table_schema,
                    quote_ident(v.table_name) as table_name,
                    v.view_definition,
                    quote_ident(pv.viewowner) as view_owner,
                    array_agg(distinct vtu.table_schema || '.' || vtu.table_name) as table_relation,
                    d.description as view_comment,
                    (select cc.relacl::text[] from pg_class cc where cc.oid = c.oid) as view_acl,
                    coalesce(c.reloptions::text[] @> array['security_invoker=true']::text[], false) as security_invoker,
                    v.check_option
            from information_schema.views v
            join information_schema.view_table_usage vtu on v.table_name = vtu.view_name and v.table_schema = vtu.view_schema
            left join pg_views pv on pv.schemaname = v.table_schema and pv.viewname = v.table_name
            left join pg_class c on c.relname = v.table_name and c.relnamespace = (select oid from pg_namespace where nspname = v.table_schema)
            left join pg_description d on d.objoid = c.oid and
                d.objsubid = 0 and
                ");
    reveal_strlit("array_agg(distinct vtu.table_schema || '.' || vtu.table_name) as table_relation");
    reveal_strlit("select
                    quote_ident(v.table_schema) as table_schema,
                    quote_ident(v.table_name) as table_name,
                    v.view_definition,
                    quote_ident(pv.viewowner) as view_owner,
                    ");
    reveal_strlit(",
                    d.description as view_comment,
                    (select cc.relacl::text[] from pg_class cc where cc.oid = c.oid) as view_acl,
                    coalesce(c.reloptions::text[] @> array['security_invoker=true']::text[], false) as security_invoker,
                    v.check_option
            from information_schema.views v
            join information_schema.view_table_usage vtu on v.table_name = vtu.view_name and v.table_schema = vtu.view_schema
            left join pg_views pv on pv.schemaname = v.table_schema and pv.viewname = v.table_name
            left join pg_class c on c.relname = v.table_name and c.relnamespace = (select oid from pg_namespace where nspname = v.table_schema)
            left join pg_description d on d.objoid = c.oid and
                d.objsubid = 0 and
                ");
    assert(REGULAR_VIEWS_HEAD@ =~= "select
                    quote_ident(v.table_schema) as table_schema,
                    quote_ident(v.table_name) as table_name,
                    v.view_definition,
                    quote_ident(pv.viewowner) as view_owner,
                    "@ + "array_agg(distinct vtu.table_schema || '.' || vtu.table_name) as table_relation"@ + ",
                    d.description as view_comment,
                    (select cc.relacl::text[] from pg_class cc where cc.oid = c.oid) as view_acl,
                    coalesce(c.reloptions::text[] @> array['security_invoker=true']::text[], false) as security_invoker,
                    v.check_option
            from information_schema.views v
            join information_schema.view_table_usage vtu on v.table_name = vtu.view_name and v.table_schema = vtu.view_schema
            left join pg_views pv on pv.schemaname = v.table_schema and pv.viewname = v.table_name
            left join pg_class c on c.relname = v.table_name and c.relnamespace = (select oid from pg_namespace where nspname = v.table_schema)
            left join pg_description d on d.objoid = c.oid and
                d.objsubid = 0 and
                "@);
}

proof fn lemma_mat_views_head()
    ensures
        occurs_in(
            "select distinct n.nspname || '.' || dc.relname"@,
            MAT_VIEWS_HEAD@,
        ),
{
    reveal_strlit("select
                    mv.schemaname as table_schema,
                    mv.matviewname as table_name,
                    mv.definition as view_definition,
                    mv.matviewowner as view_owner,
                    array(
                        select distinct n.nspname || '.' || dc.relname
                        from pg_depend dep
                        join pg_class dc on dc.oid = dep.refobjid
                        join pg_namespace n on n.oid = dc.relnamespace
                        where dep.objid = c.oid
                          and dep.deptype = 'n'
                          and dc.relkind in ('r', 'v', 'm')
                    ) as table_relation,
                    d.description as view_comment,
                    c.relacl::text[] as view_acl,
                    c.reloptions as storage_options,
                    (select spcname from pg_tablespace where oid = c.reltablespace) as tablespace_name
            from pg_matviews mv
            join pg_class c on c.relname = mv.matviewname
                and c.relnamespace = (select oid from pg_namespace where nspname = mv.schemaname)
            left join pg_description d on d.objoid = c.oid and
                d.objsubid = 0 and
                ");
    reveal_strlit("select distinct n.nspname || '.' || dc.relname");
    reveal_strlit("select
                    mv.schemaname as table_schema,
                    mv.matviewname as table_name,
                    mv.definition as view_definition,
                    mv.matviewowner as view_owner,
                    array(
                        ");
    reveal_strlit("
                        from pg_depend dep
                        join pg_class dc on dc.oid = dep.refobjid
                        join pg_namespace n on n.oid = dc.relnamespace
                        where dep.objid = c.oid
                          and dep.deptype = 'n'
                          and dc.relkind in ('r', 'v', 'm')
                    ) as table_relation,
                    d.description as view_comment,
                    c.relacl::text[] as view_acl,
                    c.reloptions as storage_options,
                    (select spcname from pg_tablespace where oid = c.reltablespace) as tablespace_name
            from pg_matviews mv
            join pg_class c on c.relname = mv.matviewname
                and c.relnamespace = (select oid from pg_namespace where nspname = mv.schemaname)
            left join pg_description d on d.objoid = c.oid and
                d.objsubid = 0 and
                ");
    assert(MAT_VIEWS_HEAD@ =~= "select
                    mv.schemaname as table_schema,
                    mv.matviewname as table_name,
                    mv.definition as view_definition,
                    mv.matviewowner as view_owner,
                    array(
                        "@ + "select distinct n.nspname || '.' || dc.relname"@ + "
                        from pg_depend dep
                        join pg_class dc on dc.oid = dep.refobjid
                        join pg_namespace n on n.oid = dc.relnamespace
                        where dep.objid = c.oid
                          and dep.deptype = 'n'
                          and dc.relkind in ('r', 'v', 'm')
                    ) as table_relation,
                    d.description as view_comment,
                    c.relacl::text[] as view_acl,
                    c.reloptions as storage_options,
                    (select spcname from pg_tablespace where oid = c.reltablespace) as tablespace_name
            from pg_matviews mv
            join pg_class c on c.relname = mv.matviewname
                and c.relnamespace = (select oid from pg_namespace where nspname = mv.schemaname)
            left join pg_description d on d.objoid = c.oid and
                d.objsubid = 0 and
                "@);
}

} // verus!
