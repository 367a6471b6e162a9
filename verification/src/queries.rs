//! The queries that read the catalog of a PostgreSQL server.
//!
//! Most of them are limited to the schemas of a filter: the right side of an
//! SQL `in`, such as `('public', 'data')`.

use crate::dump::Dump;
use vstd::prelude::*;

verus! {

broadcast use vstd::string::group_string_axioms;

/// `needle` occurs in `text`.
pub open spec fn occurs_in(needle: Seq<char>, text: Seq<char>) -> bool {
    exists|before: Seq<char>, after: Seq<char>| text == #[trigger] (before + needle + after)
}

/// `head`, `condition`, `filter` and `tail`, one after the other.
fn filtered(head: &str, condition: &str, filter: &str, tail: &str) -> (r: String)
    ensures
        r@ == head@ + condition@ + filter@ + tail@,
        occurs_in(condition@ + filter@, r@),
{
    let mut out = String::new();
    out.append(head);
    out.append(condition);
    out.append(filter);
    out.append(tail);
    proof {
        assert(out@ =~= head@ + condition@ + filter@ + tail@);
        lemma_filter_inside(head@, condition@, filter@, tail@);
    }
    out
}

/// The condition and the filter stand together.
pub(crate) proof fn lemma_filter_inside(
    head: Seq<char>,
    condition: Seq<char>,
    filter: Seq<char>,
    tail: Seq<char>,
)
    ensures
        occurs_in(condition + filter, head + condition + filter + tail),
{
    assert(head + condition + filter + tail =~= head + (condition + filter) + tail);
}

/// The schemas whose names fit a pattern, which is bound as the first parameter, and whether the role may use them.
pub const SCHEMAS_QUERY: &'static str = "select
                    quote_ident(n.nspname) as schema_name,
                    n.nspname as raw_schema_name,
                    quote_ident(r.rolname) as schema_owner,
                    d.description as schema_comment,
                    has_schema_privilege(n.nspname, 'USAGE') as has_usage,
                    n.nspacl::text[] as schema_acl
             from pg_namespace n
             left join pg_roles r on r.oid = n.nspowner
             left join pg_description d on d.objoid = n.oid
                 and d.classoid = 'pg_namespace'::regclass
                 and d.objsubid = 0
             where n.nspname similar to $1
               and n.nspname not in ('pg_catalog', 'information_schema')";

/// The version of the server as a number.
pub const SERVER_VERSION_QUERY: &'static str = "select current_setting('server_version_num')::int4;";

/// Whether the catalog of range types knows multiranges.
pub const MULTIRANGE_PROBE_QUERY: &'static str = "SELECT EXISTS (SELECT 1 FROM pg_attribute WHERE attrelid = 'pg_range'::regclass AND attname = 'rngmultitypid' AND NOT attisdropped)";

/// A row where the server has a function that writes table definitions.
pub const TABLE_DEFINITION_PROBE_QUERY: &'static str = "select proname from pg_proc where proname = 'pg_get_tabledef';";

/// The labels of the enum types that belong to no extension.
pub const ENUMS_QUERY: &'static str = "select e.* from pg_enum e where not exists (select 1 from pg_depend ext_dep where ext_dep.objid = e.enumtypid and ext_dep.deptype = 'e')";

/// The event triggers.
pub const EVENT_TRIGGERS_QUERY: &'static str = "select
                quote_ident(e.evtname) as evtname,
                e.evtevent as evtevent,
                quote_ident(n.nspname) || '.' || quote_ident(p.proname) as evtfuncname,
                coalesce(e.evttags, '{}'::text[]) as evttags,
                e.evtenabled::text as evtenabled,
                quote_ident(r.rolname) as evtowner,
                d.description as evt_comment
            from pg_event_trigger e
            join pg_proc p on p.oid = e.evtfoid
            join pg_namespace n on n.oid = p.pronamespace
            left join pg_roles r on r.oid = e.evtowner
            left join pg_description d on d.objoid = e.oid
                and d.classoid = 'pg_event_trigger'::regclass
                and d.objsubid = 0
            order by e.evtname";

/// Which of three columns the catalog of collations has.
pub const COLLATION_PROBE_QUERY: &'static str = "SELECT
                EXISTS (SELECT 1 FROM pg_catalog.pg_attribute
                        WHERE attrelid = 'pg_catalog.pg_collation'::regclass
                          AND attname = 'colliculocale' AND NOT attisdropped) AS has_icu_locale,
                EXISTS (SELECT 1 FROM pg_catalog.pg_attribute
                        WHERE attrelid = 'pg_catalog.pg_collation'::regclass
                          AND attname = 'collicurules' AND NOT attisdropped) AS has_icu_rules,
                EXISTS (SELECT 1 FROM pg_catalog.pg_attribute
                        WHERE attrelid = 'pg_catalog.pg_collation'::regclass
                          AND attname = 'colllocale' AND NOT attisdropped) AS has_coll_locale";

/// The publications.
pub const PUBLICATIONS_QUERY: &'static str = "SELECT
                quote_ident(p.pubname) as pub_name,
                COALESCE(quote_ident(r.rolname), '') as pub_owner,
                p.puballtables as all_tables,
                CONCAT_WS(',',
                    CASE WHEN p.pubinsert THEN 'insert' ELSE NULL END,
                    CASE WHEN p.pubupdate THEN 'update' ELSE NULL END,
                    CASE WHEN p.pubdelete THEN 'delete' ELSE NULL END,
                    CASE WHEN p.pubtruncate THEN 'truncate' ELSE NULL END
                ) as publish,
                d.description as pub_comment
             FROM pg_publication p
             LEFT JOIN pg_roles r ON r.oid = p.pubowner
             LEFT JOIN pg_description d ON d.objoid = p.oid
                 AND d.classoid = 'pg_publication'::regclass AND d.objsubid = 0
             ORDER BY p.pubname";

/// The tables of the publications that do not publish every table.
pub const PUBLICATION_TABLES_QUERY: &'static str = "SELECT
                quote_ident(p.pubname) as pub_name,
                quote_ident(n.nspname) || '.' || quote_ident(c.relname) as table_name
             FROM pg_publication p
             JOIN pg_publication_rel pr ON pr.prpubid = p.oid
             JOIN pg_class c ON c.oid = pr.prrelid
             JOIN pg_namespace n ON n.oid = c.relnamespace
             WHERE NOT p.puballtables
             ORDER BY p.pubname, n.nspname, c.relname";

/// The subscriptions.
pub const SUBSCRIPTIONS_QUERY: &'static str = "SELECT
                quote_ident(s.subname) as sub_name,
                COALESCE(quote_ident(r.rolname), '') as sub_owner,
                s.subconninfo as sub_conninfo,
                COALESCE(s.subpublications, '{}'::text[]) as sub_publications,
                s.subenabled as sub_enabled,
                d.description as sub_comment
             FROM pg_subscription s
             LEFT JOIN pg_roles r ON r.oid = s.subowner
             LEFT JOIN pg_description d ON d.objoid = s.oid
                 AND d.classoid = 'pg_subscription'::regclass AND d.objsubid = 0
             ORDER BY s.subname";

/// The foreign-data wrappers that belong to no extension.
pub const FOREIGN_DATA_WRAPPERS_QUERY: &'static str = "SELECT
                quote_ident(fdw.fdwname) as fdw_name,
                COALESCE(quote_ident(r.rolname), '') as fdw_owner,
                CASE WHEN fdw.fdwhandler != 0 THEN
                    quote_ident(hn.nspname) || '.' || quote_ident(hp.proname)
                ELSE NULL END as handler_func,
                CASE WHEN fdw.fdwvalidator != 0 THEN
                    quote_ident(vn.nspname) || '.' || quote_ident(vp.proname)
                ELSE NULL END as validator_func,
                COALESCE(fdw.fdwoptions, '{}'::text[]) as fdw_options,
                d.description as fdw_comment
             FROM pg_foreign_data_wrapper fdw
             LEFT JOIN pg_roles r ON r.oid = fdw.fdwowner
             LEFT JOIN pg_proc hp ON hp.oid = fdw.fdwhandler
             LEFT JOIN pg_namespace hn ON hn.oid = hp.pronamespace
             LEFT JOIN pg_proc vp ON vp.oid = fdw.fdwvalidator
             LEFT JOIN pg_namespace vn ON vn.oid = vp.pronamespace
             LEFT JOIN pg_description d ON d.objoid = fdw.oid
                 AND d.classoid = 'pg_foreign_data_wrapper'::regclass AND d.objsubid = 0
             WHERE NOT EXISTS (SELECT 1 FROM pg_depend ext WHERE ext.objid = fdw.oid AND ext.deptype = 'e')
             ORDER BY fdw.fdwname";

/// The foreign servers that belong to no extension.
pub const FOREIGN_SERVERS_QUERY: &'static str = "SELECT
                quote_ident(s.srvname) as srv_name,
                COALESCE(quote_ident(r.rolname), '') as srv_owner,
                quote_ident(fdw.fdwname) as fdw_name,
                s.srvtype as srv_type,
                s.srvversion as srv_version,
                COALESCE(s.srvoptions, '{}'::text[]) as srv_options,
                d.description as srv_comment
             FROM pg_foreign_server s
             JOIN pg_foreign_data_wrapper fdw ON fdw.oid = s.srvfdw
             LEFT JOIN pg_roles r ON r.oid = s.srvowner
             LEFT JOIN pg_description d ON d.objoid = s.oid
                 AND d.classoid = 'pg_foreign_server'::regclass AND d.objsubid = 0
             WHERE NOT EXISTS (SELECT 1 FROM pg_depend ext WHERE ext.objid = s.oid AND ext.deptype = 'e')
             ORDER BY s.srvname";

/// The user mappings of the foreign servers.
pub const USER_MAPPINGS_QUERY: &'static str = "SELECT
                quote_ident(s.srvname) as server_name,
                CASE WHEN um.umuser = 0 THEN 'PUBLIC' ELSE quote_ident(r.rolname) END as username,
                COALESCE(um.umoptions, '{}'::text[]) as um_options
             FROM pg_user_mapping um
             JOIN pg_foreign_server s ON s.oid = um.umserver
             LEFT JOIN pg_roles r ON r.oid = um.umuser
             ORDER BY s.srvname, username";

pub const EXTENSIONS_HEAD: &'static str = "
            select
                quote_ident(n.nspname) as nspname,
                quote_ident(e.extname) as extname,
                e.extversion,
                quote_ident(r.rolname) as extowner
            from
                pg_extension e
                join pg_namespace n on e.extnamespace = n.oid
                left join pg_roles r on r.oid = e.extowner
            where
                (";

pub const EXTENSIONS_TAIL: &'static str = " or n.nspname = 'public')";

/// The query of [`extensions_query`].
pub open spec fn extensions_query_text(filter: Seq<char>) -> Seq<char> {
    EXTENSIONS_HEAD@ + "n.nspname in "@ + filter + EXTENSIONS_TAIL@
}

/// Asks for the extensions of the schemas and of `public`.
pub fn extensions_query(schema_filter: &str) -> (r: String)
    ensures
        r@ == extensions_query_text(schema_filter@),
        occurs_in("n.nspname in "@ + schema_filter@, r@),
{
    filtered(EXTENSIONS_HEAD, "n.nspname in ", schema_filter, EXTENSIONS_TAIL)
}

pub const COMPOSITE_ATTRIBUTES_HEAD: &'static str = "select
                    t.oid as type_oid,
                    a.attname,
                    pg_catalog.format_type(a.atttypid, a.atttypmod) as data_type
                 from pg_type t
                 join pg_namespace n on t.typnamespace = n.oid
                 join pg_class c on c.oid = t.typrelid
                 join pg_attribute a on a.attrelid = c.oid
                 where
                    ";

pub const COMPOSITE_ATTRIBUTES_TAIL: &'static str = "
                    and t.typtype = 'c'
                    and c.relkind = 'c'
                    and t.typisdefined = true
                    and a.attnum > 0
                    and a.attisdropped = false
                    and not exists (
                        select 1 from pg_depend ext_dep
                        where ext_dep.objid = t.oid
                        and ext_dep.deptype = 'e'
                    )
                 order by t.oid, a.attnum";

/// The query of [`composite_attributes_query`].
pub open spec fn composite_attributes_query_text(filter: Seq<char>) -> Seq<char> {
    COMPOSITE_ATTRIBUTES_HEAD@ + "n.nspname in "@ + filter + COMPOSITE_ATTRIBUTES_TAIL@
}

/// Asks for the attributes of the composite types, by type and position.
pub fn composite_attributes_query(schema_filter: &str) -> (r: String)
    ensures
        r@ == composite_attributes_query_text(schema_filter@),
        occurs_in("n.nspname in "@ + schema_filter@, r@),
{
    filtered(COMPOSITE_ATTRIBUTES_HEAD, "n.nspname in ", schema_filter, COMPOSITE_ATTRIBUTES_TAIL)
}

pub const TYPES_HEAD: &'static str = "select 
                quote_ident(n.nspname) as nspname,
                t.oid as type_oid,
                quote_ident(t.typname) as typname,
                t.typnamespace,
                t.typowner,
                quote_ident(owner_role.rolname) as typowner_name,
                t.typlen,
                t.typbyval,
                t.typtype,
                t.typcategory,
                t.typispreferred,
                t.typisdefined,
                t.typdelim,
                t.typrelid,
                t.typsubscript::text AS typsubscript,
                t.typelem,
                t.typarray,
                t.typinput::text AS typinput,
                t.typoutput::text AS typoutput,
                t.typreceive::text AS typreceive,
                t.typsend::text AS typsend,
                t.typmodin::text AS typmodin,
                t.typmodout::text AS typmodout,
                t.typanalyze::text AS typanalyze,
                t.typalign,
                t.typstorage,
                t.typnotnull,
                t.typbasetype,
                t.typtypmod,
                t.typndims,
                t.typcollation,
                t.typdefault,
                pg_catalog.format_type(t.typbasetype, t.typtypmod) as formatted_basetype,
                case when t.typcollation <> 0 then
                    (select quote_ident(cn.nspname) || '.' || quote_ident(cc.collname)
                     from pg_collation cc
                     join pg_namespace cn on cn.oid = cc.collnamespace
                     where cc.oid = t.typcollation)
                else null end as domain_collation_name,
                coalesce(
                    (select array_agg(acl_item::text) from unnest(t.typacl) as acl_item),
                    '{}'::text[]
                ) as typacl,
                d.description as comment
            from 
                pg_type t 
                join pg_namespace n on t.typnamespace = n.oid 
                left join pg_class c on c.oid = t.typrelid
                left join pg_roles owner_role on owner_role.oid = t.typowner
                left join pg_description d on d.objoid = t.oid
                    and d.classoid = 'pg_type'::regclass
                    and d.objsubid = 0
            where 
                ";

pub const TYPES_TAIL: &'static str = " 
                and (
                    t.typtype in ('d', 'e', 'r', 'm')
                    or (t.typtype = 'c' and c.relkind = 'c')
                )
                and t.typisdefined = true
                and not exists (
                    select 1 from pg_depend ext_dep
                    where ext_dep.objid = t.oid
                    and ext_dep.deptype = 'e'
                )";

/// The query of [`types_query`].
pub open spec fn types_query_text(filter: Seq<char>) -> Seq<char> {
    TYPES_HEAD@ + "n.nspname in "@ + filter + TYPES_TAIL@
}

/// Asks for the domains, enums, ranges, multiranges and composite types.
pub fn types_query(schema_filter: &str) -> (r: String)
    ensures
        r@ == types_query_text(schema_filter@),
        occurs_in("n.nspname in "@ + schema_filter@, r@),
{
    filtered(TYPES_HEAD, "n.nspname in ", schema_filter, TYPES_TAIL)
}

pub const DOMAIN_CONSTRAINTS_HEAD: &'static str = "select
                c.contypid as domain_oid,
                c.conname,
                pg_get_constraintdef(c.oid) as definition
            from pg_constraint c
            join pg_type t on t.oid = c.contypid
            join pg_namespace n on n.oid = t.typnamespace
            where c.contype = 'c'
              and c.contypid <> 0
              and ";

pub const DOMAIN_CONSTRAINTS_TAIL: &'static str = "
              and not exists (
                  select 1 from pg_depend ext_dep
                  where ext_dep.objid = c.contypid
                  and ext_dep.deptype = 'e'
              )
            order by c.contypid, c.conname";

/// The query of [`domain_constraints_query`].
pub open spec fn domain_constraints_query_text(filter: Seq<char>) -> Seq<char> {
    DOMAIN_CONSTRAINTS_HEAD@ + "n.nspname in "@ + filter + DOMAIN_CONSTRAINTS_TAIL@
}

/// Asks for the check constraints of the domains.
pub fn domain_constraints_query(schema_filter: &str) -> (r: String)
    ensures
        r@ == domain_constraints_query_text(schema_filter@),
        occurs_in("n.nspname in "@ + schema_filter@, r@),
{
    filtered(DOMAIN_CONSTRAINTS_HEAD, "n.nspname in ", schema_filter, DOMAIN_CONSTRAINTS_TAIL)
}

pub const ROUTINES_HEAD: &'static str = "select
                quote_ident(n.nspname) as nspname,
                r.oid,
                quote_ident(r.proname) as proname,
                l.lanname as prolang,
                case r.prokind
                    when 'f' then 'function'
                    when 'p' then 'procedure'
                    when 'a' then 'aggregate'
                    when 'w' then 'window'
                end as prokind,
                pg_get_function_result(r.oid) as prorettype,
                pg_get_function_identity_arguments(r.oid) as proarguments,
                pg_get_expr(r.proargdefaults, 0) as proargdefaults,
                quote_ident(owner_role.rolname) as owner_name,
                r.prosrc,
                d.description as routine_comment,
                r.provolatile::text as provolatile,
                r.proisstrict,
                r.proleakproof,
                r.proparallel::text as proparallel,
                r.prosecdef,
                r.proacl::text[] as routine_acl,
                r.proconfig::text[] as proconfig,
                agg.aggtransfn::regproc::text as agg_sfunc,
                format_type(agg.aggtranstype, null) as agg_stype,
                agg.aggtransspace as agg_sspace,
                case when agg.aggfinalfn != 0 then agg.aggfinalfn::regproc::text end as agg_finalfunc,
                agg.aggfinalextra as agg_finalfunc_extra,
                agg.aggfinalmodify::text as agg_finalfunc_modify,
                case when agg.aggcombinefn != 0 then agg.aggcombinefn::regproc::text end as agg_combinefunc,
                case when agg.aggserialfn != 0 then agg.aggserialfn::regproc::text end as agg_serialfunc,
                case when agg.aggdeserialfn != 0 then agg.aggdeserialfn::regproc::text end as agg_deserialfunc,
                agg.agginitval as agg_initcond,
                case when agg.aggmtransfn != 0 then agg.aggmtransfn::regproc::text end as agg_msfunc,
                case when agg.aggminvtransfn != 0 then agg.aggminvtransfn::regproc::text end as agg_minvfunc,
                case when agg.aggmtransfn != 0 then format_type(agg.aggmtranstype, null) end as agg_mstype,
                agg.aggmtransspace as agg_msspace,
                case when agg.aggmfinalfn != 0 then agg.aggmfinalfn::regproc::text end as agg_mfinalfunc,
                agg.aggmfinalextra as agg_mfinalfunc_extra,
                agg.aggmfinalmodify::text as agg_mfinalfunc_modify,
                agg.aggminitval as agg_minitcond,
                case when agg.aggsortop != 0 then agg.aggsortop::regoper::text end as agg_sortop,
                agg.aggkind::text as agg_kind,
                agg.aggnumdirectargs as agg_numdirectargs,
                r.procost,
                r.prorows,
                case when r.prosupport != 0 then r.prosupport::regproc::text else null end as prosupport,
                (
                    select array_agg(format_type(t.oid, null) order by ordinality)
                    from unnest(r.protrftypes) with ordinality as u(typid, ordinality)
                    join pg_type t on t.oid = u.typid
                ) as protrftypes
            from
                pg_proc r
                join pg_namespace n on r.pronamespace = n.oid
                join pg_language l on r.prolang = l.oid
                left join pg_roles owner_role on owner_role.oid = r.proowner
                left join pg_description d on d.objoid = r.oid and d.classoid = 'pg_proc'::regclass and d.objsubid = 0
                left join pg_aggregate agg on agg.aggfnoid = r.oid
            where
                ";

pub const ROUTINES_TAIL: &'static str = "
                and n.nspname not in ('pg_catalog', 'information_schema')
                and (l.lanname not in ('c', 'internal') or r.prokind in ('a', 'w'))
                and r.prokind in ('f', 'p', 'a', 'w')
                and not exists (
                    select 1 from pg_depend ext_dep
                    where ext_dep.objid = r.oid
                    and ext_dep.deptype = 'e'
                );";

/// The query of [`routines_query`].
pub open spec fn routines_query_text(filter: Seq<char>) -> Seq<char> {
    ROUTINES_HEAD@ + "n.nspname in "@ + filter + ROUTINES_TAIL@
}

/// Asks for the functions, procedures, aggregates and window functions.
pub fn routines_query(schema_filter: &str) -> (r: String)
    ensures
        r@ == routines_query_text(schema_filter@),
        occurs_in("n.nspname in "@ + schema_filter@, r@),
{
    filtered(ROUTINES_HEAD, "n.nspname in ", schema_filter, ROUTINES_TAIL)
}

pub const FOREIGN_TABLES_HEAD: &'static str = "select
                    quote_ident(n.nspname) as ft_schema,
                    quote_ident(c.relname) as ft_name,
                    quote_ident(s.srvname) as ft_server,
                    quote_ident(r.rolname) as ft_owner,
                    coalesce(
                        array(
                            select option_name || ' ' || quote_literal(option_value)
                            from pg_options_to_table(ft.ftoptions)
                        ),
                        array[]::text[]
                    ) as ft_options,
                    d.description as ft_comment,
                    c.relacl::text[] as ft_acl
                from pg_foreign_table ft
                join pg_class c on c.oid = ft.ftrelid
                join pg_namespace n on n.oid = c.relnamespace
                join pg_foreign_server s on s.oid = ft.ftserver
                left join pg_roles r on r.oid = c.relowner
                left join pg_description d on d.objoid = c.oid
                    and d.classoid = 'pg_class'::regclass
                    and d.objsubid = 0
                where
                    ";

pub const FOREIGN_TABLES_TAIL: &'static str = "
                    and not exists (
                        select 1 from pg_depend ext_dep
                        where ext_dep.objid = c.oid
                        and ext_dep.deptype = 'e'
                    )
                order by n.nspname, c.relname";

/// The query of [`foreign_tables_query`].
pub open spec fn foreign_tables_query_text(filter: Seq<char>) -> Seq<char> {
    FOREIGN_TABLES_HEAD@ + "n.nspname in "@ + filter + FOREIGN_TABLES_TAIL@
}

/// Asks for the foreign tables.
pub fn foreign_tables_query(schema_filter: &str) -> (r: String)
    ensures
        r@ == foreign_tables_query_text(schema_filter@),
        occurs_in("n.nspname in "@ + schema_filter@, r@),
{
    filtered(FOREIGN_TABLES_HEAD, "n.nspname in ", schema_filter, FOREIGN_TABLES_TAIL)
}

pub const FOREIGN_TABLE_COLUMNS_HEAD: &'static str = "select
                        quote_ident(n.nspname) as ft_schema,
                        quote_ident(c.relname) as ft_name,
                        quote_ident(a.attname) as col_name,
                        pg_catalog.format_type(a.atttypid, a.atttypmod) as col_type,
                        a.attnotnull as col_notnull,
                        pg_get_expr(ad.adbin, ad.adrelid) as col_default,
                        coalesce(
                            array(
                                select option_name || ' ' || quote_literal(option_value)
                                from pg_options_to_table(a.attfdwoptions)
                            ),
                            array[]::text[]
                        ) as col_options
                    from pg_attribute a
                    join pg_class c on c.oid = a.attrelid
                    join pg_namespace n on n.oid = c.relnamespace
                    join pg_foreign_table ft on ft.ftrelid = c.oid
                    left join pg_attrdef ad on ad.adrelid = a.attrelid and ad.adnum = a.attnum
                    where
                        ";

pub const FOREIGN_TABLE_COLUMNS_TAIL: &'static str = "
                        and a.attnum > 0
                        and not a.attisdropped
                        and not exists (
                            select 1 from pg_depend ext_dep
                            where ext_dep.objid = c.oid
                            and ext_dep.deptype = 'e'
                        )
                    order by n.nspname, c.relname, a.attnum";

/// The query of [`foreign_table_columns_query`].
pub open spec fn foreign_table_columns_query_text(filter: Seq<char>) -> Seq<char> {
    FOREIGN_TABLE_COLUMNS_HEAD@ + "n.nspname in "@ + filter + FOREIGN_TABLE_COLUMNS_TAIL@
}

/// Asks for the columns of the foreign tables, by table and position.
pub fn foreign_table_columns_query(schema_filter: &str) -> (r: String)
    ensures
        r@ == foreign_table_columns_query_text(schema_filter@),
        occurs_in("n.nspname in "@ + schema_filter@, r@),
{
    filtered(FOREIGN_TABLE_COLUMNS_HEAD, "n.nspname in ", schema_filter, FOREIGN_TABLE_COLUMNS_TAIL)
}

pub const STATISTICS_HEAD: &'static str = "select
                    quote_ident(n.nspname) as stat_schema,
                    quote_ident(s.stxname) as stat_name,
                    quote_ident(r.rolname) as stat_owner,
                    quote_ident(tn.nspname) as table_schema,
                    quote_ident(tc.relname) as table_name,
                    s.stxkind::text[] as stat_kinds,
                    pg_get_statisticsobjdef(s.oid) as stat_def,
                    d.description as stat_comment,
                    s.stxstattarget as stat_target
                from pg_statistic_ext s
                join pg_namespace n on n.oid = s.stxnamespace
                join pg_class tc on tc.oid = s.stxrelid
                join pg_namespace tn on tn.oid = tc.relnamespace
                left join pg_roles r on r.oid = s.stxowner
                left join pg_description d on d.objoid = s.oid
                    and d.classoid = 'pg_statistic_ext'::regclass
                    and d.objsubid = 0
                where
                    ";

pub const STATISTICS_TAIL: &'static str = "
                    and not exists (
                        select 1 from pg_depend ext_dep
                        where ext_dep.objid = s.oid
                        and ext_dep.deptype = 'e'
                    )
                order by n.nspname, s.stxname";

/// The query of [`statistics_query`].
pub open spec fn statistics_query_text(filter: Seq<char>) -> Seq<char> {
    STATISTICS_HEAD@ + "n.nspname in "@ + filter + STATISTICS_TAIL@
}

/// Asks for the extended statistics.
pub fn statistics_query(schema_filter: &str) -> (r: String)
    ensures
        r@ == statistics_query_text(schema_filter@),
        occurs_in("n.nspname in "@ + schema_filter@, r@),
{
    filtered(STATISTICS_HEAD, "n.nspname in ", schema_filter, STATISTICS_TAIL)
}

pub const RULES_HEAD: &'static str = "select
                    quote_ident(n.nspname) as rule_schema,
                    quote_ident(c.relname) as rule_table,
                    quote_ident(r.rulename) as rule_name,
                    pg_get_ruledef(r.oid, true) as rule_definition,
                    d.description as rule_comment
                from pg_rewrite r
                join pg_class c on c.oid = r.ev_class
                join pg_namespace n on n.oid = c.relnamespace
                left join pg_description d on d.objoid = r.oid
                    and d.classoid = 'pg_rewrite'::regclass
                    and d.objsubid = 0
                where
                    ";

pub const RULES_TAIL: &'static str = "
                    and r.rulename <> '_RETURN'
                    and not exists (
                        select 1 from pg_depend ext_dep
                        where ext_dep.objid = c.oid
                        and ext_dep.deptype = 'e'
                    )
                order by n.nspname, c.relname, r.rulename";

/// The query of [`rules_query`].
pub open spec fn rules_query_text(filter: Seq<char>) -> Seq<char> {
    RULES_HEAD@ + "n.nspname in "@ + filter + RULES_TAIL@
}

/// Asks for the rewrite rules but for those of views.
pub fn rules_query(schema_filter: &str) -> (r: String)
    ensures
        r@ == rules_query_text(schema_filter@),
        occurs_in("n.nspname in "@ + schema_filter@, r@),
{
    filtered(RULES_HEAD, "n.nspname in ", schema_filter, RULES_TAIL)
}

pub const TS_CONFIGS_HEAD: &'static str = "SELECT
                quote_ident(n.nspname) as cfg_schema,
                quote_ident(c.cfgname) as cfg_name,
                COALESCE(quote_ident(r.rolname), '') as cfg_owner,
                quote_ident(pn.nspname) || '.' || quote_ident(p.prsname) as cfg_parser,
                d.description as cfg_comment
             FROM pg_ts_config c
             JOIN pg_namespace n ON n.oid = c.cfgnamespace
             LEFT JOIN pg_roles r ON r.oid = c.cfgowner
             JOIN pg_ts_parser p ON p.oid = c.cfgparser
             JOIN pg_namespace pn ON pn.oid = p.prsnamespace
             LEFT JOIN pg_description d ON d.objoid = c.oid
                 AND d.classoid = 'pg_ts_config'::regclass AND d.objsubid = 0
             WHERE ";

pub const TS_CONFIGS_TAIL: &'static str = "
               AND NOT EXISTS (SELECT 1 FROM pg_depend ext WHERE ext.objid = c.oid AND ext.deptype = 'e')
             ORDER BY n.nspname, c.cfgname";

/// The query of [`ts_configs_query`].
pub open spec fn ts_configs_query_text(filter: Seq<char>) -> Seq<char> {
    TS_CONFIGS_HEAD@ + "n.nspname IN "@ + filter + TS_CONFIGS_TAIL@
}

/// Asks for the text search configurations.
pub fn ts_configs_query(schema_filter: &str) -> (r: String)
    ensures
        r@ == ts_configs_query_text(schema_filter@),
        occurs_in("n.nspname IN "@ + schema_filter@, r@),
{
    filtered(TS_CONFIGS_HEAD, "n.nspname IN ", schema_filter, TS_CONFIGS_TAIL)
}

pub const TS_CONFIG_MAPPINGS_HEAD: &'static str = "SELECT
                c.cfgnamespace as cfg_ns,
                c.oid as cfg_oid,
                c.cfgname as cfg_name_raw,
                t.alias as token_type,
                string_agg(
                    quote_ident(dn.nspname) || '.' || quote_ident(d.dictname),
                    ',' ORDER BY m.mapseqno
                ) as dicts
             FROM pg_ts_config c
             JOIN pg_namespace n ON n.oid = c.cfgnamespace
             JOIN pg_ts_config_map m ON m.mapcfg = c.oid
             JOIN pg_catalog.ts_token_type(c.cfgparser) t ON t.tokid = m.maptokentype
             JOIN pg_ts_dict d ON d.oid = m.mapdict
             JOIN pg_namespace dn ON dn.oid = d.dictnamespace
             WHERE ";

pub const TS_CONFIG_MAPPINGS_TAIL: &'static str = "
               AND NOT EXISTS (SELECT 1 FROM pg_depend ext WHERE ext.objid = c.oid AND ext.deptype = 'e')
             GROUP BY c.cfgnamespace, c.oid, c.cfgname, t.alias
             ORDER BY c.oid, t.alias";

/// The query of [`ts_config_mappings_query`].
pub open spec fn ts_config_mappings_query_text(filter: Seq<char>) -> Seq<char> {
    TS_CONFIG_MAPPINGS_HEAD@ + "n.nspname IN "@ + filter + TS_CONFIG_MAPPINGS_TAIL@
}

/// Asks for the token types that the configurations map, with their dictionaries.
pub fn ts_config_mappings_query(schema_filter: &str) -> (r: String)
    ensures
        r@ == ts_config_mappings_query_text(schema_filter@),
        occurs_in("n.nspname IN "@ + schema_filter@, r@),
{
    filtered(TS_CONFIG_MAPPINGS_HEAD, "n.nspname IN ", schema_filter, TS_CONFIG_MAPPINGS_TAIL)
}

pub const TS_CONFIG_OIDS_HEAD: &'static str = "SELECT
                c.oid as cfg_oid,
                quote_ident(n.nspname) as cfg_schema,
                quote_ident(c.cfgname) as cfg_name
             FROM pg_ts_config c
             JOIN pg_namespace n ON n.oid = c.cfgnamespace
             WHERE ";

pub const TS_CONFIG_OIDS_TAIL: &'static str = "
               AND NOT EXISTS (SELECT 1 FROM pg_depend ext WHERE ext.objid = c.oid AND ext.deptype = 'e')
             ORDER BY n.nspname, c.cfgname";

/// The query of [`ts_config_oids_query`].
pub open spec fn ts_config_oids_query_text(filter: Seq<char>) -> Seq<char> {
    TS_CONFIG_OIDS_HEAD@ + "n.nspname IN "@ + filter + TS_CONFIG_OIDS_TAIL@
}

/// Asks for the object identifiers of the configurations.
pub fn ts_config_oids_query(schema_filter: &str) -> (r: String)
    ensures
        r@ == ts_config_oids_query_text(schema_filter@),
        occurs_in("n.nspname IN "@ + schema_filter@, r@),
{
    filtered(TS_CONFIG_OIDS_HEAD, "n.nspname IN ", schema_filter, TS_CONFIG_OIDS_TAIL)
}

pub const TS_DICTS_HEAD: &'static str = "SELECT
                quote_ident(n.nspname) as dict_schema,
                quote_ident(d.dictname) as dict_name,
                COALESCE(quote_ident(r.rolname), '') as dict_owner,
                quote_ident(tn.nspname) || '.' || quote_ident(t.tmplname) as dict_template,
                COALESCE(d.dictinitoption, '') as dict_options,
                desc2.description as dict_comment
             FROM pg_ts_dict d
             JOIN pg_namespace n ON n.oid = d.dictnamespace
             LEFT JOIN pg_roles r ON r.oid = d.dictowner
             JOIN pg_ts_template t ON t.oid = d.dicttemplate
             JOIN pg_namespace tn ON tn.oid = t.tmplnamespace
             LEFT JOIN pg_description desc2 ON desc2.objoid = d.oid
                 AND desc2.classoid = 'pg_ts_dict'::regclass AND desc2.objsubid = 0
             WHERE ";

pub const TS_DICTS_TAIL: &'static str = "
               AND NOT EXISTS (SELECT 1 FROM pg_depend ext WHERE ext.objid = d.oid AND ext.deptype = 'e')
             ORDER BY n.nspname, d.dictname";

/// The query of [`ts_dicts_query`].
pub open spec fn ts_dicts_query_text(filter: Seq<char>) -> Seq<char> {
    TS_DICTS_HEAD@ + "n.nspname IN "@ + filter + TS_DICTS_TAIL@
}

/// Asks for the text search dictionaries.
pub fn ts_dicts_query(schema_filter: &str) -> (r: String)
    ensures
        r@ == ts_dicts_query_text(schema_filter@),
        occurs_in("n.nspname IN "@ + schema_filter@, r@),
{
    filtered(TS_DICTS_HEAD, "n.nspname IN ", schema_filter, TS_DICTS_TAIL)
}

pub const CASTS_HEAD: &'static str = "WITH user_types AS (
                SELECT t.oid
                FROM pg_type t
                JOIN pg_namespace n ON n.oid = t.typnamespace
                WHERE ";

pub const CASTS_TAIL: &'static str = "
            )
            SELECT
                pg_catalog.format_type(c.castsource, NULL) as source_type,
                pg_catalog.format_type(c.casttarget, NULL) as target_type,
                c.castmethod::text as cast_method,
                CASE WHEN c.castfunc != 0 THEN
                    quote_ident(fn2.nspname) || '.' || quote_ident(p.proname) ||
                    '(' || pg_get_function_identity_arguments(p.oid) || ')'
                ELSE NULL END as function_name,
                c.castcontext::text as cast_context,
                d.description as cast_comment
            FROM pg_cast c
            LEFT JOIN pg_proc p ON p.oid = c.castfunc
            LEFT JOIN pg_namespace fn2 ON fn2.oid = p.pronamespace
            LEFT JOIN pg_description d ON d.objoid = c.oid
                AND d.classoid = 'pg_cast'::regclass AND d.objsubid = 0
            WHERE NOT EXISTS (SELECT 1 FROM pg_depend pd WHERE pd.objid = c.oid AND pd.deptype IN ('e', 'i'))
              AND (c.castsource IN (SELECT oid FROM user_types)
                   OR c.casttarget IN (SELECT oid FROM user_types))
            ORDER BY source_type, target_type";

/// The query of [`casts_query`].
pub open spec fn casts_query_text(filter: Seq<char>) -> Seq<char> {
    CASTS_HEAD@ + "n.nspname IN "@ + filter + CASTS_TAIL@
}

/// Asks for the casts from or to types of the schemas.
pub fn casts_query(schema_filter: &str) -> (r: String)
    ensures
        r@ == casts_query_text(schema_filter@),
        occurs_in("n.nspname IN "@ + schema_filter@, r@),
{
    filtered(CASTS_HEAD, "n.nspname IN ", schema_filter, CASTS_TAIL)
}

pub const OPERATORS_HEAD: &'static str = "SELECT
                quote_ident(n.nspname) as op_schema,
                o.oprname as op_name,
                COALESCE(quote_ident(r.rolname), '') as op_owner,
                CASE WHEN o.oprleft != 0 THEN pg_catalog.format_type(o.oprleft, NULL) ELSE NULL END as left_type,
                CASE WHEN o.oprright != 0 THEN pg_catalog.format_type(o.oprright, NULL) ELSE NULL END as right_type,
                pg_catalog.format_type(o.oprresult, NULL) as result_type,
                quote_ident(pn.nspname) || '.' || quote_ident(p.proname) as procedure,
                CASE WHEN o.oprcom != 0 THEN
                    quote_ident(cn.nspname) || '.' || co.oprname ELSE NULL END as commutator,
                CASE WHEN o.oprnegate != 0 THEN
                    quote_ident(nn2.nspname) || '.' || no2.oprname ELSE NULL END as negator,
                CASE WHEN o.oprrest != 0 THEN
                    quote_ident(rn.nspname) || '.' || quote_ident(rp.proname) ELSE NULL END as restrict_fn,
                CASE WHEN o.oprjoin != 0 THEN
                    quote_ident(jn.nspname) || '.' || quote_ident(jp.proname) ELSE NULL END as join_fn,
                o.oprcanhash as is_hashes,
                o.oprcanmerge as is_merges,
                d.description as op_comment
             FROM pg_operator o
             JOIN pg_namespace n ON n.oid = o.oprnamespace
             LEFT JOIN pg_roles r ON r.oid = o.oprowner
             JOIN pg_proc p ON p.oid = o.oprcode
             JOIN pg_namespace pn ON pn.oid = p.pronamespace
             LEFT JOIN pg_operator co ON co.oid = o.oprcom
             LEFT JOIN pg_namespace cn ON cn.oid = co.oprnamespace
             LEFT JOIN pg_operator no2 ON no2.oid = o.oprnegate
             LEFT JOIN pg_namespace nn2 ON nn2.oid = no2.oprnamespace
             LEFT JOIN pg_proc rp ON rp.oid = o.oprrest
             LEFT JOIN pg_namespace rn ON rn.oid = rp.pronamespace
             LEFT JOIN pg_proc jp ON jp.oid = o.oprjoin
             LEFT JOIN pg_namespace jn ON jn.oid = jp.pronamespace
             LEFT JOIN pg_description d ON d.objoid = o.oid
                 AND d.classoid = 'pg_operator'::regclass AND d.objsubid = 0
             WHERE ";

pub const OPERATORS_TAIL: &'static str = "
               AND NOT EXISTS (SELECT 1 FROM pg_depend ext WHERE ext.objid = o.oid AND ext.deptype = 'e')
             ORDER BY n.nspname, o.oprname";

/// The query of [`operators_query`].
pub open spec fn operators_query_text(filter: Seq<char>) -> Seq<char> {
    OPERATORS_HEAD@ + "n.nspname IN "@ + filter + OPERATORS_TAIL@
}

/// Asks for the operators.
pub fn operators_query(schema_filter: &str) -> (r: String)
    ensures
        r@ == operators_query_text(schema_filter@),
        occurs_in("n.nspname IN "@ + schema_filter@, r@),
{
    filtered(OPERATORS_HEAD, "n.nspname IN ", schema_filter, OPERATORS_TAIL)
}

pub const DEFAULT_PRIVILEGES_HEAD: &'static str = "SELECT
                quote_ident(r.rolname) as role_name,
                COALESCE(quote_ident(n.nspname), '') as schema_name,
                da.defaclobjtype::text as object_type,
                COALESCE(da.defaclacl::text[], '{}'::text[]) as acl
             FROM pg_default_acl da
             JOIN pg_roles r ON r.oid = da.defaclrole
             LEFT JOIN pg_namespace n ON n.oid = da.defaclnamespace
             WHERE da.defaclnamespace = 0 OR ";

pub const DEFAULT_PRIVILEGES_TAIL: &'static str = "
             ORDER BY r.rolname, COALESCE(n.nspname, ''), da.defaclobjtype";

/// The query of [`default_privileges_query`].
pub open spec fn default_privileges_query_text(filter: Seq<char>) -> Seq<char> {
    DEFAULT_PRIVILEGES_HEAD@ + "n.nspname IN "@ + filter + DEFAULT_PRIVILEGES_TAIL@
}

/// Asks for the default privileges, global ones too.
pub fn default_privileges_query(schema_filter: &str) -> (r: String)
    ensures
        r@ == default_privileges_query_text(schema_filter@),
        occurs_in("n.nspname IN "@ + schema_filter@, r@),
{
    filtered(DEFAULT_PRIVILEGES_HEAD, "n.nspname IN ", schema_filter, DEFAULT_PRIVILEGES_TAIL)
}

/// Comments on objects of every catalog are kept together, under the number of
/// the object. This condition leaves those on tables, views and sequences.
pub const COMMENT_CONDITION: &'static str = "d.classoid = 'pg_class'::regclass";

/// The same condition in the query for sequences.
pub const SEQUENCE_COMMENT_CONDITION: &'static str = "seq_desc.classoid = 'pg_class'::regclass";

pub const SEQUENCES_HEAD: &'static str = "
            select
                quote_ident(seq.schemaname) as schemaname,
                quote_ident(seq.sequencename) as sequencename,
                quote_ident(seq.sequenceowner) as sequenceowner,
                seq.data_type::varchar as sequencedatatype,
                seq.start_value,
                seq.min_value,
                seq.max_value,
                seq.increment_by,
                seq.cycle,
                seq.cache_size,
                seq.last_value,
                quote_ident(owner_ns.nspname) as owned_by_schema,
                quote_ident(owner_table.relname) as owned_by_table,
                quote_ident(owner_attr.attname) as owned_by_column,
                dep.deptype::text as dependency_type,
                seq_desc.description as seq_comment,
                seq_class.relacl::text[] as seq_acl,
                seq_class.relpersistence::text as seq_persistence
            from
                pg_sequences seq
                left join pg_namespace seq_ns on seq_ns.nspname = seq.schemaname
                left join pg_class seq_class on seq_class.relname = seq.sequencename
                    and seq_class.relnamespace = seq_ns.oid
                left join pg_description seq_desc on seq_desc.objoid = seq_class.oid and 
                    seq_desc.objsubid = 0 and
                    ";

pub const SEQUENCES_MIDDLE: &'static str = "
                left join pg_depend dep on dep.objid = seq_class.oid
                    and dep.deptype in ('a', 'i')
                left join pg_class owner_table on owner_table.oid = dep.refobjid
                left join pg_namespace owner_ns on owner_ns.oid = owner_table.relnamespace
                left join pg_attribute owner_attr on owner_attr.attrelid = dep.refobjid
                    and owner_attr.attnum = dep.refobjsubid
            where
                ";

pub const SEQUENCES_TAIL: &'static str = "
                and not exists (
                    select 1 from pg_depend ext_dep
                    where ext_dep.objid = seq_class.oid
                    and ext_dep.deptype = 'e'
                )";

/// The query for the sequences.
pub open spec fn sequences_query_text(filter: Seq<char>) -> Seq<char> {
    SEQUENCES_HEAD@ + SEQUENCE_COMMENT_CONDITION@ + SEQUENCES_MIDDLE@ + "seq.schemaname in "@ + filter
        + SEQUENCES_TAIL@
}

pub const TABLES_HEAD: &'static str = "
                select
                    quote_ident(t.schemaname) as schemaname,
                    quote_ident(t.tablename) as tablename,
                    quote_ident(t.tableowner) as tableowner,
                    t.schemaname as raw_schema_name,
                    t.tablename as raw_table_name,
                    t.tablespace,
                    t.hasindexes,
                    t.hastriggers,
                    t.hasrules,
                    t.rowsecurity,
                    d.description as table_comment,
                    c.relacl::text[] as table_acl,
                    am.amname as access_method,
                    c.relpersistence as relpersistence,
                    c.reloptions as reloptions,
                    c.relreplident as relreplident,
                    c.relforcerowsecurity as relforcerowsecurity,
                    case when c.reloftype <> 0 then c.reloftype::regtype::text else null end as typed_table_type,
                    array(
                        select quote_ident(pn.nspname) || '.' || quote_ident(pc.relname)
                        from pg_inherits pi2
                        join pg_class pc on pc.oid = pi2.inhparent
                        join pg_namespace pn on pn.oid = pc.relnamespace
                        where pi2.inhrelid = c.oid
                        and not exists (
                            select 1 from pg_partitioned_table pt where pt.partrelid = pi2.inhparent
                        )
                        order by pi2.inhseqno
                    ) as inherits_from
                from pg_tables t
                left join pg_class c on c.relname = t.tablename
                    and c.relkind in ('r','p')
                    and c.relnamespace = (select oid from pg_namespace where nspname = t.schemaname)
                left join pg_am am on am.oid = c.relam
                left join pg_description d on d.objoid = c.oid and
                    d.objsubid = 0 and
                    ";

pub const TABLES_MIDDLE: &'static str = "
                where
                    t.schemaname not in ('pg_catalog', 'information_schema')
                    and ";

pub const TABLES_TAIL: &'static str = "
                    and t.tablename not like 'pg_%'
                    and not exists (
                        select 1 from pg_depend ext_dep
                        where ext_dep.objid = c.oid
                        and ext_dep.deptype = 'e'
                    );";

/// The query for the tables.
pub open spec fn tables_query_text(filter: Seq<char>) -> Seq<char> {
    TABLES_HEAD@ + COMMENT_CONDITION@ + TABLES_MIDDLE@ + "t.schemaname in "@ + filter
        + TABLES_TAIL@
}

pub const VIEW_COL_COMMENTS_HEAD: &'static str = "select
                quote_ident(n.nspname) as schema_name,
                quote_ident(c.relname) as view_name,
                quote_ident(a.attname) as column_name,
                d.description as col_comment
            from pg_class c
            join pg_namespace n on n.oid = c.relnamespace
            join pg_attribute a on a.attrelid = c.oid and a.attnum > 0 and not a.attisdropped
            join pg_description d on d.objoid = c.oid and ";

pub const VIEW_COL_COMMENTS_MIDDLE: &'static str = " and d.objsubid = a.attnum
            where c.relkind in ('v', 'm')
                and n.nspname not in ('pg_catalog', 'information_schema')
                and ";

pub const VIEW_COL_COMMENTS_TAIL: &'static str = "
            order by n.nspname, c.relname, a.attnum;";

/// The query for the comments on columns of views.
pub open spec fn view_col_comments_query_text(filter: Seq<char>) -> Seq<char> {
    VIEW_COL_COMMENTS_HEAD@ + COMMENT_CONDITION@ + VIEW_COL_COMMENTS_MIDDLE@ + "n.nspname in "@ + filter
        + VIEW_COL_COMMENTS_TAIL@
}

pub const REGULAR_VIEWS_HEAD: &'static str = "select
                    quote_ident(v.table_schema) as table_schema,
                    quote_ident(v.table_name) as table_name,
                    v.view_definition,
                    quote_ident(pv.viewowner) as view_owner,
                    array_agg(distinct vtu.table_schema || '.' || vtu.table_name) as table_relation,
                    d.description as view_comment,
                    (select cc.relacl::text[] from pg_class cc where cc.oid = c.oid) as view_acl,
                    coalesce(c.reloptions::text[] @> array['security_invoker=true']::text[], false) as security_invoker,
                    v.check_option
            from information_schema.views v
            join information_schema.view_table_usage vtu on v.table_name = vtu.view_name and v.table_schema = vtu.view_schema
            left join pg_views pv on pv.schemaname = v.table_schema and pv.viewname = v.table_name
            left join pg_class c on c.relname = v.table_name and c.relnamespace = (select oid from pg_namespace where nspname = v.table_schema)
            left join pg_description d on d.objoid = c.oid and
                d.objsubid = 0 and
                ";

pub const REGULAR_VIEWS_MIDDLE: &'static str = "
            where
                v.table_schema not in ('pg_catalog', 'information_schema')
                and ";

pub const REGULAR_VIEWS_TAIL: &'static str = "
                and not exists (
                    select 1 from pg_depend ext_dep
                    where ext_dep.objid = c.oid
                    and ext_dep.deptype = 'e'
                )
            group by v.table_schema, v.table_name, v.view_definition, pv.viewowner, d.description, c.oid, c.reloptions, v.check_option;";

/// The query for the views that are not materialized.
pub open spec fn regular_views_query_text(filter: Seq<char>) -> Seq<char> {
    REGULAR_VIEWS_HEAD@ + COMMENT_CONDITION@ + REGULAR_VIEWS_MIDDLE@ + "v.table_schema in "@ + filter
        + REGULAR_VIEWS_TAIL@
}

pub const MAT_VIEWS_HEAD: &'static str = "select
                    mv.schemaname as table_schema,
                    mv.matviewname as table_name,
                    mv.definition as view_definition,
                    mv.matviewowner as view_owner,
                    array(
                        select distinct n.nspname || '.' || dc.relname
                        from pg_depend dep
                        join pg_class dc on dc.oid = dep.refobjid
                        join pg_namespace n on n.oid = dc.relnamespace
                        where dep.objid = c.oid
                          and dep.deptype = 'n'
                          and dc.relkind in ('r', 'v', 'm')
                    ) as table_relation,
                    d.description as view_comment,
                    c.relacl::text[] as view_acl,
                    c.reloptions as storage_options,
                    (select spcname from pg_tablespace where oid = c.reltablespace) as tablespace_name
            from pg_matviews mv
            join pg_class c on c.relname = mv.matviewname
                and c.relnamespace = (select oid from pg_namespace where nspname = mv.schemaname)
            left join pg_description d on d.objoid = c.oid and
                d.objsubid = 0 and
                ";

pub const MAT_VIEWS_MIDDLE: &'static str = "
            where mv.schemaname not in ('pg_catalog', 'information_schema')
                and ";

pub const MAT_VIEWS_TAIL: &'static str = "
                and not exists (
                    select 1 from pg_depend ext_dep
                    where ext_dep.objid = c.oid
                    and ext_dep.deptype = 'e'
                );";

/// The query for the materialized views.
pub open spec fn mat_views_query_text(filter: Seq<char>) -> Seq<char> {
    MAT_VIEWS_HEAD@ + COMMENT_CONDITION@ + MAT_VIEWS_MIDDLE@ + "mv.schemaname in "@ + filter
        + MAT_VIEWS_TAIL@
}

impl Dump {
    /// Asks for the sequences.
    pub fn build_sequences_query(schema_filter: &str) -> (r: String)
        ensures
            r@ == sequences_query_text(schema_filter@),
            occurs_in("seq.schemaname in "@ + schema_filter@, r@),
    {
        let mut out = String::new();
        out.append(SEQUENCES_HEAD);
        out.append(SEQUENCE_COMMENT_CONDITION);
        out.append(SEQUENCES_MIDDLE);
        out.append("seq.schemaname in ");
        out.append(schema_filter);
        out.append(SEQUENCES_TAIL);
        proof {
            assert(out@ =~= sequences_query_text(schema_filter@));
            lemma_filter_inside(
                SEQUENCES_HEAD@ + SEQUENCE_COMMENT_CONDITION@ + SEQUENCES_MIDDLE@,
                "seq.schemaname in "@,
                schema_filter@,
                SEQUENCES_TAIL@,
            );
        }
        out
    }

    /// Asks for the tables.
    pub fn build_tables_query(schema_filter: &str) -> (r: String)
        ensures
            r@ == tables_query_text(schema_filter@),
            occurs_in("t.schemaname in "@ + schema_filter@, r@),
    {
        let mut out = String::new();
        out.append(TABLES_HEAD);
        out.append(COMMENT_CONDITION);
        out.append(TABLES_MIDDLE);
        out.append("t.schemaname in ");
        out.append(schema_filter);
        out.append(TABLES_TAIL);
        proof {
            assert(out@ =~= tables_query_text(schema_filter@));
            lemma_filter_inside(
                TABLES_HEAD@ + COMMENT_CONDITION@ + TABLES_MIDDLE@,
                "t.schemaname in "@,
                schema_filter@,
                TABLES_TAIL@,
            );
        }
        out
    }

    /// Asks for the comments on columns of views.
    pub fn build_view_col_comments_query(schema_filter: &str) -> (r: String)
        ensures
            r@ == view_col_comments_query_text(schema_filter@),
            occurs_in("n.nspname in "@ + schema_filter@, r@),
    {
        let mut out = String::new();
        out.append(VIEW_COL_COMMENTS_HEAD);
        out.append(COMMENT_CONDITION);
        out.append(VIEW_COL_COMMENTS_MIDDLE);
        out.append("n.nspname in ");
        out.append(schema_filter);
        out.append(VIEW_COL_COMMENTS_TAIL);
        proof {
            assert(out@ =~= view_col_comments_query_text(schema_filter@));
            lemma_filter_inside(
                VIEW_COL_COMMENTS_HEAD@ + COMMENT_CONDITION@ + VIEW_COL_COMMENTS_MIDDLE@,
                "n.nspname in "@,
                schema_filter@,
                VIEW_COL_COMMENTS_TAIL@,
            );
        }
        out
    }

    /// Asks for the views that are not materialized.
    pub fn build_regular_views_query(schema_filter: &str) -> (r: String)
        ensures
            r@ == regular_views_query_text(schema_filter@),
            occurs_in("v.table_schema in "@ + schema_filter@, r@),
    {
        let mut out = String::new();
        out.append(REGULAR_VIEWS_HEAD);
        out.append(COMMENT_CONDITION);
        out.append(REGULAR_VIEWS_MIDDLE);
        out.append("v.table_schema in ");
        out.append(schema_filter);
        out.append(REGULAR_VIEWS_TAIL);
        proof {
            assert(out@ =~= regular_views_query_text(schema_filter@));
            lemma_filter_inside(
                REGULAR_VIEWS_HEAD@ + COMMENT_CONDITION@ + REGULAR_VIEWS_MIDDLE@,
                "v.table_schema in "@,
                schema_filter@,
                REGULAR_VIEWS_TAIL@,
            );
        }
        out
    }

    /// Asks for the materialized views.
    pub fn build_mat_views_query(schema_filter: &str) -> (r: String)
        ensures
            r@ == mat_views_query_text(schema_filter@),
            occurs_in("mv.schemaname in "@ + schema_filter@, r@),
    {
        let mut out = String::new();
        out.append(MAT_VIEWS_HEAD);
        out.append(COMMENT_CONDITION);
        out.append(MAT_VIEWS_MIDDLE);
        out.append("mv.schemaname in ");
        out.append(schema_filter);
        out.append(MAT_VIEWS_TAIL);
        proof {
            assert(out@ =~= mat_views_query_text(schema_filter@));
            lemma_filter_inside(
                MAT_VIEWS_HEAD@ + COMMENT_CONDITION@ + MAT_VIEWS_MIDDLE@,
                "mv.schemaname in "@,
                schema_filter@,
                MAT_VIEWS_TAIL@,
            );
        }
        out
    }

}

/// Whatever the filter, each of these queries takes comments from the right
/// catalog only.
pub proof fn law_comments_of_the_right_catalog(filter: Seq<char>)
    ensures
        occurs_in(SEQUENCE_COMMENT_CONDITION@, sequences_query_text(filter)),
        occurs_in(COMMENT_CONDITION@, tables_query_text(filter)),
        occurs_in(COMMENT_CONDITION@, view_col_comments_query_text(filter)),
        occurs_in(COMMENT_CONDITION@, regular_views_query_text(filter)),
        occurs_in(COMMENT_CONDITION@, mat_views_query_text(filter)),
{
    assert(sequences_query_text(filter) =~= SEQUENCES_HEAD@ + SEQUENCE_COMMENT_CONDITION@ + (SEQUENCES_MIDDLE@
        + "seq.schemaname in "@ + filter + SEQUENCES_TAIL@));
    assert(tables_query_text(filter) =~= TABLES_HEAD@ + COMMENT_CONDITION@ + (TABLES_MIDDLE@
        + "t.schemaname in "@ + filter + TABLES_TAIL@));
    assert(view_col_comments_query_text(filter) =~= VIEW_COL_COMMENTS_HEAD@ + COMMENT_CONDITION@ + (VIEW_COL_COMMENTS_MIDDLE@
        + "n.nspname in "@ + filter + VIEW_COL_COMMENTS_TAIL@));
    assert(regular_views_query_text(filter) =~= REGULAR_VIEWS_HEAD@ + COMMENT_CONDITION@ + (REGULAR_VIEWS_MIDDLE@
        + "v.table_schema in "@ + filter + REGULAR_VIEWS_TAIL@));
    assert(mat_views_query_text(filter) =~= MAT_VIEWS_HEAD@ + COMMENT_CONDITION@ + (MAT_VIEWS_MIDDLE@
        + "mv.schemaname in "@ + filter + MAT_VIEWS_TAIL@));
}

pub const RANGES_HEAD: &'static str = "select
                    r.rngtypid as type_oid,
                    pg_catalog.format_type(r.rngsubtype, null) as range_subtype,
                    case when r.rngcollation <> 0 then
                        (select quote_ident(n.nspname) || '.' || quote_ident(c.collname)
                         from pg_collation c join pg_namespace n on n.oid = c.collnamespace
                         where c.oid = r.rngcollation)
                    else null end as range_collation,
                    quote_ident(opc_ns.nspname) || '.' || quote_ident(opc.opcname) as range_opclass,
                    case when r.rngcanonical <> 0 then r.rngcanonical::regproc::text else null end as range_canonical,
                    case when r.rngsubdiff <> 0 then r.rngsubdiff::regproc::text else null end as range_subdiff,
                    ";

pub const RANGES_SOURCE: &'static str = "
                from pg_range r
                join pg_type t on t.oid = r.rngtypid
                join pg_namespace n on n.oid = t.typnamespace
                join pg_opclass opc on opc.oid = r.rngsubopc
                join pg_namespace opc_ns on opc_ns.oid = opc.opcnamespace
                ";

pub const RANGES_CONDITION: &'static str = "
                where ";

pub const RANGES_TAIL: &'static str = "
                  and not exists (
                      select 1 from pg_depend ext_dep
                      where ext_dep.objid = t.oid
                      and ext_dep.deptype = 'e'
                  )";

/// The column that names the multirange of a range.
pub const MULTIRANGE_COLUMN: &'static str = "quote_ident(mt.typname) as multirange_name";

/// The same column where the catalog knows no multiranges.
pub const NO_MULTIRANGE_COLUMN: &'static str = "null::text as multirange_name";

/// The join that finds the multirange of a range.
pub const MULTIRANGE_JOIN: &'static str = "left join pg_type mt on mt.oid = r.rngmultitypid";

/// The query for what ranges are made of.
pub open spec fn ranges_query_text(has_multirange: bool, filter: Seq<char>) -> Seq<char> {
    RANGES_HEAD@ + (if has_multirange {
        MULTIRANGE_COLUMN@
    } else {
        NO_MULTIRANGE_COLUMN@
    }) + RANGES_SOURCE@ + (if has_multirange {
        MULTIRANGE_JOIN@
    } else {
        Seq::empty()
    }) + RANGES_CONDITION@ + "n.nspname in "@ + filter + RANGES_TAIL@
}

/// Asks what the ranges are made of. Multiranges are asked for only where the
/// catalog has them.
pub fn ranges_query(has_multirange: bool, schema_filter: &str) -> (r: String)
    ensures
        r@ == ranges_query_text(has_multirange, schema_filter@),
        occurs_in("n.nspname in "@ + schema_filter@, r@),
{
    let mut out = String::new();
    out.append(RANGES_HEAD);
    if has_multirange {
        out.append(MULTIRANGE_COLUMN);
    } else {
        out.append(NO_MULTIRANGE_COLUMN);
    }
    out.append(RANGES_SOURCE);
    if has_multirange {
        out.append(MULTIRANGE_JOIN);
    }
    out.append(RANGES_CONDITION);
    out.append("n.nspname in ");
    out.append(schema_filter);
    out.append(RANGES_TAIL);
    proof {
        let head = RANGES_HEAD@ + (if has_multirange {
        MULTIRANGE_COLUMN@
    } else {
        NO_MULTIRANGE_COLUMN@
    }) + RANGES_SOURCE@ + (if has_multirange {
        MULTIRANGE_JOIN@
    } else {
        Seq::empty()
    }) + RANGES_CONDITION@;
        assert(out@ =~= ranges_query_text(has_multirange, schema_filter@));
        lemma_filter_inside(head, "n.nspname in "@, schema_filter@, RANGES_TAIL@);
    }
    out
}

/// The first version of the server, as a number, that has multiranges.
pub const FIRST_MULTIRANGE_VERSION: i32 = 140000;

/// Whether it has to be asked if the catalog knows multiranges: an older server
/// has none.
pub fn multirange_probe_needed(server_version: i32) -> (r: bool)
    ensures
        r == (server_version >= FIRST_MULTIRANGE_VERSION),
{
    server_version >= FIRST_MULTIRANGE_VERSION
}

pub const COLLATIONS_HEAD: &'static str = "SELECT
                quote_ident(n.nspname) as coll_schema,
                quote_ident(c.collname) as coll_name,
                COALESCE(quote_ident(r.rolname), '') as coll_owner,
                c.collprovider::text as coll_provider,
                ";

pub const COLLATIONS_AFTER_LOCALE: &'static str = " as coll_locale,
                c.collcollate as coll_collate,
                c.collctype as coll_ctype,
                ";

pub const COLLATIONS_AFTER_ICU_LOCALE: &'static str = " as coll_icu_locale,
                ";

pub const COLLATIONS_AFTER_ICU_RULES: &'static str = " as coll_icu_rules,
                c.collisdeterministic as coll_deterministic,
                d.description as coll_comment
             FROM pg_collation c
             JOIN pg_namespace n ON n.oid = c.collnamespace
             LEFT JOIN pg_roles r ON r.oid = c.collowner
             LEFT JOIN pg_description d ON d.objoid = c.oid
                 AND d.classoid = 'pg_collation'::regclass AND d.objsubid = 0
             WHERE ";

pub const COLLATIONS_TAIL: &'static str = "
               AND c.collencoding IN (-1, (SELECT encoding FROM pg_database WHERE datname = current_database()))
               AND NOT EXISTS (SELECT 1 FROM pg_depend ext WHERE ext.objid = c.oid AND ext.deptype = 'e')
             ORDER BY n.nspname, c.collname";

pub const LOCALE_COLUMN: &'static str = "c.colllocale";

pub const ICU_LOCALE_COLUMN: &'static str = "c.colliculocale";

pub const ICU_RULES_COLUMN: &'static str = "c.collicurules";

/// What stands for a column that the catalog lacks.
pub const NO_COLUMN: &'static str = "NULL::text";

/// Which columns the catalog of collations has.
#[derive(Debug, Clone, Copy, PartialEq, Eq)]
pub struct CollationColumns {
    pub icu_locale: bool,
    pub icu_rules: bool,
    pub locale: bool,
}

/// The column where the catalog has it, and a null otherwise.
pub open spec fn column_or_null(present: bool, column: Seq<char>) -> Seq<char> {
    if present {
        column
    } else {
        NO_COLUMN@
    }
}

/// The query for the collations.
pub open spec fn collations_query_text(columns: CollationColumns, filter: Seq<char>) -> Seq<char> {
    COLLATIONS_HEAD@ + column_or_null(columns.locale, LOCALE_COLUMN@) + COLLATIONS_AFTER_LOCALE@
        + column_or_null(columns.icu_locale, ICU_LOCALE_COLUMN@) + COLLATIONS_AFTER_ICU_LOCALE@
        + column_or_null(columns.icu_rules, ICU_RULES_COLUMN@) + COLLATIONS_AFTER_ICU_RULES@
        + "n.nspname IN "@ + filter + COLLATIONS_TAIL@
}

/// Appends the column where the catalog has it, and a null otherwise.
fn append_column(out: &mut String, present: bool, column: &str)
    ensures
        final(out)@ == old(out)@ + column_or_null(present, column@),
{
    if present {
        out.append(column);
    } else {
        out.append(NO_COLUMN);
    }
}

/// Asks for the collations, with a null for each column that the catalog lacks.
pub fn collations_query(columns: CollationColumns, schema_filter: &str) -> (r: String)
    ensures
        r@ == collations_query_text(columns, schema_filter@),
        occurs_in("n.nspname IN "@ + schema_filter@, r@),
{
    let mut out = String::new();
    out.append(COLLATIONS_HEAD);
    append_column(&mut out, columns.locale, LOCALE_COLUMN);
    out.append(COLLATIONS_AFTER_LOCALE);
    append_column(&mut out, columns.icu_locale, ICU_LOCALE_COLUMN);
    out.append(COLLATIONS_AFTER_ICU_LOCALE);
    append_column(&mut out, columns.icu_rules, ICU_RULES_COLUMN);
    out.append(COLLATIONS_AFTER_ICU_RULES);
    out.append("n.nspname IN ");
    out.append(schema_filter);
    out.append(COLLATIONS_TAIL);
    proof {
        let head = COLLATIONS_HEAD@ + column_or_null(columns.locale, LOCALE_COLUMN@) + COLLATIONS_AFTER_LOCALE@
            + column_or_null(columns.icu_locale, ICU_LOCALE_COLUMN@) + COLLATIONS_AFTER_ICU_LOCALE@
            + column_or_null(columns.icu_rules, ICU_RULES_COLUMN@) + COLLATIONS_AFTER_ICU_RULES@;
        assert(out@ =~= collations_query_text(columns, schema_filter@));
        lemma_filter_inside(head, "n.nspname IN "@, schema_filter@, COLLATIONS_TAIL@);
    }
    out
}

} // verus!
