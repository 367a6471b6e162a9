//! What the objects of a dump keep of the rows of the catalog, stated field by
//! field, with every choice that is made on the way.

use crate::foreign_tables::{
    foreign_table_names, is_foreign_table_of, ForeignColumnRow, ForeignTableRow,
};
use crate::grouping::{
    first_gets, law_values_of_the_rows_of_an_object, seen_before, values_owned, OwnedRow,
};
use crate::objects::{
    self, AggregateInfo, ForeignTable, Publication, Routine, Schema, Sequence, Statistic, Table,
    TextSearchConfig, TextSearchDict,
};
use crate::order::{equals_of, law_stable_sort, stably_sorted, text_le};
use crate::publications::{
    is_publication_of, publication_names, tables_of, PublicationRow, PublishedTableRow,
};
use crate::routines::{
    is_aggregate_of, is_normalized, is_routine_of, kept_cost, kept_rows, AggregateRow,
    RoutineRow,
};
use crate::schemas::{is_schema_of, schema_line, usable, SchemaRow};
use crate::sequences::{is_sequence_of, SequenceRow};
use crate::statistics::{columns_named, is_statistic_of, kind_name, StatisticRow};
use crate::tables::{by_schema_and_name, is_table_of, law_tables_in_order, TableRow};
use crate::text::{line_endings_normalized, list_items, lowercase, texts};
use crate::text_search::{
    entries_for, is_dictionary_of, is_first_about, is_mapped, mapping_entries, ConfigOidRow,
    DictionaryRow, MappingRow,
};
use crate::views::{
    is_materialized_view_of, is_storage_parameter, is_view_of, view_names, ColumnComment,
    MaterializedViewRow, ViewRow,
};
use vstd::prelude::*;

verus! {

/// A sequence is what its row says. It is an identity exactly where the kind of its
/// dependency is `i`, and unlogged exactly where its persistence is `u`.
pub proof fn law_fields_of_a_sequence(s: Sequence, row: SequenceRow)
    requires
        is_sequence_of(s, row),
    ensures
        s.schema == row.schema,
        s.name == row.name,
        s.owner == row.owner,
        s.data_type == row.data_type,
        s.start_value == row.start_value,
        s.min_value == row.min_value,
        s.max_value == row.max_value,
        s.increment_by == row.increment_by,
        s.cycle == row.cycle,
        s.cache_size == row.cache_size,
        s.last_value == row.last_value,
        s.owned_by_schema == row.owned_by_schema,
        s.owned_by_table == row.owned_by_table,
        s.owned_by_column == row.owned_by_column,
        s.comment == row.comment,
        row.acl is Some ==> s.acl == row.acl->0,
        row.acl is None ==> s.acl@.len() == 0,
        s.is_identity <==> row.dependency_type is Some && row.dependency_type->0@ == "i"@,
        s.is_unlogged <==> row.persistence is Some && row.persistence->0@ == "u"@,
        s.hash is None,
{
}

/// A table is what its row says: `heap` is no access method to keep, `u` stands for
/// unlogged, and the replica identity is given by its letter, `d` for the default.
pub proof fn law_fields_of_a_table(t: Table, row: TableRow)
    requires
        is_table_of(t, row),
    ensures
        t.schema == row.schema,
        t.name == row.name,
        t.raw_schema == row.raw_schema,
        t.raw_name == row.raw_name,
        t.owner == row.owner,
        t.space == row.space,
        t.has_indexes == row.has_indexes,
        t.has_triggers == row.has_triggers,
        t.has_rules == row.has_rules,
        t.has_rowsecurity == row.has_rowsecurity,
        t.comment == row.comment,
        t.storage_parameters == row.storage_parameters,
        row.inherits_from is Some ==> t.inherits_from == row.inherits_from->0,
        row.inherits_from is None ==> t.inherits_from@.len() == 0,
        t.typed_table_type == row.typed_table_type,
        row.acl is Some ==> t.acl == row.acl->0,
        row.acl is None ==> t.acl@.len() == 0,
        t.columns@.len() == 0 && t.constraints@.len() == 0 && t.indexes@.len() == 0,
        t.triggers@.len() == 0 && t.policies@.len() == 0,
        t.definition is None && t.partition_key is None && t.partition_of is None,
        t.partition_bound is None && t.hash is None,
        row.access_method is Some && row.access_method->0@ != "heap"@ ==> t.access_method
            == row.access_method,
        row.access_method is None || row.access_method->0@ == "heap"@ ==> t.access_method is None,
        t.is_unlogged <==> row.persistence == Some(117i8),
        t.force_rowsecurity <==> row.force_rowsecurity == Some(true),
        t.replica_identity is None <==> row.replica_identity is None,
        row.replica_identity is Some ==> {
            let (code, letter) = (row.replica_identity->0, t.replica_identity->0@);
            &&& letter == "n"@ <==> code == 110
            &&& letter == "f"@ <==> code == 102
            &&& letter == "i"@ <==> code == 105
            &&& letter == "d"@ <==> code != 110 && code != 102 && code != 105
        },
{
    reveal_strlit("n");
    reveal_strlit("f");
    reveal_strlit("i");
    reveal_strlit("d");
    assert("n"@[0] != "f"@[0] && "n"@[0] != "i"@[0] && "n"@[0] != "d"@[0]);
    assert("f"@[0] != "i"@[0] && "f"@[0] != "d"@[0] && "i"@[0] != "d"@[0]);
}

/// A schema is what its row says.
pub proof fn law_fields_of_a_schema(schema: Schema, row: SchemaRow)
    requires
        is_schema_of(schema, row),
    ensures
        schema.name == row.name,
        schema.raw_name == row.raw_name,
        row.owner is Some ==> schema.owner == row.owner->0,
        row.owner is None ==> schema.owner@.len() == 0,
        schema.comment == row.comment,
        row.acl is Some ==> schema.acl == row.acl->0,
        row.acl is None ==> schema.acl@.len() == 0,
        schema.hash is None,
{
}

/// The schemas that are taken are those that may be used, all of them, in their
/// order; every row is reported, and the others are reported as skipped.
pub proof fn law_schemas_taken(rows: Seq<SchemaRow>, i: int)
    requires
        0 <= i < rows.len(),
    ensures
        rows[i].has_usage ==> usable(rows).contains(rows[i]),
        usable(rows).len() <= rows.len(),
        forall|k: int| 0 <= k < usable(rows).len() ==> (#[trigger] usable(rows)[k]).has_usage
            && rows.contains(usable(rows)[k]),
        usable(rows.take(i + 1)) == if rows[i].has_usage {
            usable(rows.take(i)).push(rows[i])
        } else {
            usable(rows.take(i))
        },
        rows[i].has_usage ==> schema_line(rows[i]) == " - "@ + rows[i].name@,
        !rows[i].has_usage ==> schema_line(rows[i]) == " - "@ + rows[i].name@
            + " (skipped: no USAGE privilege)"@,
{
    let pred = |row: SchemaRow| row.has_usage;
    rows.lemma_filter_len(pred);
    if rows[i].has_usage {
        rows.lemma_filter_contains(pred, i);
    }
    assert forall|k: int| 0 <= k < usable(rows).len() implies (#[trigger] usable(rows)[k]).has_usage
        && rows.contains(usable(rows)[k]) by {
        rows.lemma_filter_pred(pred, k);
        rows.lemma_filter_contains_rev(pred, usable(rows)[k]);
    }
    assert(rows.take(i + 1) =~= rows.take(i).push(rows[i]));
    rows.take(i).lemma_filter_push(rows[i], pred);
}

/// Statistics are what their row says: letters of kinds are written out, a target
/// below zero is none, and the columns are those of the definition.
pub proof fn law_fields_of_statistics(s: Statistic, row: StatisticRow)
    requires
        is_statistic_of(s, row),
    ensures
        s.schema == row.schema,
        s.name == row.name,
        row.owner is Some ==> s.owner == row.owner->0,
        row.owner is None ==> s.owner@.len() == 0,
        s.table_schema == row.table_schema,
        s.table_name == row.table_name,
        s.definition == row.definition,
        s.comment == row.comment,
        texts(s.columns@) == columns_named(row.definition@),
        row.target is Some && row.target->0 >= 0 ==> s.stxstattarget == row.target,
        row.target is None || row.target->0 < 0 ==> s.stxstattarget is None,
        row.kinds is None ==> s.kinds@.len() == 0,
        row.kinds is Some ==> s.kinds@.len() == row.kinds->0@.len() && forall|k: int|
            #![trigger s.kinds@[k]]
            0 <= k < s.kinds@.len() ==> {
                let (letter, name) = (row.kinds->0@[k]@, s.kinds@[k]@);
                &&& letter == "d"@ ==> name == "ndistinct"@
                &&& letter == "f"@ ==> name == "dependencies"@
                &&& letter == "m"@ ==> name == "mcv"@
                &&& letter == "e"@ ==> name == "expressions"@
                &&& letter != "d"@ && letter != "f"@ && letter != "m"@ && letter != "e"@ ==> name
                    == letter
            },
        s.hash is None,
{
    reveal_strlit("d");
    reveal_strlit("f");
    reveal_strlit("m");
    reveal_strlit("e");
    assert("d"@[0] != "f"@[0] && "d"@[0] != "m"@[0] && "d"@[0] != "e"@[0]);
    assert("f"@[0] != "m"@[0] && "f"@[0] != "e"@[0] && "m"@[0] != "e"@[0]);
    assert(texts(s.kinds@).len() == s.kinds@.len());
    if row.kinds is Some {
        let letters = row.kinds->0@;
        assert forall|k: int| #![trigger s.kinds@[k]] 0 <= k < s.kinds@.len() implies s.kinds@[k]@
            == kind_name(letters[k]@) by {
            assert(texts(s.kinds@)[k] == s.kinds@[k]@);
            assert(texts(letters)[k] == letters[k]@);
        }
    }
}

/// An aggregate is what its row says. What is `r`, the default, is left out; what is
/// not said is empty, false, zero or the kind `n`.
pub proof fn law_fields_of_an_aggregate(info: AggregateInfo, row: AggregateRow)
    requires
        is_aggregate_of(info, row),
    ensures
        row.sfunc is Some ==> info.sfunc == row.sfunc->0,
        row.sfunc is None ==> info.sfunc@.len() == 0,
        row.stype is Some ==> info.stype == row.stype->0,
        row.stype is None ==> info.stype@.len() == 0,
        info.sspace == row.sspace,
        info.finalfunc == row.finalfunc,
        info.combinefunc == row.combinefunc,
        info.serialfunc == row.serialfunc,
        info.deserialfunc == row.deserialfunc,
        info.initcond == row.initcond,
        info.msfunc == row.msfunc,
        info.minvfunc == row.minvfunc,
        info.mstype == row.mstype,
        info.msspace == row.msspace,
        info.mfinalfunc == row.mfinalfunc,
        info.minitcond == row.minitcond,
        info.sortop == row.sortop,
        info.finalfunc_extra <==> row.finalfunc_extra == Some(true),
        info.mfinalfunc_extra <==> row.mfinalfunc_extra == Some(true),
        row.finalfunc_modify is Some && row.finalfunc_modify->0@ != "r"@ ==> info.finalfunc_modify
            == row.finalfunc_modify,
        row.finalfunc_modify is None || row.finalfunc_modify->0@ == "r"@
            ==> info.finalfunc_modify is None,
        row.mfinalfunc_modify is Some && row.mfinalfunc_modify->0@ != "r"@
            ==> info.mfinalfunc_modify == row.mfinalfunc_modify,
        row.mfinalfunc_modify is None || row.mfinalfunc_modify->0@ == "r"@
            ==> info.mfinalfunc_modify is None,
        row.kind is Some && row.kind->0@.len() > 0 ==> info.kind == row.kind->0@[0],
        row.kind is None || row.kind->0@.len() == 0 ==> info.kind == 'n',
        row.num_direct_args is Some ==> info.num_direct_args == row.num_direct_args->0,
        row.num_direct_args is None ==> info.num_direct_args == 0,
{
}

/// A routine is what its row says, with its source code in LF line endings, letters
/// written out, and an aggregate where it is one.
pub proof fn law_fields_of_a_routine(routine: Routine, row: RoutineRow)
    requires
        is_routine_of(routine, row),
    ensures
        routine.schema == row.schema,
        routine.oid == row.oid,
        routine.name == row.name,
        routine.lang == row.lang,
        routine.kind == row.kind,
        routine.arguments == row.arguments,
        routine.arguments_defaults == row.arguments_defaults,
        row.owner is Some ==> routine.owner == row.owner->0,
        row.owner is None ==> routine.owner@.len() == 0,
        routine.comment == row.comment,
        routine.is_strict == row.is_strict,
        routine.is_leakproof == row.is_leakproof,
        routine.security_definer == row.security_definer,
        row.config is Some ==> routine.config == row.config->0,
        row.config is None ==> routine.config@.len() == 0,
        routine.support_function == row.support_function,
        row.transform_types is Some ==> routine.transform_types == row.transform_types->0,
        row.transform_types is None ==> routine.transform_types@.len() == 0,
        row.acl is Some ==> routine.acl == row.acl->0,
        row.acl is None ==> routine.acl@.len() == 0,
        row.return_type is Some ==> routine.return_type == row.return_type->0,
        row.return_type is None ==> routine.return_type@ == "void"@,
        routine.source_code@ == line_endings_normalized(row.source_code@),
        routine.volatility@ == "immutable"@ <==> row.volatility@ == "i"@,
        routine.volatility@ == "stable"@ <==> row.volatility@ == "s"@,
        routine.volatility@ == "volatile"@ <==> row.volatility@ != "i"@ && row.volatility@ != "s"@,
        routine.parallel@ == "safe"@ <==> row.parallel@ == "s"@,
        routine.parallel@ == "restricted"@ <==> row.parallel@ == "r"@,
        routine.parallel@ == "unsafe"@ <==> row.parallel@ != "s"@ && row.parallel@ != "r"@,
        routine.aggregate_info is Some <==> row.kind@ == "aggregate"@,
        routine.aggregate_info is Some ==> is_aggregate_of(
            routine.aggregate_info->0,
            row.aggregate,
        ),
        routine.cost_bits is Some ==> routine.cost_bits == row.cost_bits,
        routine.rows_bits is Some ==> routine.rows_bits == row.rows_bits,
        routine.hash is None,
{
    reveal_strlit("i");
    reveal_strlit("s");
    reveal_strlit("r");
    reveal_strlit("immutable");
    reveal_strlit("stable");
    reveal_strlit("volatile");
    reveal_strlit("safe");
    reveal_strlit("restricted");
    reveal_strlit("unsafe");
    assert("immutable"@[0] == 'i' && "stable"@[0] == 's' && "volatile"@[0] == 'v');
    assert("safe"@[0] == 's' && "restricted"@[0] == 'r' && "unsafe"@[0] == 'u');
    assert("i"@[0] == 'i' && "s"@[0] == 's' && "r"@[0] == 'r');
}

/// A cost is left out where it is the default, one hundred, or one (up to the
/// machine epsilon) for routines in C and internal ones; where it is no number;
/// and for procedures. It is kept otherwise.
pub proof fn law_cost_kept(kind: Seq<char>, lang: Seq<char>, bits: u64)
    ensures
        kept_cost(kind, lang, None) is None,
        kind == "procedure"@ ==> kept_cost(kind, lang, Some(bits)) is None,
        // not a number
        0x7ff0_0000_0000_0000 < bits < 0x8000_0000_0000_0000 || 0xfff0_0000_0000_0000 < bits
            ==> kept_cost(kind, lang, Some(bits)) is None,
        lang == "c"@ || lang == "internal"@ ==> (kept_cost(kind, lang, Some(bits)) is None
            <== 0x3fef_ffff_ffff_fffe <= bits <= 0x3ff0_0000_0000_0001),
        lang != "c"@ && lang != "internal"@ ==> (kept_cost(kind, lang, Some(bits)) is None <== bits
            == 0x4059_0000_0000_0000),
        // a number that is no default
        kind != "procedure"@ && (bits <= 0x7ff0_0000_0000_0000 || 0x8000_0000_0000_0000 <= bits
            <= 0xfff0_0000_0000_0000) && (if lang == "c"@ || lang == "internal"@ {
            bits < 0x3fef_ffff_ffff_fffe || 0x3ff0_0000_0000_0001 < bits
        } else {
            bits != 0x4059_0000_0000_0000
        }) ==> kept_cost(kind, lang, Some(bits)) == Some(bits),
{
}

/// A row estimate is kept where it is above zero, and not for procedures.
pub proof fn law_rows_kept(kind: Seq<char>, bits: u64)
    ensures
        kept_rows(kind, None) is None,
        kept_rows(kind, Some(bits)) == Some(bits) <==> kind != "procedure"@ && 0 < bits
            <= 0x7ff0_0000_0000_0000,
        kept_rows(kind, Some(bits)) is None <==> kind == "procedure"@ || bits == 0 || bits
            > 0x7ff0_0000_0000_0000,
{
}

/// Normalizing a routine changes its source code and nothing else.
pub proof fn law_normalizing_a_routine(after: Routine, before: Routine)
    requires
        is_normalized(after, before),
    ensures
        after.source_code@ == line_endings_normalized(before.source_code@),
        after.schema == before.schema,
        after.oid == before.oid,
        after.name == before.name,
        after.lang == before.lang,
        after.kind == before.kind,
        after.return_type == before.return_type,
        after.arguments == before.arguments,
        after.arguments_defaults == before.arguments_defaults,
        after.owner == before.owner,
        after.comment == before.comment,
        after.volatility == before.volatility,
        after.is_strict == before.is_strict,
        after.is_leakproof == before.is_leakproof,
        after.parallel == before.parallel,
        after.security_definer == before.security_definer,
        after.config == before.config,
        after.aggregate_info == before.aggregate_info,
        after.cost_bits == before.cost_bits,
        after.rows_bits == before.rows_bits,
        after.support_function == before.support_function,
        after.transform_types == before.transform_types,
        after.acl == before.acl,
        after.hash == before.hash,
{
}

/// A view is what its row says. `NONE` in any case is no check option, and any other
/// option is kept in small letters.
pub proof fn law_fields_of_a_view(v: objects::View, row: ViewRow, comments: Seq<ColumnComment>)
    requires
        is_view_of(v, row, comments),
    ensures
        v.schema == row.schema,
        v.name == row.name,
        v.definition == row.definition,
        v.table_relation == row.table_relation,
        row.owner is Some ==> v.owner == row.owner->0,
        row.owner is None ==> v.owner@.len() == 0,
        v.comment == row.comment,
        v.security_invoker == row.security_invoker,
        row.acl is Some ==> v.acl == row.acl->0,
        row.acl is None ==> v.acl@.len() == 0,
        !v.is_materialized,
        v.column_comments@ == comments,
        v.storage_parameters is None && v.tablespace is None && v.hash is None,
        row.check_option is None ==> v.check_option is None,
        v.check_option is Some ==> row.check_option is Some && v.check_option->0@ == lowercase(
            row.check_option->0@,
        ),
        row.check_option is Some ==> (v.check_option is None <==> {
            let option = row.check_option->0@;
            &&& option.len() == 4
            &&& option[0] == 'N' || option[0] == 'n'
            &&& option[1] == 'O' || option[1] == 'o'
            &&& option[2] == 'N' || option[2] == 'n'
            &&& option[3] == 'E' || option[3] == 'e'
        }),
{
    reveal_strlit("NONE");
    if row.check_option is Some {
        let option = row.check_option->0@;
        let (a, b) = (
            option.map_values(|c: char| crate::text::ascii_lower(c)),
            "NONE"@.map_values(|c: char| crate::text::ascii_lower(c)),
        );
        assert(b.len() == 4 && b[0] == 'n' && b[1] == 'o' && b[2] == 'n' && b[3] == 'e');
        assert(a.len() == option.len());
        if a == b {
            assert(a[0] == 'n' && a[1] == 'o' && a[2] == 'n' && a[3] == 'e');
        }
        if option.len() == 4 && (option[0] == 'N' || option[0] == 'n') && (option[1] == 'O'
            || option[1] == 'o') && (option[2] == 'N' || option[2] == 'n') && (option[3] == 'E'
            || option[3] == 'e') {
            assert(a =~= b);
        }
    }
}

/// A materialized view is what its row says. Of its storage options those are kept
/// that do not say who the view runs as, in their order.
pub proof fn law_fields_of_a_materialized_view(v: objects::View, row: MaterializedViewRow, comments: Seq<ColumnComment>)
    requires
        is_materialized_view_of(v, row, comments),
    ensures
        v.schema == row.schema,
        v.name == row.name,
        v.definition == row.definition,
        v.table_relation == row.table_relation,
        row.owner is Some ==> v.owner == row.owner->0,
        row.owner is None ==> v.owner@.len() == 0,
        v.comment == row.comment,
        v.tablespace == row.tablespace,
        row.acl is Some ==> v.acl == row.acl->0,
        row.acl is None ==> v.acl@.len() == 0,
        v.is_materialized && !v.security_invoker && v.check_option is None && v.hash is None,
        v.column_comments@ == comments,
        row.storage_options is None ==> v.storage_parameters is None,
        v.storage_parameters is Some ==> row.storage_options is Some && v.storage_parameters->0@.len()
            > 0 && v.storage_parameters->0@ == row.storage_options->0@.filter(
            |option: String| !"security_invoker="@.is_prefix_of(option@),
        ),
        v.storage_parameters is None && row.storage_options is Some ==> forall|k: int|
            0 <= k < row.storage_options->0@.len() ==> "security_invoker="@.is_prefix_of(
                (#[trigger] row.storage_options->0@[k])@,
            ),
{
    let pred = |option: String| !"security_invoker="@.is_prefix_of(option@);
    assert(pred =~= is_storage_parameter());
    if v.storage_parameters is None && row.storage_options is Some {
        let options = row.storage_options->0@;
        assert forall|k: int| 0 <= k < options.len() implies "security_invoker="@.is_prefix_of(
            (#[trigger] options[k])@,
        ) by {
            if !"security_invoker="@.is_prefix_of(options[k]@) {
                options.lemma_filter_contains(pred, k);
            }
        }
    }
}

/// The names by which views get their column comments: each by its own schema and
/// name, the materialized ones behind the others.
pub proof fn law_names_of_views(
    regular: Seq<ViewRow>,
    materialized: Seq<MaterializedViewRow>,
    i: int,
)
    requires
        0 <= i < regular.len() + materialized.len(),
    ensures
        view_names(regular, materialized).len() == regular.len() + materialized.len(),
        i < regular.len() ==> view_names(regular, materialized)[i] == (
            regular[i].schema@,
            regular[i].name@,
        ),
        i >= regular.len() ==> view_names(regular, materialized)[i] == (
            materialized[i - regular.len()].schema@,
            materialized[i - regular.len()].name@,
        ),
{
}

/// A view gets the comments that name its schema and itself, in their order,
/// unless a view before it has the same name.
pub proof fn law_comments_of_a_view(
    regular: Seq<ViewRow>,
    materialized: Seq<MaterializedViewRow>,
    comments: Seq<OwnedRow<ColumnComment>>,
    i: int,
)
    requires
        0 <= i < regular.len(),
        forall|j: int|
            0 <= j < i ==> (#[trigger] regular[j]).schema@ != regular[i].schema@ || regular[j].name@
                != regular[i].name@,
    ensures
        first_gets(
            view_names(regular, materialized),
            i,
            values_owned(comments, view_names(regular, materialized)[i]),
        ) == comments.filter(
            |row: OwnedRow<ColumnComment>|
                row.schema@ == regular[i].schema@ && row.name@ == regular[i].name@,
        ).map_values(|row: OwnedRow<ColumnComment>| row.value),
{
    let names = view_names(regular, materialized);
    assert forall|j: int| 0 <= j < i implies #[trigger] names[j] != names[i] by {
        assert(regular[j].schema@ != regular[i].schema@ || regular[j].name@ != regular[i].name@);
    }
    assert(!seen_before(names, i, names[i]));
    let (schema, name) = (regular[i].schema@, regular[i].name@);
    let own = |row: OwnedRow<ColumnComment>| row.schema@ == schema && row.name@ == name;
    assert(own =~= (|row: OwnedRow<ColumnComment>|
        row.schema@ == regular[i].schema@ && row.name@ == regular[i].name@));
    law_values_of_the_rows_of_an_object(comments, schema, name);
}

/// So does a materialized view.
pub proof fn law_comments_of_a_materialized_view(
    regular: Seq<ViewRow>,
    materialized: Seq<MaterializedViewRow>,
    comments: Seq<OwnedRow<ColumnComment>>,
    i: int,
)
    requires
        0 <= i < materialized.len(),
        forall|j: int|
            0 <= j < regular.len() ==> (#[trigger] regular[j]).schema@ != materialized[i].schema@
                || regular[j].name@ != materialized[i].name@,
        forall|j: int|
            0 <= j < i ==> (#[trigger] materialized[j]).schema@ != materialized[i].schema@
                || materialized[j].name@ != materialized[i].name@,
    ensures
        first_gets(
            view_names(regular, materialized),
            regular.len() + i,
            values_owned(comments, view_names(regular, materialized)[regular.len() + i]),
        ) == comments.filter(
            |row: OwnedRow<ColumnComment>|
                row.schema@ == materialized[i].schema@ && row.name@ == materialized[i].name@,
        ).map_values(|row: OwnedRow<ColumnComment>| row.value),
{
    let names = view_names(regular, materialized);
    let at = regular.len() + i;
    assert forall|j: int| 0 <= j < at implies #[trigger] names[j] != names[at] by {
        if j < regular.len() {
            assert(regular[j].schema@ != materialized[i].schema@ || regular[j].name@
                != materialized[i].name@);
        } else {
            assert(materialized[j - regular.len()].schema@ != materialized[i].schema@
                || materialized[j - regular.len()].name@ != materialized[i].name@);
        }
    }
    assert(!seen_before(names, at, names[at]));
    let (schema, name) = (materialized[i].schema@, materialized[i].name@);
    let own = |row: OwnedRow<ColumnComment>| row.schema@ == schema && row.name@ == name;
    assert(own =~= (|row: OwnedRow<ColumnComment>|
        row.schema@ == materialized[i].schema@ && row.name@ == materialized[i].name@));
    law_values_of_the_rows_of_an_object(comments, schema, name);
}

/// A foreign table is what its row says, with a column for each row of a column; a
/// column may be null unless its row says that it may not.
pub proof fn law_fields_of_a_foreign_table(table: ForeignTable, row: ForeignTableRow, columns: Seq<ForeignColumnRow>)
    requires
        is_foreign_table_of(table, row, columns),
    ensures
        table.schema == row.schema,
        table.name == row.name,
        table.server == row.server,
        row.owner is Some ==> table.owner == row.owner->0,
        row.owner is None ==> table.owner@.len() == 0,
        row.options is Some ==> table.options == row.options->0,
        row.options is None ==> table.options@.len() == 0,
        table.comment == row.comment,
        row.acl is Some ==> table.acl == row.acl->0,
        row.acl is None ==> table.acl@.len() == 0,
        table.hash is None,
        table.columns@.len() == columns.len(),
        forall|k: int|
            #![trigger table.columns@[k]]
            0 <= k < columns.len() ==> {
                &&& table.columns@[k].name == columns[k].name
                &&& table.columns@[k].data_type == columns[k].data_type
                &&& table.columns@[k].is_nullable <==> !columns[k].is_not_null
                &&& table.columns@[k].column_default == columns[k].column_default
                &&& columns[k].options is Some ==> table.columns@[k].options
                    == columns[k].options->0
                &&& columns[k].options is None ==> table.columns@[k].options@.len() == 0
            },
{
}

/// A foreign table gets the columns that name its schema and itself, in their
/// order, unless a table before it has the same name.
pub proof fn law_columns_of_a_foreign_table(
    rows: Seq<ForeignTableRow>,
    columns: Seq<OwnedRow<ForeignColumnRow>>,
    i: int,
)
    requires
        0 <= i < rows.len(),
        forall|j: int|
            0 <= j < i ==> (#[trigger] rows[j]).schema@ != rows[i].schema@ || rows[j].name@
                != rows[i].name@,
    ensures
        first_gets(
            foreign_table_names(rows),
            i,
            values_owned(columns, foreign_table_names(rows)[i]),
        ) == columns.filter(
            |row: OwnedRow<ForeignColumnRow>|
                row.schema@ == rows[i].schema@ && row.name@ == rows[i].name@,
        ).map_values(|row: OwnedRow<ForeignColumnRow>| row.value),
{
    let names = foreign_table_names(rows);
    assert forall|j: int| 0 <= j < i implies #[trigger] names[j] != names[i] by {
        assert(rows[j].schema@ != rows[i].schema@ || rows[j].name@ != rows[i].name@);
    }
    assert(!seen_before(names, i, names[i]));
    let (schema, name) = (rows[i].schema@, rows[i].name@);
    let own = |row: OwnedRow<ForeignColumnRow>| row.schema@ == schema && row.name@ == name;
    assert(own =~= (|row: OwnedRow<ForeignColumnRow>|
        row.schema@ == rows[i].schema@ && row.name@ == rows[i].name@));
    law_values_of_the_rows_of_an_object(columns, schema, name);
}

/// A publication is what its row says.
pub proof fn law_fields_of_a_publication(p: Publication, row: PublicationRow, tables: Seq<String>)
    requires
        is_publication_of(p, row, tables),
    ensures
        p.name == row.name,
        p.owner == row.owner,
        p.all_tables == row.all_tables,
        p.publish == row.publish,
        p.comment == row.comment,
        p.tables@ == tables,
        p.hash is None,
{
}

/// A publication gets the tables of the rows that name it, in their order, unless
/// a publication before it has the same name.
pub proof fn law_tables_of_a_publication(
    rows: Seq<PublicationRow>,
    tables: Seq<PublishedTableRow>,
    i: int,
)
    requires
        0 <= i < rows.len(),
        forall|j: int| 0 <= j < i ==> (#[trigger] rows[j]).name@ != rows[i].name@,
    ensures
        first_gets(publication_names(rows), i, tables_of(tables, rows[i].name@)) == tables.filter(
            |row: PublishedTableRow| row.publication@ == rows[i].name@,
        ).map_values(|row: PublishedTableRow| row.table),
{
    let names = publication_names(rows);
    assert forall|j: int| 0 <= j < i implies #[trigger] names[j] != names[i] by {
        assert(rows[j].name@ != rows[i].name@);
    }
    assert(!seen_before(names, i, names[i]));
    let name = rows[i].name@;
    let own = |row: PublishedTableRow| row.publication@ == name;
    assert(own =~= (|row: PublishedTableRow| row.publication@ == rows[i].name@));
    lemma_tables_of(tables, name);
}

proof fn lemma_tables_of(tables: Seq<PublishedTableRow>, name: Seq<char>)
    ensures
        tables_of(tables, name) == tables.filter(
            |row: PublishedTableRow| row.publication@ == name,
        ).map_values(|row: PublishedTableRow| row.table),
    decreases tables.len(),
{
    let own = |row: PublishedTableRow| row.publication@ == name;
    let table = |row: PublishedTableRow| row.table;
    reveal(Seq::filter);
    if tables.len() == 0 {
        assert(tables_of(tables, name) =~= tables.filter(own).map_values(table));
    } else {
        let rest = tables.drop_last();
        lemma_tables_of(rest, name);
        assert(tables =~= rest.push(tables.last()));
        rest.lemma_filter_push(tables.last(), own);
        assert(tables_of(tables, name) =~= tables.filter(own).map_values(table));
    }
}

/// A dictionary is what its row says, with the options of its list.
pub proof fn law_fields_of_a_dictionary(d: TextSearchDict, row: DictionaryRow)
    requires
        is_dictionary_of(d, row),
    ensures
        d.schema == row.schema,
        d.name == row.name,
        d.owner == row.owner,
        d.template == row.template,
        d.comment == row.comment,
        texts(d.options@) == list_items(row.options@),
        d.hash is None,
{
}

proof fn lemma_mapping_entries(rows: Seq<MappingRow>, oid: u32)
    ensures
        mapping_entries(rows, oid) == rows.filter(|row: MappingRow| row.config_oid == oid).map_values(
            |row: MappingRow| row.token_type@ + ":"@ + row.dictionaries@,
        ),
    decreases rows.len(),
{
    let own = |row: MappingRow| row.config_oid == oid;
    let entry = |row: MappingRow| row.token_type@ + ":"@ + row.dictionaries@;
    reveal(Seq::filter);
    if rows.len() == 0 {
        assert(mapping_entries(rows, oid) =~= rows.filter(own).map_values(entry));
    } else {
        let rest = rows.drop_last();
        lemma_mapping_entries(rest, oid);
        assert(rows =~= rest.push(rows.last()));
        rest.lemma_filter_push(rows.last(), own);
        assert(mapping_entries(rows, oid) =~= rows.filter(own).map_values(entry));
    }
}

/// A configuration gets the token types and dictionaries of the mappings with its
/// number, in their order. Its number is the last one, with mappings, that is
/// given for its schema and name.
pub proof fn law_mappings_of_a_configuration(
    after: TextSearchConfig,
    configs: Seq<TextSearchConfig>,
    j: int,
    oids: Seq<ConfigOidRow>,
    mappings: Seq<MappingRow>,
    n: int,
)
    requires
        0 <= j < configs.len(),
        is_mapped(after, configs, j, oids, mappings),
        forall|k: int|
            0 <= k < j ==> (#[trigger] configs[k]).schema@ != configs[j].schema@ || configs[k].name@
                != configs[j].name@,
        0 <= n < oids.len(),
        oids[n].schema@ == configs[j].schema@,
        oids[n].name@ == configs[j].name@,
        exists|m: int| 0 <= m < mappings.len() && (#[trigger] mappings[m]).config_oid == oids[n].oid,
        forall|l: int|
            n < l < oids.len() ==> (#[trigger] oids[l]).schema@ != configs[j].schema@
                || oids[l].name@ != configs[j].name@ || forall|m: int|
                0 <= m < mappings.len() ==> (#[trigger] mappings[m]).config_oid != oids[l].oid,
    ensures
        texts(after.mappings@) == mappings.filter(
            |row: MappingRow| row.config_oid == oids[n].oid,
        ).map_values(|row: MappingRow| row.token_type@ + ":"@ + row.dictionaries@),
        after.schema == configs[j].schema,
        after.name == configs[j].name,
        after.owner == configs[j].owner,
        after.parser == configs[j].parser,
        after.comment == configs[j].comment,
        after.hash == configs[j].hash,
{
    let own = |row: MappingRow| row.config_oid == oids[n].oid;
    lemma_mapping_entries(mappings, oids[n].oid);
    let m = choose|m: int| 0 <= m < mappings.len() && (#[trigger] mappings[m]).config_oid == oids[n].oid;
    mappings.lemma_filter_contains(own, m);
    assert(mapping_entries(mappings, oids[n].oid).len() > 0);
    assert forall|l: int| n < l < oids.len() implies (#[trigger] oids[l]).schema@
        != configs[j].schema@ || oids[l].name@ != configs[j].name@ || mapping_entries(
        mappings,
        oids[l].oid,
    ).len() == 0 by {
        if forall|m: int|
            0 <= m < mappings.len() ==> (#[trigger] mappings[m]).config_oid != oids[l].oid {
            lemma_without_mappings(mappings, oids[l].oid);
        }
    }
    lemma_entries_for(configs, j, oids, mappings, n);
}

proof fn lemma_entries_for(
    configs: Seq<TextSearchConfig>,
    j: int,
    oids: Seq<ConfigOidRow>,
    mappings: Seq<MappingRow>,
    n: int,
)
    requires
        0 <= j < configs.len(),
        forall|k: int|
            0 <= k < j ==> (#[trigger] configs[k]).schema@ != configs[j].schema@ || configs[k].name@
                != configs[j].name@,
        0 <= n < oids.len(),
        oids[n].schema@ == configs[j].schema@,
        oids[n].name@ == configs[j].name@,
        mapping_entries(mappings, oids[n].oid).len() > 0,
        forall|l: int|
            n < l < oids.len() ==> (#[trigger] oids[l]).schema@ != configs[j].schema@
                || oids[l].name@ != configs[j].name@ || mapping_entries(mappings, oids[l].oid).len()
                == 0,
    ensures
        entries_for(configs, j, oids, mappings) == Some(mapping_entries(mappings, oids[n].oid)),
    decreases oids.len(),
{
    if n < oids.len() - 1 {
        assert(oids[oids.len() - 1].schema@ != configs[j].schema@ || oids[oids.len() - 1].name@
            != configs[j].name@ || mapping_entries(mappings, oids[oids.len() - 1].oid).len() == 0);
        lemma_entries_for(configs, j, oids.drop_last(), mappings, n);
    } else {
        assert(is_first_about(configs, j, oids.last()));
    }
}

proof fn lemma_without_mappings(mappings: Seq<MappingRow>, oid: u32)
    requires
        forall|m: int| 0 <= m < mappings.len() ==> (#[trigger] mappings[m]).config_oid != oid,
    ensures
        mapping_entries(mappings, oid).len() == 0,
    decreases mappings.len(),
{
    if mappings.len() > 0 {
        assert(mappings[mappings.len() - 1].config_oid != oid);
        lemma_without_mappings(mappings.drop_last(), oid);
    }
}

/// A configuration keeps its mappings where no number with mappings is given for
/// its schema and name, or where a configuration before it has both.
pub proof fn law_mappings_without_a_number_stay(
    after: TextSearchConfig,
    configs: Seq<TextSearchConfig>,
    j: int,
    oids: Seq<ConfigOidRow>,
    mappings: Seq<MappingRow>,
)
    requires
        0 <= j < configs.len(),
        is_mapped(after, configs, j, oids, mappings),
        (exists|k: int|
            0 <= k < j && (#[trigger] configs[k]).schema@ == configs[j].schema@ && configs[k].name@
                == configs[j].name@) || forall|l: int|
            0 <= l < oids.len() ==> (#[trigger] oids[l]).schema@ != configs[j].schema@
                || oids[l].name@ != configs[j].name@ || forall|m: int|
                0 <= m < mappings.len() ==> (#[trigger] mappings[m]).config_oid != oids[l].oid,
    ensures
        after == configs[j],
{
    let shadowed = exists|k: int|
        0 <= k < j && (#[trigger] configs[k]).schema@ == configs[j].schema@ && configs[k].name@
            == configs[j].name@;
    assert forall|l: int| 0 <= l < oids.len() implies shadowed || (#[trigger] oids[l]).schema@
        != configs[j].schema@ || oids[l].name@ != configs[j].name@ || mapping_entries(
        mappings,
        oids[l].oid,
    ).len() == 0 by {
        if forall|m: int|
            0 <= m < mappings.len() ==> (#[trigger] mappings[m]).config_oid != oids[l].oid {
            lemma_without_mappings(mappings, oids[l].oid);
        }
    }
    lemma_no_entries(configs, j, oids, mappings);
}

proof fn lemma_no_entries(
    configs: Seq<TextSearchConfig>,
    j: int,
    oids: Seq<ConfigOidRow>,
    mappings: Seq<MappingRow>,
)
    requires
        0 <= j < configs.len(),
        forall|l: int|
            0 <= l < oids.len() ==> (exists|k: int|
                0 <= k < j && (#[trigger] configs[k]).schema@ == configs[j].schema@
                    && configs[k].name@ == configs[j].name@) || (#[trigger] oids[l]).schema@
                != configs[j].schema@ || oids[l].name@ != configs[j].name@ || mapping_entries(
                mappings,
                oids[l].oid,
            ).len() == 0,
    ensures
        entries_for(configs, j, oids, mappings) is None,
    decreases oids.len(),
{
    if oids.len() > 0 {
        let last = oids[oids.len() - 1];
        if is_first_about(configs, j, last) {
            assert(forall|k: int|
                0 <= k < j ==> (#[trigger] configs[k]).schema@ != last.schema@ || configs[k].name@
                    != last.name@) by {
                assert forall|k: int| 0 <= k < j implies (#[trigger] configs[k]).schema@
                    != last.schema@ || configs[k].name@ != last.name@ by {
                    assert(!crate::text_search::is_about(last, configs[k]));
                }
            }
            assert(mapping_entries(mappings, last.oid).len() == 0);
        }
        lemma_no_entries(configs, j, oids.drop_last(), mappings);
    }
}

/// The texts of a list are those of its strings, one for one.
pub proof fn law_texts_of_a_list(list: Seq<String>)
    ensures
        texts(list).len() == list.len(),
        forall|i: int| 0 <= i < list.len() ==> #[trigger] texts(list)[i] == list[i]@,
{
}

/// Tables are sorted by schema, and within a schema by name, in alphabetical
/// order; every table stays.
pub proof fn law_sorted_tables(tables: Seq<Table>, p: int, q: int)
    ensures
        stably_sorted(tables, by_schema_and_name()).to_multiset() == tables.to_multiset(),
        0 <= p < q < stably_sorted(tables, by_schema_and_name()).len() ==> {
            let (a, b) = (
                stably_sorted(tables, by_schema_and_name())[p],
                stably_sorted(tables, by_schema_and_name())[q],
            );
            &&& text_le(a.schema@, b.schema@)
            &&& a.schema@ == b.schema@ ==> text_le(a.name@, b.name@)
        },
{
    law_tables_in_order(tables);
    let sorted = stably_sorted(tables, by_schema_and_name());
    if 0 <= p < q < sorted.len() {
        assert(by_schema_and_name()(sorted[p], sorted[q]));
        crate::order::law_text_order(sorted[p].schema@, sorted[q].schema@, sorted[p].schema@);
    }
}

/// The tables with the schema and the name of `x`, in their order.
pub open spec fn called_like(tables: Seq<Table>, x: Table) -> Seq<Table> {
    tables.filter(|t: Table| t.schema@ == x.schema@ && t.name@ == x.name@)
}

/// Tables of one schema and name stay in their order.
pub proof fn law_tables_of_one_name_stay(tables: Seq<Table>, x: Table)
    ensures
        called_like(stably_sorted(tables, by_schema_and_name()), x) == called_like(tables, x),
{
    let le = by_schema_and_name();
    law_tables_in_order(tables);
    crate::tables::lemma_table_ordering();
    law_stable_sort(tables, le);
    let same = |t: Table| t.schema@ == x.schema@ && t.name@ == x.name@;
    assert forall|t: Table| #[trigger] same(t) == (le(x, t) && le(t, x)) by {
        crate::order::law_text_order(x.schema@, t.schema@, x.schema@);
        crate::order::law_text_order(t.schema@, x.schema@, t.schema@);
        crate::order::law_text_order(x.name@, t.name@, x.name@);
        crate::order::law_text_order(t.name@, x.name@, t.name@);
    }
    assert(same =~= (|y: Table| le(x, y) && le(y, x)));
    assert(equals_of(stably_sorted(tables, le), x, le) == equals_of(tables, x, le));
}

} // verus!
