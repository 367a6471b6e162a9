//! The statements of the script, written out with the fields of the objects that
//! they drop.

use crate::clear::{
    clear_script, foreign_key_item, foreign_keys, is_foreign_key, item_text,
    routine_drop_arguments, script_header, stage_at, stage_heading, stage_items, stage_rank,
    DropItem, Stage, STAGE_COUNT,
};
use crate::drop_order::{law_each_view_once, view_drop_order};
use crate::dump::{info_text, Dump};
use crate::objects::{Table, TableConstraint};
use crate::queries::occurs_in;
use crate::script_laws::{
    law_order_within_stage, law_stage_order, lemma_foreign_key_listed, lemma_heading_in_script,
    lemma_heading_of_tables, lemma_item_in_script, precedes,
};
use crate::script_lines::{
    has_one_line_texts, is_command, item_statements,
    law_comments_and_transaction, lines, statements,
};
use crate::table_order::{
    belongs_to, law_each_table_once, law_partitions_before_what_they_name, table_drop_order,
};
use crate::text::{decimal, lowercase};
use crate::view_laws::{law_readers_before_what_they_name, mentions};
use vstd::prelude::*;

verus! {

/// How many objects there are for a stage. Foreign keys stand in tables, and are
/// counted by [`foreign_key_count`].
pub open spec fn object_count(d: Dump, stage: Stage) -> nat {
    match stage {
        Stage::EventTriggers => d.event_triggers@.len(),
        Stage::Subscriptions => d.subscriptions@.len(),
        Stage::Publications => d.publications@.len(),
        Stage::Rules => d.rules@.len(),
        Stage::Views => d.views@.len(),
        Stage::ForeignKeys => 0,
        Stage::Tables => d.tables@.len(),
        Stage::ForeignTables => d.foreign_tables@.len(),
        Stage::UserMappings => d.user_mappings@.len(),
        Stage::ForeignServers => d.foreign_servers@.len(),
        Stage::ForeignDataWrappers => d.foreign_data_wrappers@.len(),
        Stage::Statistics => d.statistics@.len(),
        Stage::Casts => d.casts@.len(),
        Stage::Operators => d.operators@.len(),
        Stage::Routines => d.routines@.len(),
        Stage::Sequences => d.sequences@.len(),
        Stage::TextSearchConfigs => d.ts_configs@.len(),
        Stage::TextSearchDicts => d.ts_dicts@.len(),
        Stage::Types => d.types@.len(),
        Stage::Collations => d.collations@.len(),
        Stage::Extensions => d.extensions@.len(),
        Stage::Schemas => d.schemas@.len(),
    }
}

/// `schema.name`.
pub open spec fn dotted(schema: Seq<char>, name: Seq<char>) -> Seq<char> {
    schema + "."@ + name
}

/// What SQL calls the object at `i`, as the list has it.
pub open spec fn sql_kind(d: Dump, stage: Stage, i: int) -> Seq<char> {
    match stage {
        Stage::EventTriggers => "event trigger"@,
        Stage::Subscriptions => "subscription"@,
        Stage::Publications => "publication"@,
        Stage::Rules => "rule"@,
        Stage::Views => if d.views@[i].is_materialized {
            "materialized view"@
        } else {
            "view"@
        },
        Stage::ForeignKeys => "foreign key"@,
        Stage::Tables => "table"@,
        Stage::ForeignTables => "foreign table"@,
        Stage::UserMappings => "user mapping"@,
        Stage::ForeignServers => "server"@,
        Stage::ForeignDataWrappers => "foreign data wrapper"@,
        Stage::Statistics => "statistics"@,
        Stage::Casts => "cast"@,
        Stage::Operators => "operator"@,
        Stage::Routines => if lowercase(d.routines@[i].kind@) == "procedure"@ {
            "procedure"@
        } else if lowercase(d.routines@[i].kind@) == "aggregate"@ {
            "aggregate"@
        } else {
            "function"@
        },
        Stage::Sequences => "sequence"@,
        Stage::TextSearchConfigs => "text search configuration"@,
        Stage::TextSearchDicts => "text search dictionary"@,
        Stage::Types => "type"@,
        Stage::Collations => "collation"@,
        Stage::Extensions => "extension"@,
        Stage::Schemas => "schema"@,
    }
}

/// How SQL names the object at `i`, as the list has it.
pub open spec fn sql_object(d: Dump, stage: Stage, i: int) -> Seq<char> {
    match stage {
        Stage::EventTriggers => d.event_triggers@[i].name@,
        Stage::Subscriptions => d.subscriptions@[i].name@,
        Stage::Publications => d.publications@[i].name@,
        Stage::Rules => d.rules@[i].rule_name@ + " on "@ + dotted(
            d.rules@[i].schema@,
            d.rules@[i].table_name@,
        ),
        Stage::Views => dotted(d.views@[i].schema@, d.views@[i].name@),
        Stage::ForeignKeys => Seq::empty(),
        Stage::Tables => dotted(d.tables@[i].schema@, d.tables@[i].name@),
        Stage::ForeignTables => dotted(d.foreign_tables@[i].schema@, d.foreign_tables@[i].name@),
        Stage::UserMappings => "for "@ + d.user_mappings@[i].username@ + " server "@
            + d.user_mappings@[i].server_name@,
        Stage::ForeignServers => d.foreign_servers@[i].name@,
        Stage::ForeignDataWrappers => d.foreign_data_wrappers@[i].name@,
        Stage::Statistics => dotted(d.statistics@[i].schema@, d.statistics@[i].name@),
        Stage::Casts => "("@ + d.casts@[i].source_type@ + " as "@ + d.casts@[i].target_type@ + ")"@,
        Stage::Operators => dotted(d.operators@[i].schema@, d.operators@[i].name@) + " ("@ + (
        match d.operators@[i].left_type {
            Some(t) => t@,
            None => "none"@,
        }) + ", "@ + (match d.operators@[i].right_type {
            Some(t) => t@,
            None => "none"@,
        }) + ")"@,
        // the arguments themselves; only an aggregate without any takes a star
        Stage::Routines => dotted(d.routines@[i].schema@, d.routines@[i].name@) + " ("@ + (
        if d.routines@[i].arguments@.len() > 0 {
            d.routines@[i].arguments@
        } else if lowercase(d.routines@[i].kind@) == "aggregate"@ {
            "*"@
        } else {
            Seq::empty()
        }) + ")"@,
        Stage::Sequences => dotted(d.sequences@[i].schema@, d.sequences@[i].name@),
        Stage::TextSearchConfigs => dotted(d.ts_configs@[i].schema@, d.ts_configs@[i].name@),
        Stage::TextSearchDicts => dotted(d.ts_dicts@[i].schema@, d.ts_dicts@[i].name@),
        Stage::Types => dotted(d.types@[i].schema@, d.types@[i].typname@),
        Stage::Collations => dotted(d.collations@[i].schema@, d.collations@[i].name@),
        Stage::Extensions => d.extensions@[i].name@,
        Stage::Schemas => d.schemas@[i].name@,
    }
}

/// The statement that drops the object at `i`, with the empty line behind it.
pub open spec fn sql_drop(d: Dump, stage: Stage, i: int, cascade: bool) -> Seq<char> {
    "drop "@ + sql_kind(d, stage, i) + " if exists "@ + sql_object(d, stage, i) + (if cascade
        && stage != Stage::UserMappings {
        " cascade"@
    } else {
        Seq::empty()
    }) + ";"@ + "\n\n"@
}

/// The comment before the statement that drops the object at `i`. That of a
/// routine says its kind as the catalog has it, and leaves the arguments out.
pub open spec fn sql_comment(d: Dump, stage: Stage, i: int) -> Seq<char> {
    if stage == Stage::Routines {
        "/* Drop "@ + d.routines@[i].kind@ + ": "@ + dotted(
            d.routines@[i].schema@,
            d.routines@[i].name@,
        ) + " */\n"@
    } else {
        "/* Drop "@ + sql_kind(d, stage, i) + ": "@ + sql_object(d, stage, i) + " */\n"@
    }
}

/// Views and tables have an order of their own; other objects go as listed.
pub open spec fn goes_as_listed(stage: Stage) -> bool {
    stage != Stage::Views && stage != Stage::Tables && stage != Stage::ForeignKeys
}

/// The place in its stage of the object at `i`.
proof fn lemma_place(d: Dump, stage: Stage, i: int, cascade: bool) -> (k: int)
    requires
        d.views@.len() <= usize::MAX,
        d.tables@.len() <= usize::MAX,
        0 <= i < object_count(d, stage),
    ensures
        0 <= k < stage_items(d, stage, cascade).len(),
        stage == Stage::Views ==> k == view_drop_order(d.views@).index_of(i as usize)
            && view_drop_order(d.views@)[k] == i,
        stage == Stage::Tables ==> k == table_drop_order(d.tables@).index_of(i as usize)
            && table_drop_order(d.tables@)[k] == i,
        goes_as_listed(stage) ==> k == i,
{
    if stage == Stage::Views {
        law_each_view_once(d.views@);
        let order = view_drop_order(d.views@);
        assert(order.contains(i as usize));
        order.index_of(i as usize)
    } else if stage == Stage::Tables {
        law_each_table_once(d.tables@);
        let order = table_drop_order(d.tables@);
        assert(order.contains(i as usize));
        order.index_of(i as usize)
    } else {
        i
    }
}

/// What the item at the place `k` of a stage says of the object at `i`.
spec fn says(d: Dump, stage: Stage, i: int, item: DropItem, cascade: bool) -> bool {
    &&& item.statement + "\n\n"@ == sql_drop(d, stage, i, cascade)
    &&& "/* Drop "@ + item.label + ": "@ + item.object + " */\n"@ == sql_comment(d, stage, i)
}

proof fn lemma_says(d: Dump, stage: Stage, i: int, k: int, cascade: bool)
    requires
        0 <= i < object_count(d, stage),
        0 <= k < stage_items(d, stage, cascade).len(),
        stage == Stage::Views ==> view_drop_order(d.views@)[k] == i,
        stage == Stage::Tables ==> table_drop_order(d.tables@)[k] == i,
        goes_as_listed(stage) ==> k == i,
    ensures
        says(d, stage, i, stage_items(d, stage, cascade)[k], cascade),
{
    if stage == Stage::Routines {
        let r = d.routines@[i];
        assert(routine_drop_arguments(r) =~= if r.arguments@.len() > 0 {
            r.arguments@
        } else if lowercase(r.kind@) == "aggregate"@ {
            "*"@
        } else {
            Seq::empty()
        });
    }
}

/// The script holds the statement for each object of each list, written with the
/// object's own fields, and the comment before it where comments are wanted.
pub proof fn law_sql_of_every_object(
    d: Dump,
    transaction: bool,
    comments: bool,
    cascade: bool,
    stage: Stage,
    i: int,
)
    requires
        d.views@.len() <= usize::MAX,
        d.tables@.len() <= usize::MAX,
        0 <= i < object_count(d, stage),
    ensures
        occurs_in(
            sql_drop(d, stage, i, cascade),
            clear_script(d, transaction, comments, cascade),
        ),
        comments ==> occurs_in(
            sql_comment(d, stage, i) + sql_drop(d, stage, i, cascade),
            clear_script(d, transaction, comments, cascade),
        ),
{
    let k = lemma_place(d, stage, i, cascade);
    let item = stage_items(d, stage, cascade)[k];
    lemma_says(d, stage, i, k, cascade);
    lemma_item_in_script(d, transaction, comments, cascade, stage, k);
    lemma_statement_inside(
        item,
        comments,
        clear_script(d, transaction, comments, cascade),
    );
}

proof fn lemma_statement_inside(item: DropItem, comments: bool, script: Seq<char>)
    requires
        occurs_in(item_text(item, comments), script),
    ensures
        occurs_in(item.statement + "\n\n"@, script),
        comments ==> occurs_in(
            "/* Drop "@ + item.label + ": "@ + item.object + " */\n"@ + (item.statement + "\n\n"@),
            script,
        ),
{
    let text = item_text(item, comments);
    let comment = if comments {
        "/* Drop "@ + item.label + ": "@ + item.object + " */\n"@
    } else {
        Seq::empty()
    };
    let (a, b) = choose|a: Seq<char>, b: Seq<char>| script == #[trigger] (a + text + b);
    assert(text == comment + (item.statement + "\n\n"@));
    assert(script =~= (a + comment) + (item.statement + "\n\n"@) + b);
}

proof fn lemma_precedes_inside(
    script: Seq<char>,
    first: DropItem,
    second: DropItem,
    comments: bool,
)
    requires
        precedes(script, item_text(first, comments), item_text(second, comments)),
    ensures
        precedes(script, first.statement + "\n\n"@, second.statement + "\n\n"@),
{
    let (x, y) = (item_text(first, comments), item_text(second, comments));
    let (a, b, c) = choose|a: Seq<char>, b: Seq<char>, c: Seq<char>|
        script == #[trigger] (a + x + b + y + c);
    let p = if comments {
        "/* Drop "@ + first.label + ": "@ + first.object + " */\n"@
    } else {
        Seq::empty()
    };
    let q = if comments {
        "/* Drop "@ + second.label + ": "@ + second.object + " */\n"@
    } else {
        Seq::empty()
    };
    let (s, t) = (first.statement + "\n\n"@, second.statement + "\n\n"@);
    assert(x == p + s && y == q + t);
    lemma_narrowed(a, p, s, b, q, t, c);
}

proof fn lemma_narrowed(
    a: Seq<char>,
    p: Seq<char>,
    s: Seq<char>,
    b: Seq<char>,
    q: Seq<char>,
    t: Seq<char>,
    c: Seq<char>,
)
    ensures
        precedes(a + (p + s) + b + (q + t) + c, s, t),
{
    assert(a + (p + s) + b + (q + t) + c =~= (a + p) + s + (b + q) + t + c);
}

/// The turn of a stage: what reacts to changes goes first, then views, then
/// tables, foreign keys before them, then what tables and views are made of or
/// use, and schemas last.
pub open spec fn turn(stage: Stage) -> int {
    match stage {
        Stage::EventTriggers => 1,
        Stage::Subscriptions => 2,
        Stage::Publications => 3,
        Stage::Rules => 4,
        Stage::Views => 5,
        Stage::ForeignKeys => 6,
        Stage::Tables => 7,
        Stage::ForeignTables => 8,
        Stage::UserMappings => 9,
        Stage::ForeignServers => 10,
        Stage::ForeignDataWrappers => 11,
        Stage::Statistics => 12,
        Stage::Casts => 13,
        Stage::Operators => 14,
        Stage::Routines => 15,
        Stage::Sequences => 16,
        Stage::TextSearchConfigs => 17,
        Stage::TextSearchDicts => 18,
        Stage::Types => 19,
        Stage::Collations => 20,
        Stage::Extensions => 21,
        Stage::Schemas => 22,
    }
}

/// Objects of kinds with an earlier turn are dropped first, and of the kinds that
/// go as listed the one that is listed first.
pub proof fn law_sql_in_order(
    d: Dump,
    transaction: bool,
    comments: bool,
    cascade: bool,
    a: Stage,
    i: int,
    b: Stage,
    j: int,
)
    requires
        d.views@.len() <= usize::MAX,
        d.tables@.len() <= usize::MAX,
        0 <= i < object_count(d, a),
        0 <= j < object_count(d, b),
        turn(a) < turn(b) || (a == b && goes_as_listed(a) && i < j),
    ensures
        precedes(
            clear_script(d, transaction, comments, cascade),
            sql_drop(d, a, i, cascade),
            sql_drop(d, b, j, cascade),
        ),
{
    let (k, l) = (lemma_place(d, a, i, cascade), lemma_place(d, b, j, cascade));
    lemma_says(d, a, i, k, cascade);
    lemma_says(d, b, j, l, cascade);
    if turn(a) < turn(b) {
        assert(stage_rank(a) < stage_rank(b));
        law_stage_order(d, transaction, comments, cascade, a, k, b, l);
    } else {
        law_order_within_stage(d, transaction, comments, cascade, a, k, l);
    }
    lemma_precedes_inside(
        clear_script(d, transaction, comments, cascade),
        stage_items(d, a, cascade)[k],
        stage_items(d, b, cascade)[l],
        comments,
    );
}

/// The statement that drops a view stands before the statement that drops a view
/// that it names, in whatever schemas the two stand, as long as no circle of such
/// names leads to the latter.
pub proof fn law_sql_of_readers_first(
    d: Dump,
    transaction: bool,
    comments: bool,
    cascade: bool,
    settled: spec_fn(usize) -> bool,
    depth: spec_fn(usize) -> nat,
    i: usize,
    j: usize,
)
    requires
        d.views@.len() <= usize::MAX,
        d.tables@.len() <= usize::MAX,
        forall|x: usize, y: usize|
            x < d.views@.len() && y < d.views@.len() && settled(y) && #[trigger] mentions(
                d.views@,
                x,
                y,
            ) ==> settled(x) && depth(x) < depth(y),
        i < d.views@.len(),
        j < d.views@.len(),
        settled(j),
        mentions(d.views@, i, j),
    ensures
        precedes(
            clear_script(d, transaction, comments, cascade),
            sql_drop(d, Stage::Views, i as int, cascade),
            sql_drop(d, Stage::Views, j as int, cascade),
        ),
{
    let stage = Stage::Views;
    let k = lemma_place(d, stage, i as int, cascade);
    let l = lemma_place(d, stage, j as int, cascade);
    lemma_says(d, stage, i as int, k, cascade);
    lemma_says(d, stage, j as int, l, cascade);
    law_readers_before_what_they_name(d.views@, settled, depth, i, j);
    law_order_within_stage(d, transaction, comments, cascade, stage, k, l);
    lemma_precedes_inside(
        clear_script(d, transaction, comments, cascade),
        stage_items(d, stage, cascade)[k],
        stage_items(d, stage, cascade)[l],
        comments,
    );
}

/// The statement that drops a partition stands before the statement that drops
/// the table that it names as its parent, as long as no circle of such names
/// leads to the latter.
pub proof fn law_sql_of_partitions_first(
    d: Dump,
    transaction: bool,
    comments: bool,
    cascade: bool,
    settled: spec_fn(usize) -> bool,
    depth: spec_fn(usize) -> nat,
    i: usize,
    j: usize,
)
    requires
        d.views@.len() <= usize::MAX,
        d.tables@.len() <= usize::MAX,
        forall|x: usize, y: usize|
            x < d.tables@.len() && y < d.tables@.len() && settled(y) && #[trigger] belongs_to(
                d.tables@,
                x,
                y,
            ) ==> settled(x) && depth(x) < depth(y),
        i < d.tables@.len(),
        j < d.tables@.len(),
        settled(j),
        belongs_to(d.tables@, i, j),
    ensures
        precedes(
            clear_script(d, transaction, comments, cascade),
            sql_drop(d, Stage::Tables, i as int, cascade),
            sql_drop(d, Stage::Tables, j as int, cascade),
        ),
{
    let stage = Stage::Tables;
    let k = lemma_place(d, stage, i as int, cascade);
    let l = lemma_place(d, stage, j as int, cascade);
    lemma_says(d, stage, i as int, k, cascade);
    lemma_says(d, stage, j as int, l, cascade);
    law_partitions_before_what_they_name(d.tables@, settled, depth, i, j);
    law_order_within_stage(d, transaction, comments, cascade, stage, k, l);
    lemma_precedes_inside(
        clear_script(d, transaction, comments, cascade),
        stage_items(d, stage, cascade)[k],
        stage_items(d, stage, cascade)[l],
        comments,
    );
}

/// The statement that drops a constraint from its table, with the empty line
/// behind it. It takes no `cascade`.
pub open spec fn sql_drop_constraint(c: TableConstraint) -> Seq<char> {
    "alter table "@ + dotted(c.schema@, c.table_name@) + " drop constraint if exists "@ + c.name@
        + ";"@ + "\n\n"@
}

/// Every foreign key is dropped, before every table. A constraint is a foreign
/// key by its type, in any case of letters.
pub proof fn law_sql_of_foreign_keys(
    d: Dump,
    transaction: bool,
    comments: bool,
    cascade: bool,
    t: int,
    c: int,
    j: int,
)
    requires
        d.views@.len() <= usize::MAX,
        d.tables@.len() <= usize::MAX,
        0 <= t < d.tables@.len(),
        0 <= c < d.tables@[t].constraints@.len(),
        lowercase(d.tables@[t].constraints@[c].constraint_type@) == "foreign key"@,
        0 <= j < d.tables@.len(),
    ensures
        occurs_in(
            sql_drop_constraint(d.tables@[t].constraints@[c]),
            clear_script(d, transaction, comments, cascade),
        ),
        precedes(
            clear_script(d, transaction, comments, cascade),
            sql_drop_constraint(d.tables@[t].constraints@[c]),
            sql_drop(d, Stage::Tables, j, cascade),
        ),
        comments ==> occurs_in(
            "/* Drop foreign key: "@ + dotted(
                d.tables@[t].constraints@[c].schema@,
                d.tables@[t].constraints@[c].table_name@,
            ) + "."@ + d.tables@[t].constraints@[c].name@ + " */\n"@ + sql_drop_constraint(
                d.tables@[t].constraints@[c],
            ),
            clear_script(d, transaction, comments, cascade),
        ),
{
    let key = d.tables@[t].constraints@[c];
    let keys = foreign_keys(d.tables@);
    let script = clear_script(d, transaction, comments, cascade);
    lemma_foreign_key_listed(d.tables@, t, c);
    let k = choose|k: int| 0 <= k < keys.len() && keys[k] == key;
    let item = stage_items(d, Stage::ForeignKeys, cascade)[k];
    assert(item == foreign_key_item(key));
    lemma_item_in_script(d, transaction, comments, cascade, Stage::ForeignKeys, k);
    lemma_statement_inside(item, comments, script);
    let l = lemma_place(d, Stage::Tables, j, cascade);
    lemma_says(d, Stage::Tables, j, l, cascade);
    law_stage_order(d, transaction, comments, cascade, Stage::ForeignKeys, k, Stage::Tables, l);
    lemma_precedes_inside(script, item, stage_items(d, Stage::Tables, cascade)[l], comments);
    reveal_strlit("/* Drop foreign key: ");
    reveal_strlit("/* Drop ");
    reveal_strlit("foreign key");
    reveal_strlit(": ");
    assert("/* Drop "@ + item.label + ": "@ =~= "/* Drop foreign key: "@);
    let object = dotted(key.schema@, key.table_name@) + "."@ + key.name@;
    assert("/* Drop foreign key: "@ + item.object + " */\n"@ =~= "/* Drop foreign key: "@ + dotted(
        key.schema@,
        key.table_name@,
    ) + "."@ + key.name@ + " */\n"@);
}

/// How many foreign keys the tables have.
pub open spec fn foreign_key_count(tables: Seq<Table>) -> nat
    decreases tables.len(),
{
    if tables.len() == 0 {
        0
    } else {
        foreign_key_count(tables.drop_last()) + tables.last().constraints@.filter(
            |c: TableConstraint| lowercase(c.constraint_type@) == "foreign key"@,
        ).len()
    }
}

proof fn lemma_foreign_key_count(tables: Seq<Table>)
    ensures
        foreign_keys(tables).len() == foreign_key_count(tables),
    decreases tables.len(),
{
    if tables.len() > 0 {
        lemma_foreign_key_count(tables.drop_last());
        let (a, b) = (
            |c: TableConstraint| lowercase(c.constraint_type@) == "foreign key"@,
            |c: TableConstraint| is_foreign_key(c),
        );
        assert(a =~= b);
    }
}

/// The number of objects, those of the first `upto` turns.
pub open spec fn objects_upto(d: Dump, upto: int) -> nat
    decreases upto,
{
    if upto <= 0 {
        0
    } else {
        objects_upto(d, upto - 1) + object_count(d, stage_at(upto - 1))
    }
}

proof fn lemma_statement_count(d: Dump, upto: int, cascade: bool)
    requires
        d.views@.len() <= usize::MAX,
        d.tables@.len() <= usize::MAX,
        0 <= upto <= STAGE_COUNT,
    ensures
        statements(d, upto, cascade).len() == objects_upto(d, upto) + if upto > 5 {
            foreign_key_count(d.tables@)
        } else {
            0
        },
    decreases upto,
{
    if upto > 0 {
        lemma_statement_count(d, upto - 1, cascade);
        lemma_foreign_key_count(d.tables@);
        law_each_view_once(d.views@);
        law_each_table_once(d.tables@);
        let stage = stage_at(upto - 1);
        assert(stage == Stage::ForeignKeys <==> upto == 6);
        assert(item_statements(stage_items(d, stage, cascade)).len() == stage_items(
            d,
            stage,
            cascade,
        ).len());
    }
}

/// There is one statement for each object and each foreign key, and none besides,
/// but for the two that frame a transaction.
pub proof fn law_number_of_statements(
    d: Dump,
    transaction: bool,
    comments: bool,
    cascade: bool,
)
    requires
        d.views@.len() <= usize::MAX,
        d.tables@.len() <= usize::MAX,
        has_one_line_texts(d, cascade),
    ensures
        lines(clear_script(d, transaction, comments, cascade)).filter(is_command()).len()
            == d.event_triggers@.len() + d.subscriptions@.len() + d.publications@.len()
            + d.rules@.len() + d.views@.len() + foreign_key_count(d.tables@) + d.tables@.len()
            + d.foreign_tables@.len() + d.user_mappings@.len() + d.foreign_servers@.len()
            + d.foreign_data_wrappers@.len() + d.statistics@.len() + d.casts@.len()
            + d.operators@.len() + d.routines@.len() + d.sequences@.len() + d.ts_configs@.len()
            + d.ts_dicts@.len() + d.types@.len() + d.collations@.len() + d.extensions@.len()
            + d.schemas@.len() + if transaction {
            2nat
        } else {
            0nat
        },
{
    law_comments_and_transaction(d, transaction, comments, cascade);
    lemma_statement_count(d, STAGE_COUNT as int, cascade);
    reveal_with_fuel(objects_upto, 23);
}

/// The title of the heading over the objects of a stage.
pub open spec fn sql_title(stage: Stage) -> Seq<char> {
    match stage {
        Stage::EventTriggers => "Event Triggers"@,
        Stage::Subscriptions => "Subscriptions"@,
        Stage::Publications => "Publications"@,
        Stage::Rules => "Rules"@,
        Stage::Views => "Views"@,
        Stage::ForeignKeys => "Tables"@,
        Stage::Tables => "Tables"@,
        Stage::ForeignTables => "Foreign Tables"@,
        Stage::UserMappings => "User Mappings"@,
        Stage::ForeignServers => "Foreign Servers"@,
        Stage::ForeignDataWrappers => "Foreign Data Wrappers"@,
        Stage::Statistics => "Statistics"@,
        Stage::Casts => "Casts"@,
        Stage::Operators => "Operators"@,
        Stage::Routines => "Routines"@,
        Stage::Sequences => "Sequences"@,
        Stage::TextSearchConfigs => "Text Search Configurations"@,
        Stage::TextSearchDicts => "Text Search Dictionaries"@,
        Stage::Types => "Types"@,
        Stage::Collations => "Collations"@,
        Stage::Extensions => "Extensions"@,
        Stage::Schemas => "Schemas"@,
    }
}

/// With comments, the heading of its kind stands before each object.
pub proof fn law_headings(d: Dump, transaction: bool, cascade: bool, stage: Stage, i: int)
    requires
        d.views@.len() <= usize::MAX,
        d.tables@.len() <= usize::MAX,
        0 <= i < object_count(d, stage),
    ensures
        precedes(
            clear_script(d, transaction, true, cascade),
            "\n/* ---> Drop "@ + sql_title(stage) + " --------------- */"@ + "\n"@,
            sql_drop(d, stage, i, cascade),
        ),
{
    let k = lemma_place(d, stage, i, cascade);
    let item = stage_items(d, stage, cascade)[k];
    let head = "\n/* ---> Drop "@ + sql_title(stage) + " --------------- */"@ + "\n"@;
    let script = clear_script(d, transaction, true, cascade);
    lemma_says(d, stage, i, k, cascade);
    if stage == Stage::Tables {
        lemma_heading_of_tables(d, transaction, cascade, k);
        assert(stage_heading(d, Stage::ForeignKeys) == head);
    } else {
        lemma_heading_in_script(d, transaction, cascade, stage, k);
        assert(stage_heading(d, stage) == head);
    }
    let x = item_text(item, true);
    let (a, b, c) = choose|a: Seq<char>, b: Seq<char>, c: Seq<char>|
        script == #[trigger] (a + head + b + x + c);
    let comment = "/* Drop "@ + item.label + ": "@ + item.object + " */\n"@;
    let none = Seq::<char>::empty();
    lemma_narrowed(a, none, head, b, comment, item.statement + "\n\n"@, c);
    assert(none + head =~= head);
}

/// The script begins with a comment that names the database and the schemas and
/// counts the objects, and `begin` follows it where a transaction is wanted.
pub proof fn law_script_begins(
    d: Dump,
    transaction: bool,
    comments: bool,
    cascade: bool,
) -> (rest: Seq<char>)
    ensures
        clear_script(d, transaction, comments, cascade)
            == "/*\n Script generated by PostgreSQL Comparer (clear command)\n Database: "@
            + d.configuration.database@ + "\n Schema(s): "@ + d.configuration.scheme@ + "\n\n"@
            + info_text(d) + "\n*/\n"@ + (if transaction {
            "begin;\n"@
        } else {
            Seq::empty()
        }) + rest,
{
    reveal_strlit("/*\n Script generated by PostgreSQL Comparer (clear command)\n Database: ");
    reveal_strlit("/*\n");
    reveal_strlit(" Script generated by PostgreSQL Comparer (clear command)");
    reveal_strlit("\n");
    reveal_strlit(" Database: ");
    reveal_strlit("\n Schema(s): ");
    reveal_strlit(" Schema(s): ");
    reveal_strlit("\n\n");
    reveal_strlit("\n*/\n");
    reveal_strlit("*/");
    reveal_strlit("begin;\n");
    reveal_strlit("begin;");
    let (p, q) = (d.configuration.database@, d.configuration.scheme@);
    let info = info_text(d);
    let header = "/*\n Script generated by PostgreSQL Comparer (clear command)\n Database: "@ + p
        + "\n Schema(s): "@ + q + "\n\n"@ + info + "\n*/\n"@;
    assert(script_header(d) =~= header);
    let begin = if transaction {
        "begin;\n"@
    } else {
        Seq::empty()
    };
    let end = if transaction {
        "\ncommit;"@ + "\n"@
    } else {
        Seq::empty()
    };
    let body = crate::clear::script_body(d, comments, cascade);
    assert("begin;"@ + "\n"@ =~= "begin;\n"@);
    assert(header + begin + body + end =~= header + begin + (body + end));
    body + end
}

/// The counts of a dump: each kind has its line with the number of its objects.
pub proof fn law_counts(d: Dump)
    ensures
        occurs_in("- Schemas: "@ + decimal(d.schemas@.len()) + "\n"@, info_text(d)),
        occurs_in("- Extensions: "@ + decimal(d.extensions@.len()) + "\n"@, info_text(d)),
        occurs_in("- Types: "@ + decimal(d.types@.len()) + "\n"@, info_text(d)),
        occurs_in("- Enums: "@ + decimal(d.enums@.len()) + "\n"@, info_text(d)),
        occurs_in("- Routines: "@ + decimal(d.routines@.len()) + "\n"@, info_text(d)),
        occurs_in("- Tables: "@ + decimal(d.tables@.len()) + "\n"@, info_text(d)),
        ("- Views: "@ + decimal(d.views@.len())).is_suffix_of(info_text(d)),
{
    let (n1, n2, n3, n4) = (
        decimal(d.schemas@.len()),
        decimal(d.extensions@.len()),
        decimal(d.types@.len()),
        decimal(d.enums@.len()),
    );
    let (n5, n6, n7) = (
        decimal(d.routines@.len()),
        decimal(d.tables@.len()),
        decimal(d.views@.len()),
    );
    lemma_count_labels();
    let (t, tt) = ("\tDump Info:\n\t\t"@, "\t\t"@);
    let (l1, l2, l3, l4) = ("- Schemas: "@, "- Extensions: "@, "- Types: "@, "- Enums: "@);
    let (l5, l6, l7) = ("- Routines: "@, "- Tables: "@, "- Views: "@);
    let nl = "\n"@;
    let s1 = t + l1 + n1;
    let s2 = s1 + (nl + tt + l2) + n2;
    let s3 = s2 + (nl + tt + l3) + n3;
    let s4 = s3 + (nl + tt + l4) + n4;
    let s5 = s4 + (nl + tt + l5) + n5;
    let s6 = s5 + (nl + tt + l6) + n6;
    let s7 = s6 + (nl + tt + l7) + n7;
    assert(info_text(d) == s7);
    lemma_first_count(t, l1, n1, nl, tt, l2, n2);
    lemma_count(s1, l2, n2, nl, tt, l3, n3);
    lemma_count(s2, l3, n3, nl, tt, l4, n4);
    lemma_count(s3, l4, n4, nl, tt, l5, n5);
    lemma_count(s4, l5, n5, nl, tt, l6, n6);
    lemma_count(s5, l6, n6, nl, tt, l7, n7);
    lemma_occurs_on(l1 + n1 + nl, s2, nl + tt + l3, n3);
    lemma_occurs_on(l1 + n1 + nl, s3, nl + tt + l4, n4);
    lemma_occurs_on(l2 + n2 + nl, s3, nl + tt + l4, n4);
    lemma_occurs_on(l1 + n1 + nl, s4, nl + tt + l5, n5);
    lemma_occurs_on(l2 + n2 + nl, s4, nl + tt + l5, n5);
    lemma_occurs_on(l3 + n3 + nl, s4, nl + tt + l5, n5);
    lemma_occurs_on(l1 + n1 + nl, s5, nl + tt + l6, n6);
    lemma_occurs_on(l2 + n2 + nl, s5, nl + tt + l6, n6);
    lemma_occurs_on(l3 + n3 + nl, s5, nl + tt + l6, n6);
    lemma_occurs_on(l4 + n4 + nl, s5, nl + tt + l6, n6);
    lemma_occurs_on(l1 + n1 + nl, s6, nl + tt + l7, n7);
    lemma_occurs_on(l2 + n2 + nl, s6, nl + tt + l7, n7);
    lemma_occurs_on(l3 + n3 + nl, s6, nl + tt + l7, n7);
    lemma_occurs_on(l4 + n4 + nl, s6, nl + tt + l7, n7);
    lemma_occurs_on(l5 + n5 + nl, s6, nl + tt + l7, n7);
    lemma_count_inside(s6, nl, tt, l7, n7);
}

proof fn lemma_first_count(
    before: Seq<char>,
    label: Seq<char>,
    number: Seq<char>,
    nl: Seq<char>,
    tabs: Seq<char>,
    next: Seq<char>,
    more: Seq<char>,
)
    ensures
        occurs_in(label + number + nl, before + label + number + (nl + tabs + next) + more),
{
    assert(before + label + number + (nl + tabs + next) + more =~= before + (label + number + nl) + (
    tabs + next + more));
}

proof fn lemma_count(
    before: Seq<char>,
    label: Seq<char>,
    number: Seq<char>,
    nl: Seq<char>,
    tabs: Seq<char>,
    next: Seq<char>,
    more: Seq<char>,
)
    ensures
        occurs_in(
            label + number + nl,
            before + (nl + tabs + label) + number + (nl + tabs + next) + more,
        ),
{
    lemma_first_count(before + (nl + tabs), label, number, nl, tabs, next, more);
    assert(before + (nl + tabs + label) =~= before + (nl + tabs) + label);
}

proof fn lemma_occurs_on(needle: Seq<char>, text: Seq<char>, a: Seq<char>, b: Seq<char>)
    requires
        occurs_in(needle, text),
    ensures
        occurs_in(needle, text + a + b),
{
    let (x, y) = choose|x: Seq<char>, y: Seq<char>| text == #[trigger] (x + needle + y);
    assert(text + a + b =~= x + needle + (y + a + b));
}

proof fn lemma_count_inside(
    before: Seq<char>,
    nl: Seq<char>,
    tabs: Seq<char>,
    label: Seq<char>,
    number: Seq<char>,
)
    ensures
        (label + number).is_suffix_of(before + (nl + tabs + label) + number),
{
    let all = before + (nl + tabs + label) + number;
    let part = label + number;
    assert(part =~= all.subrange(all.len() - part.len(), all.len() as int));
}

proof fn lemma_count_labels()
    ensures
        "\tDump Info:\n\t\t- Schemas: "@ == "\tDump Info:\n\t\t"@ + "- Schemas: "@,
        "\n\t\t- Extensions: "@ == "\n"@ + "\t\t"@ + "- Extensions: "@,
        "\n\t\t- Types: "@ == "\n"@ + "\t\t"@ + "- Types: "@,
        "\n\t\t- Enums: "@ == "\n"@ + "\t\t"@ + "- Enums: "@,
        "\n\t\t- Routines: "@ == "\n"@ + "\t\t"@ + "- Routines: "@,
        "\n\t\t- Tables: "@ == "\n"@ + "\t\t"@ + "- Tables: "@,
        "\n\t\t- Views: "@ == "\n"@ + "\t\t"@ + "- Views: "@,
{
    reveal_strlit("\tDump Info:\n\t\t- Schemas: ");
    reveal_strlit("\tDump Info:\n\t\t");
    reveal_strlit("\n");
    reveal_strlit("\t\t");
    reveal_strlit("- Schemas: ");
    reveal_strlit("\n\t\t- Extensions: ");
    reveal_strlit("- Extensions: ");
    reveal_strlit("\n\t\t- Types: ");
    reveal_strlit("- Types: ");
    reveal_strlit("\n\t\t- Enums: ");
    reveal_strlit("- Enums: ");
    reveal_strlit("\n\t\t- Routines: ");
    reveal_strlit("- Routines: ");
    reveal_strlit("\n\t\t- Tables: ");
    reveal_strlit("- Tables: ");
    reveal_strlit("\n\t\t- Views: ");
    reveal_strlit("- Views: ");
    assert("\tDump Info:\n\t\t- Schemas: "@ =~= "\tDump Info:\n\t\t"@ + "- Schemas: "@);
    assert("\n\t\t- Extensions: "@ =~= "\n"@ + "\t\t"@ + "- Extensions: "@);
    assert("\n\t\t- Types: "@ =~= "\n"@ + "\t\t"@ + "- Types: "@);
    assert("\n\t\t- Enums: "@ =~= "\n"@ + "\t\t"@ + "- Enums: "@);
    assert("\n\t\t- Routines: "@ =~= "\n"@ + "\t\t"@ + "- Routines: "@);
    assert("\n\t\t- Tables: "@ =~= "\n"@ + "\t\t"@ + "- Tables: "@);
    assert("\n\t\t- Views: "@ =~= "\n"@ + "\t\t"@ + "- Views: "@);
}

} // verus!
