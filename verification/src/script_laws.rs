//! What holds of every script that drops the objects of a dump.

use crate::clear::{
    block, DropItem, STAGE_COUNT, Stage, cast_item, clear_script, collation_item,
    event_trigger_item, extension_item, foreign_data_wrapper_item, foreign_key_item, foreign_keys,
    foreign_keys_of, foreign_server_item, foreign_table_item, is_foreign_key, item_text, items_text,
    lemma_items_concat, lemma_regroup, operator_item, publication_item, routine_item, rule_item,
    schema_item, script_body, script_header, sequence_item, stage_at, stage_heading, stage_items,
    stage_rank, stage_text, stages_text, statistic_item, subscription_item, table_item,
    ts_config_item, ts_dict_item, type_item, user_mapping_item, view_item,
};
use crate::drop_order::{depends_on, law_dependency_order, law_each_view_once, view_drop_order};
use crate::dump::Dump;
use crate::objects::{Table, TableConstraint};
use crate::queries::occurs_in;
use crate::table_order::{
    is_partition_of, law_each_table_once, law_partitions_go_first, leads_to, table_drop_order,
};
use vstd::prelude::*;

verus! {

/// `first` stands in `script` before `second`; they do not overlap.
pub open spec fn precedes(script: Seq<char>, first: Seq<char>, second: Seq<char>) -> bool {
    exists|before: Seq<char>, between: Seq<char>, after: Seq<char>|
        script == #[trigger] (before + first + between + second + after)
}

proof fn lemma_stages_split(d: Dump, from: int, mid: int, to: int, comments: bool, cascade: bool)
    requires
        from <= mid <= to,
    ensures
        stages_text(d, from, to, comments, cascade) == stages_text(d, from, mid, comments, cascade)
            + stages_text(d, mid, to, comments, cascade),
    decreases to - mid,
{
    let first = stages_text(d, from, mid, comments, cascade);
    if mid == to {
        assert(first + Seq::<char>::empty() =~= first);
    } else {
        lemma_stages_split(d, from, mid, to - 1, comments, cascade);
        let last = stage_text(d, stage_at(to - 1), comments, cascade);
        let rest = stages_text(d, mid, to - 1, comments, cascade);
        assert(first + rest + last =~= first + (rest + last));
    }
}

/// A stage in the middle of a run of stages.
proof fn lemma_stage_inside(d: Dump, from: int, at: int, to: int, comments: bool, cascade: bool)
    requires
        from <= at < to,
    ensures
        stages_text(d, from, to, comments, cascade) == stages_text(d, from, at, comments, cascade)
            + stage_text(d, stage_at(at), comments, cascade) + stages_text(
            d,
            at + 1,
            to,
            comments,
            cascade,
        ),
{
    lemma_stages_split(d, from, at + 1, to, comments, cascade);
}

/// Where an item stands in the text of a list of items.
proof fn lemma_item_among(items: Seq<DropItem>, i: int, comments: bool) -> (r: (
    Seq<char>,
    Seq<char>,
))
    requires
        0 <= i < items.len(),
    ensures
        items_text(items, comments) == r.0 + item_text(items[i], comments) + r.1,
        r.1 == items_text(items.skip(i + 1), comments),
{
    assert(items =~= items.take(i + 1) + items.skip(i + 1));
    lemma_items_concat(items.take(i + 1), items.skip(i + 1), comments);
    assert(items.take(i + 1).drop_last() =~= items.take(i));
    (items_text(items.take(i), comments), items_text(items.skip(i + 1), comments))
}

/// Where an item stands in the text of its stage.
proof fn lemma_item_inside(d: Dump, stage: Stage, i: int, comments: bool, cascade: bool) -> (r: (
    Seq<char>,
    Seq<char>,
))
    requires
        0 <= i < stage_items(d, stage, cascade).len(),
    ensures
        stage_text(d, stage, comments, cascade) == r.0 + item_text(
            stage_items(d, stage, cascade)[i],
            comments,
        ) + r.1,
        r.1 == items_text(stage_items(d, stage, cascade).skip(i + 1), comments),
{
    let items = stage_items(d, stage, cascade);
    let head = if comments {
        stage_heading(d, stage)
    } else {
        Seq::empty()
    };
    let (first, rest) = lemma_item_among(items, i, comments);
    let this = item_text(items[i], comments);
    lemma_widened(head, first, this, rest, Seq::empty());
    assert(rest + Seq::<char>::empty() =~= rest);
    let all = head + items_text(items, comments);
    assert(all + Seq::<char>::empty() =~= all);
    (head + first, rest)
}

/// Where one text stands inside a longer one, what is put around the longer
/// one stands around it too.
proof fn lemma_widened(
    outer_before: Seq<char>,
    before: Seq<char>,
    text: Seq<char>,
    after: Seq<char>,
    outer_after: Seq<char>,
)
    ensures
        outer_before + (before + text + after) + outer_after == (outer_before + before) + text + (
        after + outer_after),
{
    assert(outer_before + (before + text + after) + outer_after =~= (outer_before + before) + text
        + (after + outer_after));
}

/// Two texts that stand in two parts of a script stand in it in that order.
proof fn lemma_precedes(
    top: Seq<char>,
    a: (Seq<char>, Seq<char>, Seq<char>),
    mid: Seq<char>,
    b: (Seq<char>, Seq<char>, Seq<char>),
    end: Seq<char>,
)
    ensures
        precedes(top + (a.0 + a.1 + a.2) + (mid + (b.0 + b.1 + b.2) + end), a.1, b.1),
{
    let before = top + a.0;
    let between = a.2 + mid + b.0;
    let after = b.2 + end;
    lemma_widened(mid, b.0, b.1, b.2, end);
    let tail = mid + (b.0 + b.1 + b.2) + end;
    let head = top + (a.0 + a.1 + a.2);
    assert(head =~= before + a.1 + a.2);
    assert(head + tail =~= before + a.1 + between + b.1 + after) by {
        assert(tail == (mid + b.0) + b.1 + after);
        assert(head + tail =~= (before + a.1) + (a.2 + tail));
        assert(a.2 + tail =~= between + b.1 + after);
        assert((before + a.1) + (between + b.1 + after) =~= before + a.1 + between + b.1 + after);
    }
}

/// Two texts that stand in one part of a script stand in it in that order.
proof fn lemma_precedes_inside(
    top: Seq<char>,
    before: Seq<char>,
    x: Seq<char>,
    rest: (Seq<char>, Seq<char>, Seq<char>),
    end: Seq<char>,
)
    ensures
        precedes(top + (before + x + (rest.0 + rest.1 + rest.2)) + end, x, rest.1),
{
    let after = rest.0 + rest.1 + rest.2;
    lemma_widened(top, before, x, after, end);
    lemma_regroup(rest.0 + rest.1, rest.2, end);
    let all = (top + before) + x + (after + end);
    assert(all =~= (top + before) + x + rest.0 + rest.1 + (rest.2 + end)) by {
        assert(after + end == rest.0 + rest.1 + (rest.2 + end));
    }
}

/// The script around its stages.
proof fn lemma_framed(d: Dump, transaction: bool, comments: bool, cascade: bool) -> (r: (
    Seq<char>,
    Seq<char>,
))
    ensures
        clear_script(d, transaction, comments, cascade) == r.0 + stages_text(
            d,
            0,
            STAGE_COUNT as int,
            comments,
            cascade,
        ) + r.1,
{
    let top = script_header(d) + if transaction {
        block("begin;"@)
    } else {
        Seq::empty()
    };
    let end = if transaction {
        block("\ncommit;"@)
    } else {
        Seq::empty()
    };
    (top, end)
}

/// The stages follow each other by their rank: an object of an earlier stage is
/// dropped before every object of a later one.
pub proof fn law_stage_order(
    d: Dump,
    transaction: bool,
    comments: bool,
    cascade: bool,
    a: Stage,
    i: int,
    b: Stage,
    j: int,
)
    requires
        stage_rank(a) < stage_rank(b),
        0 <= i < stage_items(d, a, cascade).len(),
        0 <= j < stage_items(d, b, cascade).len(),
    ensures
        precedes(
            clear_script(d, transaction, comments, cascade),
            item_text(stage_items(d, a, cascade)[i], comments),
            item_text(stage_items(d, b, cascade)[j], comments),
        ),
{
    let (ra, rb) = (stage_rank(a), stage_rank(b));
    assert(stage_at(ra) == a && stage_at(rb) == b);
    let (top, end) = lemma_framed(d, transaction, comments, cascade);
    lemma_stage_inside(d, 0, ra, STAGE_COUNT as int, comments, cascade);
    lemma_stage_inside(d, ra + 1, rb, STAGE_COUNT as int, comments, cascade);
    let (a1, a2) = lemma_item_inside(d, a, i, comments, cascade);
    let (b1, b2) = lemma_item_inside(d, b, j, comments, cascade);
    let x = item_text(stage_items(d, a, cascade)[i], comments);
    let y = item_text(stage_items(d, b, cascade)[j], comments);
    let p = stages_text(d, 0, ra, comments, cascade);
    let q = stages_text(d, ra + 1, rb, comments, cascade);
    let r = stages_text(d, rb + 1, STAGE_COUNT as int, comments, cascade);
    lemma_widened(top, p, a1 + x + a2, q + (b1 + y + b2) + r, end);
    lemma_regroup(q + (b1 + y + b2), r, end);
    lemma_precedes(top + p, (a1, x, a2), q, (b1, y, b2), r + end);
}

/// Within a stage the objects are dropped in the order of the stage.
pub proof fn law_order_within_stage(
    d: Dump,
    transaction: bool,
    comments: bool,
    cascade: bool,
    stage: Stage,
    i: int,
    j: int,
)
    requires
        0 <= i < j < stage_items(d, stage, cascade).len(),
    ensures
        precedes(
            clear_script(d, transaction, comments, cascade),
            item_text(stage_items(d, stage, cascade)[i], comments),
            item_text(stage_items(d, stage, cascade)[j], comments),
        ),
{
    let rank = stage_rank(stage);
    assert(stage_at(rank) == stage);
    let (top, end) = lemma_framed(d, transaction, comments, cascade);
    lemma_stage_inside(d, 0, rank, STAGE_COUNT as int, comments, cascade);
    let (a1, a2) = lemma_item_inside(d, stage, i, comments, cascade);
    let items = stage_items(d, stage, cascade);
    let x = item_text(items[i], comments);
    let y = item_text(items[j], comments);
    let rest = items.skip(i + 1);
    assert(rest[j - i - 1] == items[j]);
    let (m, n) = lemma_item_among(rest, j - i - 1, comments);
    let p = stages_text(d, 0, rank, comments, cascade);
    let r = stages_text(d, rank + 1, STAGE_COUNT as int, comments, cascade);
    lemma_widened(top, p, a1 + x + a2, r, end);
    lemma_precedes_inside(top + p, a1, x, (m, y, n), r + end);
}

/// Where no views read each other in circles, a view is dropped before every
/// view that it reads.
pub proof fn law_views_before_what_they_read(
    d: Dump,
    transaction: bool,
    comments: bool,
    cascade: bool,
    depth: spec_fn(usize) -> nat,
    i: usize,
    j: usize,
)
    requires
        d.views@.len() <= usize::MAX,
        forall|x: usize, y: usize|
            x < d.views@.len() && y < d.views@.len() && #[trigger] depends_on(d.views@, x, y)
                ==> depth(x) < depth(y),
        i < d.views@.len(),
        j < d.views@.len(),
        depends_on(d.views@, i, j),
    ensures
        precedes(
            clear_script(d, transaction, comments, cascade),
            item_text(view_item(d.views@[i as int], cascade), comments),
            item_text(view_item(d.views@[j as int], cascade), comments),
        ),
{
    law_dependency_order(d.views@, depth);
    law_each_view_once(d.views@);
    let order = view_drop_order(d.views@);
    assert(order.contains(i) && order.contains(j));
    let (p, q) = (order.index_of(i), order.index_of(j));
    law_order_within_stage(d, transaction, comments, cascade, Stage::Views, p, q);
}

/// With a transaction asked for, everything that is dropped is dropped between
/// `begin` and `commit`; otherwise neither is added.
pub proof fn law_transaction(d: Dump, comments: bool, cascade: bool)
    ensures
        clear_script(d, true, comments, cascade) == script_header(d) + "begin;\n"@ + script_body(
            d,
            comments,
            cascade,
        ) + "\ncommit;\n"@,
        clear_script(d, false, comments, cascade) == script_header(d) + script_body(
            d,
            comments,
            cascade,
        ),
{
    reveal_strlit("begin;");
    reveal_strlit("begin;\n");
    reveal_strlit("\ncommit;");
    reveal_strlit("\ncommit;\n");
    reveal_strlit("\n");
    assert(block("begin;"@) =~= "begin;\n"@);
    assert(block("\ncommit;"@) =~= "\ncommit;\n"@);
    let all = script_header(d) + script_body(d, comments, cascade);
    assert(script_header(d) + Seq::<char>::empty() =~= script_header(d));
    assert(all + Seq::<char>::empty() =~= all);
}

/// Where an object stands in the script.
pub(crate) proof fn lemma_item_in_script(
    d: Dump,
    transaction: bool,
    comments: bool,
    cascade: bool,
    stage: Stage,
    i: int,
)
    requires
        0 <= i < stage_items(d, stage, cascade).len(),
    ensures
        occurs_in(
            item_text(stage_items(d, stage, cascade)[i], comments),
            clear_script(d, transaction, comments, cascade),
        ),
{
    let rank = stage_rank(stage);
    assert(stage_at(rank) == stage);
    let (top, end) = lemma_framed(d, transaction, comments, cascade);
    lemma_stage_inside(d, 0, rank, STAGE_COUNT as int, comments, cascade);
    let (a, b) = lemma_item_inside(d, stage, i, comments, cascade);
    let x = item_text(stage_items(d, stage, cascade)[i], comments);
    let p = stages_text(d, 0, rank, comments, cascade);
    let r = stages_text(d, rank + 1, STAGE_COUNT as int, comments, cascade);
    lemma_widened(p, a, x, b, r);
    lemma_widened(top, p + a, x, b + r, end);
}

/// The heading of a stage stands in a script with comments, before the objects of
/// the stage.
pub(crate) proof fn lemma_heading_in_script(
    d: Dump,
    transaction: bool,
    cascade: bool,
    stage: Stage,
    i: int,
)
    requires
        0 <= i < stage_items(d, stage, cascade).len(),
    ensures
        precedes(
            clear_script(d, transaction, true, cascade),
            stage_heading(d, stage),
            item_text(stage_items(d, stage, cascade)[i], true),
        ),
{
    let rank = stage_rank(stage);
    assert(stage_at(rank) == stage);
    let items = stage_items(d, stage, cascade);
    let (top, end) = lemma_framed(d, transaction, true, cascade);
    lemma_stage_inside(d, 0, rank, STAGE_COUNT as int, true, cascade);
    let (a, b) = lemma_item_among(items, i, true);
    let head = stage_heading(d, stage);
    let x = item_text(items[i], true);
    let p = stages_text(d, 0, rank, true, cascade);
    let r = stages_text(d, rank + 1, STAGE_COUNT as int, true, cascade);
    assert(stage_text(d, stage, true, cascade) =~= Seq::empty() + head + (a + x + b));
    lemma_widened(top, p, Seq::empty() + head + (a + x + b), r, end);
    lemma_precedes_inside(top + p, Seq::empty(), head, (a, x, b), r + end);
}

/// The heading of the foreign keys, which is that of the tables, stands in a
/// script with comments before the tables.
pub(crate) proof fn lemma_heading_of_tables(d: Dump, transaction: bool, cascade: bool, i: int)
    requires
        0 <= i < stage_items(d, Stage::Tables, cascade).len(),
    ensures
        precedes(
            clear_script(d, transaction, true, cascade),
            stage_heading(d, Stage::ForeignKeys),
            item_text(stage_items(d, Stage::Tables, cascade)[i], true),
        ),
{
    let (ra, rb) = (stage_rank(Stage::ForeignKeys), stage_rank(Stage::Tables));
    assert(stage_at(ra) == Stage::ForeignKeys && stage_at(rb) == Stage::Tables);
    let (top, end) = lemma_framed(d, transaction, true, cascade);
    lemma_stage_inside(d, 0, ra, STAGE_COUNT as int, true, cascade);
    lemma_stage_inside(d, ra + 1, rb, STAGE_COUNT as int, true, cascade);
    let (b1, b2) = lemma_item_inside(d, Stage::Tables, i, true, cascade);
    let y = item_text(stage_items(d, Stage::Tables, cascade)[i], true);
    let head = stage_heading(d, Stage::ForeignKeys);
    let keys = items_text(stage_items(d, Stage::ForeignKeys, cascade), true);
    let p = stages_text(d, 0, ra, true, cascade);
    let q = stages_text(d, ra + 1, rb, true, cascade);
    let r = stages_text(d, rb + 1, STAGE_COUNT as int, true, cascade);
    let none = Seq::<char>::empty();
    assert(stage_text(d, Stage::ForeignKeys, true, cascade) =~= none + head + keys);
    lemma_widened(top, p, none + head + keys, q + (b1 + y + b2) + r, end);
    lemma_regroup(q + (b1 + y + b2), r, end);
    lemma_precedes(top + p, (none, head, keys), q, (b1, y, b2), r + end);
}

/// Every object of the dump is dropped: the script holds the statement for each
/// view, table and foreign key, and for each object of every other list.
pub proof fn law_every_object_dropped(
    d: Dump,
    transaction: bool,
    comments: bool,
    cascade: bool,
    script: Seq<char>,
)
    requires
        d.views@.len() <= usize::MAX,
        d.tables@.len() <= usize::MAX,
        script == clear_script(d, transaction, comments, cascade),
    ensures
        forall|i: int|
            0 <= i < d.event_triggers@.len() ==> occurs_in(
                item_text(event_trigger_item(#[trigger] d.event_triggers@[i], cascade), comments),
                script,
            ),
        forall|i: int|
            0 <= i < d.subscriptions@.len() ==> occurs_in(
                item_text(subscription_item(#[trigger] d.subscriptions@[i], cascade), comments),
                script,
            ),
        forall|i: int|
            0 <= i < d.publications@.len() ==> occurs_in(
                item_text(publication_item(#[trigger] d.publications@[i], cascade), comments),
                script,
            ),
        forall|i: int|
            0 <= i < d.rules@.len() ==> occurs_in(
                item_text(rule_item(#[trigger] d.rules@[i], cascade), comments),
                script,
            ),
        forall|i: int|
            0 <= i < d.views@.len() ==> occurs_in(
                item_text(view_item(#[trigger] d.views@[i], cascade), comments),
                script,
            ),
        forall|i: int|
            0 <= i < d.tables@.len() ==> occurs_in(
                item_text(table_item(#[trigger] d.tables@[i], cascade), comments),
                script,
            ),
        forall|i: int|
            0 <= i < d.foreign_tables@.len() ==> occurs_in(
                item_text(foreign_table_item(#[trigger] d.foreign_tables@[i], cascade), comments),
                script,
            ),
        forall|i: int|
            0 <= i < d.user_mappings@.len() ==> occurs_in(
                item_text(user_mapping_item(#[trigger] d.user_mappings@[i], cascade), comments),
                script,
            ),
        forall|i: int|
            0 <= i < d.foreign_servers@.len() ==> occurs_in(
                item_text(foreign_server_item(#[trigger] d.foreign_servers@[i], cascade), comments),
                script,
            ),
        forall|i: int|
            0 <= i < d.foreign_data_wrappers@.len() ==> occurs_in(
                item_text(foreign_data_wrapper_item(#[trigger] d.foreign_data_wrappers@[i], cascade), comments),
                script,
            ),
        forall|i: int|
            0 <= i < d.statistics@.len() ==> occurs_in(
                item_text(statistic_item(#[trigger] d.statistics@[i], cascade), comments),
                script,
            ),
        forall|i: int|
            0 <= i < d.casts@.len() ==> occurs_in(
                item_text(cast_item(#[trigger] d.casts@[i], cascade), comments),
                script,
            ),
        forall|i: int|
            0 <= i < d.operators@.len() ==> occurs_in(
                item_text(operator_item(#[trigger] d.operators@[i], cascade), comments),
                script,
            ),
        forall|i: int|
            0 <= i < d.routines@.len() ==> occurs_in(
                item_text(routine_item(#[trigger] d.routines@[i], cascade), comments),
                script,
            ),
        forall|i: int|
            0 <= i < d.sequences@.len() ==> occurs_in(
                item_text(sequence_item(#[trigger] d.sequences@[i], cascade), comments),
                script,
            ),
        forall|i: int|
            0 <= i < d.ts_configs@.len() ==> occurs_in(
                item_text(ts_config_item(#[trigger] d.ts_configs@[i], cascade), comments),
                script,
            ),
        forall|i: int|
            0 <= i < d.ts_dicts@.len() ==> occurs_in(
                item_text(ts_dict_item(#[trigger] d.ts_dicts@[i], cascade), comments),
                script,
            ),
        forall|i: int|
            0 <= i < d.types@.len() ==> occurs_in(
                item_text(type_item(#[trigger] d.types@[i], cascade), comments),
                script,
            ),
        forall|i: int|
            0 <= i < d.collations@.len() ==> occurs_in(
                item_text(collation_item(#[trigger] d.collations@[i], cascade), comments),
                script,
            ),
        forall|i: int|
            0 <= i < d.extensions@.len() ==> occurs_in(
                item_text(extension_item(#[trigger] d.extensions@[i], cascade), comments),
                script,
            ),
        forall|i: int|
            0 <= i < d.schemas@.len() ==> occurs_in(
                item_text(schema_item(#[trigger] d.schemas@[i], cascade), comments),
                script,
            ),
        forall|t: int, c: int|
            0 <= t < d.tables@.len() && 0 <= c < d.tables@[t].constraints@.len() && is_foreign_key(
                #[trigger] d.tables@[t].constraints@[c],
            ) ==> occurs_in(
                item_text(foreign_key_item(d.tables@[t].constraints@[c]), comments),
                script,
            ),
{
    law_each_view_once(d.views@);
    law_each_table_once(d.tables@);
    assert forall|i: int| 0 <= i < d.event_triggers@.len() implies occurs_in(
        item_text(event_trigger_item(#[trigger] d.event_triggers@[i], cascade), comments),
        script,
    ) by {
        lemma_item_in_script(d, transaction, comments, cascade, Stage::EventTriggers, i);
    }
    assert forall|i: int| 0 <= i < d.subscriptions@.len() implies occurs_in(
        item_text(subscription_item(#[trigger] d.subscriptions@[i], cascade), comments),
        script,
    ) by {
        lemma_item_in_script(d, transaction, comments, cascade, Stage::Subscriptions, i);
    }
    assert forall|i: int| 0 <= i < d.publications@.len() implies occurs_in(
        item_text(publication_item(#[trigger] d.publications@[i], cascade), comments),
        script,
    ) by {
        lemma_item_in_script(d, transaction, comments, cascade, Stage::Publications, i);
    }
    assert forall|i: int| 0 <= i < d.rules@.len() implies occurs_in(
        item_text(rule_item(#[trigger] d.rules@[i], cascade), comments),
        script,
    ) by {
        lemma_item_in_script(d, transaction, comments, cascade, Stage::Rules, i);
    }
    assert forall|i: int| 0 <= i < d.views@.len() implies occurs_in(
        item_text(view_item(#[trigger] d.views@[i], cascade), comments),
        script,
    ) by {
        let order = view_drop_order(d.views@);
        assert(order.contains(i as usize));
        let k = order.index_of(i as usize);
        lemma_item_in_script(d, transaction, comments, cascade, Stage::Views, k);
    }
    assert forall|i: int| 0 <= i < d.tables@.len() implies occurs_in(
        item_text(table_item(#[trigger] d.tables@[i], cascade), comments),
        script,
    ) by {
        let order = table_drop_order(d.tables@);
        assert(order.contains(i as usize));
        let k = order.index_of(i as usize);
        lemma_item_in_script(d, transaction, comments, cascade, Stage::Tables, k);
    }
    assert forall|i: int| 0 <= i < d.foreign_tables@.len() implies occurs_in(
        item_text(foreign_table_item(#[trigger] d.foreign_tables@[i], cascade), comments),
        script,
    ) by {
        lemma_item_in_script(d, transaction, comments, cascade, Stage::ForeignTables, i);
    }
    assert forall|i: int| 0 <= i < d.user_mappings@.len() implies occurs_in(
        item_text(user_mapping_item(#[trigger] d.user_mappings@[i], cascade), comments),
        script,
    ) by {
        lemma_item_in_script(d, transaction, comments, cascade, Stage::UserMappings, i);
    }
    assert forall|i: int| 0 <= i < d.foreign_servers@.len() implies occurs_in(
        item_text(foreign_server_item(#[trigger] d.foreign_servers@[i], cascade), comments),
        script,
    ) by {
        lemma_item_in_script(d, transaction, comments, cascade, Stage::ForeignServers, i);
    }
    assert forall|i: int| 0 <= i < d.foreign_data_wrappers@.len() implies occurs_in(
        item_text(foreign_data_wrapper_item(#[trigger] d.foreign_data_wrappers@[i], cascade), comments),
        script,
    ) by {
        lemma_item_in_script(d, transaction, comments, cascade, Stage::ForeignDataWrappers, i);
    }
    assert forall|i: int| 0 <= i < d.statistics@.len() implies occurs_in(
        item_text(statistic_item(#[trigger] d.statistics@[i], cascade), comments),
        script,
    ) by {
        lemma_item_in_script(d, transaction, comments, cascade, Stage::Statistics, i);
    }
    assert forall|i: int| 0 <= i < d.casts@.len() implies occurs_in(
        item_text(cast_item(#[trigger] d.casts@[i], cascade), comments),
        script,
    ) by {
        lemma_item_in_script(d, transaction, comments, cascade, Stage::Casts, i);
    }
    assert forall|i: int| 0 <= i < d.operators@.len() implies occurs_in(
        item_text(operator_item(#[trigger] d.operators@[i], cascade), comments),
        script,
    ) by {
        lemma_item_in_script(d, transaction, comments, cascade, Stage::Operators, i);
    }
    assert forall|i: int| 0 <= i < d.routines@.len() implies occurs_in(
        item_text(routine_item(#[trigger] d.routines@[i], cascade), comments),
        script,
    ) by {
        lemma_item_in_script(d, transaction, comments, cascade, Stage::Routines, i);
    }
    assert forall|i: int| 0 <= i < d.sequences@.len() implies occurs_in(
        item_text(sequence_item(#[trigger] d.sequences@[i], cascade), comments),
        script,
    ) by {
        lemma_item_in_script(d, transaction, comments, cascade, Stage::Sequences, i);
    }
    assert forall|i: int| 0 <= i < d.ts_configs@.len() implies occurs_in(
        item_text(ts_config_item(#[trigger] d.ts_configs@[i], cascade), comments),
        script,
    ) by {
        lemma_item_in_script(d, transaction, comments, cascade, Stage::TextSearchConfigs, i);
    }
    assert forall|i: int| 0 <= i < d.ts_dicts@.len() implies occurs_in(
        item_text(ts_dict_item(#[trigger] d.ts_dicts@[i], cascade), comments),
        script,
    ) by {
        lemma_item_in_script(d, transaction, comments, cascade, Stage::TextSearchDicts, i);
    }
    assert forall|i: int| 0 <= i < d.types@.len() implies occurs_in(
        item_text(type_item(#[trigger] d.types@[i], cascade), comments),
        script,
    ) by {
        lemma_item_in_script(d, transaction, comments, cascade, Stage::Types, i);
    }
    assert forall|i: int| 0 <= i < d.collations@.len() implies occurs_in(
        item_text(collation_item(#[trigger] d.collations@[i], cascade), comments),
        script,
    ) by {
        lemma_item_in_script(d, transaction, comments, cascade, Stage::Collations, i);
    }
    assert forall|i: int| 0 <= i < d.extensions@.len() implies occurs_in(
        item_text(extension_item(#[trigger] d.extensions@[i], cascade), comments),
        script,
    ) by {
        lemma_item_in_script(d, transaction, comments, cascade, Stage::Extensions, i);
    }
    assert forall|i: int| 0 <= i < d.schemas@.len() implies occurs_in(
        item_text(schema_item(#[trigger] d.schemas@[i], cascade), comments),
        script,
    ) by {
        lemma_item_in_script(d, transaction, comments, cascade, Stage::Schemas, i);
    }
    assert forall|t: int, c: int|
        0 <= t < d.tables@.len() && 0 <= c < d.tables@[t].constraints@.len() && is_foreign_key(
            #[trigger] d.tables@[t].constraints@[c],
        ) implies occurs_in(
        item_text(foreign_key_item(d.tables@[t].constraints@[c]), comments),
        script,
    ) by {
        let key = d.tables@[t].constraints@[c];
        let keys = foreign_keys(d.tables@);
        lemma_foreign_key_listed(d.tables@, t, c);
        let k = choose|k: int| 0 <= k < keys.len() && keys[k] == key;
        lemma_item_in_script(d, transaction, comments, cascade, Stage::ForeignKeys, k);
    }
}

pub(crate) proof fn lemma_foreign_key_listed(tables: Seq<Table>, t: int, c: int)
    requires
        0 <= t < tables.len(),
        0 <= c < tables[t].constraints@.len(),
        is_foreign_key(tables[t].constraints@[c]),
    ensures
        foreign_keys(tables).contains(tables[t].constraints@[c]),
    decreases tables.len(),
{
    let key = tables[t].constraints@[c];
    let earlier = foreign_keys(tables.drop_last());
    let last = foreign_keys_of(tables.last().constraints@);
    if t == tables.len() - 1 {
        let pred = |k: TableConstraint| is_foreign_key(k);
        tables[t].constraints@.lemma_filter_contains(pred, c);
        let k = choose|k: int| 0 <= k < last.len() && last[k] == key;
        assert(foreign_keys(tables)[earlier.len() + k] == key);
    } else {
        lemma_foreign_key_listed(tables.drop_last(), t, c);
        let k = choose|k: int| 0 <= k < earlier.len() && earlier[k] == key;
        assert(foreign_keys(tables)[k] == key);
    }
}

/// A partition is dropped before the table that it is a partition of, at every
/// level, unless the two stand in a circle.
pub proof fn law_partitions_before_their_parents(
    d: Dump,
    transaction: bool,
    comments: bool,
    cascade: bool,
    i: usize,
    j: usize,
)
    requires
        d.tables@.len() <= usize::MAX,
        i < d.tables@.len(),
        j < d.tables@.len(),
        is_partition_of(d.tables@, i, j),
        !leads_to(d.tables@, j, i),
    ensures
        precedes(
            clear_script(d, transaction, comments, cascade),
            item_text(table_item(d.tables@[i as int], cascade), comments),
            item_text(table_item(d.tables@[j as int], cascade), comments),
        ),
{
    law_partitions_go_first(d.tables@, i, j);
    let order = table_drop_order(d.tables@);
    let (p, q) = (order.index_of(i), order.index_of(j));
    law_order_within_stage(d, transaction, comments, cascade, Stage::Tables, p, q);
}

/// A dump without objects gives a script that drops nothing: the comment at the
/// top alone.
pub proof fn law_nothing_to_drop(d: Dump, comments: bool, cascade: bool)
    requires
        d.views@.len() == 0,
        d.tables@.len() == 0,
        d.event_triggers@.len() == 0,
        d.subscriptions@.len() == 0,
        d.publications@.len() == 0,
        d.rules@.len() == 0,
        d.foreign_tables@.len() == 0,
        d.user_mappings@.len() == 0,
        d.foreign_servers@.len() == 0,
        d.foreign_data_wrappers@.len() == 0,
        d.statistics@.len() == 0,
        d.casts@.len() == 0,
        d.operators@.len() == 0,
        d.routines@.len() == 0,
        d.sequences@.len() == 0,
        d.ts_configs@.len() == 0,
        d.ts_dicts@.len() == 0,
        d.types@.len() == 0,
        d.collations@.len() == 0,
        d.extensions@.len() == 0,
        d.schemas@.len() == 0,
    ensures
        clear_script(d, false, comments, cascade) == script_header(d),
{
    law_each_view_once(d.views@);
    law_each_table_once(d.tables@);
    assert forall|rank: int| 0 <= rank < STAGE_COUNT as int implies #[trigger] stage_text(
        d,
        stage_at(rank),
        comments,
        cascade,
    ) == Seq::<char>::empty() by {
        assert(stage_items(d, stage_at(rank), cascade) =~= Seq::empty());
        assert(stage_text(d, stage_at(rank), comments, cascade) =~= Seq::empty());
    }
    lemma_no_stage(d, STAGE_COUNT as int, comments, cascade);
    law_transaction(d, comments, cascade);
    assert(script_header(d) + Seq::<char>::empty() =~= script_header(d));
}

proof fn lemma_no_stage(d: Dump, to: int, comments: bool, cascade: bool)
    requires
        to <= STAGE_COUNT as int,
        forall|rank: int|
            0 <= rank < to ==> #[trigger] stage_text(d, stage_at(rank), comments, cascade)
                == Seq::<char>::empty(),
    ensures
        stages_text(d, 0, to, comments, cascade) == Seq::<char>::empty(),
    decreases to,
{
    if to > 0 {
        lemma_no_stage(d, to - 1, comments, cascade);
        let none = Seq::<char>::empty();
        assert(stage_text(d, stage_at(to - 1), comments, cascade) == none);
        assert(none + none =~= none);
    }
}

} // verus!
