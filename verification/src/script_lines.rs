//! The script line by line: what comments, the transaction and `cascade` change.

use crate::clear::{
    block, clear_script, lemma_regroup, qualified, routine_drop_arguments, routine_drop_word,
    view_keyword_text, drop_statement, cast_item, collation_item, event_trigger_item,
    extension_item, foreign_data_wrapper_item, foreign_key_item, foreign_keys, foreign_server_item,
    foreign_table_item, item_text, items_text, operator_item, publication_item, rule_item,
    schema_item, script_header, sequence_item, stage_at, stage_count, stage_heading, stage_items,
    stage_text, stage_title, stages_text, statistic_item, subscription_item, ts_config_item,
    ts_dict_item, type_item, user_mapping_item, DropItem, Stage, STAGE_COUNT,
};
use crate::drop_order::{view_drop_order, view_key};
use crate::dump::{info_text, Dump};
use crate::table_order::{table_drop_order, table_key};
use crate::text::{decimal, digit, split_on};
use vstd::prelude::*;

verus! {

/// The lines of a text that consists of whole lines.
pub open spec fn lines(text: Seq<char>) -> Seq<Seq<char>> {
    split_on(text, '\n').drop_last()
}

/// The text consists of whole lines.
pub open spec fn is_whole(text: Seq<char>) -> bool {
    text.len() == 0 || text.last() == '\n'
}

/// The text holds no line feed.
pub open spec fn is_one_line(text: Seq<char>) -> bool {
    forall|i: int| 0 <= i < text.len() ==> #[trigger] text[i] != '\n'
}

/// The texts of an item hold no line feed.
pub open spec fn is_one_line_item(item: DropItem) -> bool {
    is_one_line(item.label) && is_one_line(item.object) && is_one_line(item.statement)
}

/// No text of the dump that gets into the script holds a line feed.
pub open spec fn has_one_line_texts(d: Dump, cascade: bool) -> bool {
    &&& is_one_line(d.configuration.database@)
    &&& is_one_line(d.configuration.scheme@)
    &&& forall|rank: int, i: int|
        0 <= rank < STAGE_COUNT && 0 <= i < stage_items(d, stage_at(rank), cascade).len()
            ==> is_one_line_item(#[trigger] stage_items(d, stage_at(rank), cascade)[i])
}

proof fn lemma_split_add(a: Seq<char>, b: Seq<char>)
    requires
        is_whole(a),
    ensures
        split_on(a + b, '\n') == split_on(a, '\n').drop_last() + split_on(b, '\n'),
        split_on(b, '\n').len() > 0,
    decreases b.len(),
{
    let before = split_on(a, '\n');
    if b.len() == 0 {
        assert(a + b =~= a);
        assert(before.len() > 0 && before.last() =~= Seq::<char>::empty());
        assert(before =~= before.drop_last() + split_on(b, '\n'));
    } else {
        lemma_split_add(a, b.drop_last());
        assert((a + b).drop_last() =~= a + b.drop_last());
        let rest = split_on(b.drop_last(), '\n');
        let all = before.drop_last() + rest;
        assert(all.drop_last() =~= before.drop_last() + rest.drop_last());
        assert(split_on(a + b, '\n') =~= before.drop_last() + split_on(b, '\n'));
    }
}

/// Whole lines one after the other.
proof fn lemma_lines_add(a: Seq<char>, b: Seq<char>)
    requires
        is_whole(a),
        is_whole(b),
    ensures
        is_whole(a + b),
        lines(a + b) == lines(a) + lines(b),
{
    lemma_split_add(a, b);
    let (x, y) = (split_on(a, '\n').drop_last(), split_on(b, '\n'));
    assert((x + y).drop_last() =~= x + y.drop_last());
    if b.len() == 0 {
        assert(a + b =~= a);
    }
}

proof fn lemma_split_one(x: Seq<char>)
    requires
        is_one_line(x),
    ensures
        split_on(x, '\n') == seq![x],
    decreases x.len(),
{
    if x.len() == 0 {
        assert(x =~= Seq::empty());
    } else {
        assert(is_one_line(x.drop_last()));
        lemma_split_one(x.drop_last());
        assert(x.drop_last().push(x.last()) =~= x);
        assert(split_on(x, '\n') =~= seq![x]);
    }
}

/// One line.
proof fn lemma_line(x: Seq<char>)
    requires
        is_one_line(x),
    ensures
        is_whole(x + "\n"@),
        lines(x + "\n"@) == seq![x],
{
    reveal_strlit("\n");
    lemma_split_one(x);
    assert((x + "\n"@).drop_last() =~= x);
    assert(lines(x + "\n"@) =~= seq![x]);
}

/// No lines.
proof fn lemma_no_lines()
    ensures
        is_whole(Seq::empty()),
        lines(Seq::empty()) == Seq::<Seq<char>>::empty(),
{
    assert(lines(Seq::empty()) =~= Seq::<Seq<char>>::empty());
}

/// Lines that are followed by one more.
proof fn lemma_one_more_line(text: Seq<char>, x: Seq<char>)
    requires
        is_whole(text),
        is_one_line(x),
    ensures
        is_whole(text + x + "\n"@),
        lines(text + x + "\n"@) == lines(text).push(x),
{
    lemma_line(x);
    lemma_lines_add(text, x + "\n"@);
    assert(text + x + "\n"@ =~= text + (x + "\n"@));
    assert(lines(text) + seq![x] =~= lines(text).push(x));
}

/// The comment about an object.
pub open spec fn comment_line(item: DropItem) -> Seq<char> {
    "/* Drop "@ + item.label + ": "@ + item.object + " */"@
}

/// The lines that drop one object.
pub open spec fn item_lines(item: DropItem, comments: bool) -> Seq<Seq<char>> {
    (if comments {
        seq![comment_line(item)]
    } else {
        Seq::empty()
    }) + seq![item.statement, Seq::<char>::empty()]
}

/// The lines that drop objects, one after the other.
pub open spec fn items_lines(items: Seq<DropItem>, comments: bool) -> Seq<Seq<char>>
    decreases items.len(),
{
    if items.len() == 0 {
        Seq::empty()
    } else {
        items_lines(items.drop_last(), comments) + item_lines(items.last(), comments)
    }
}

/// The lines of a heading.
pub open spec fn heading_lines(title: Seq<char>, count: nat) -> Seq<Seq<char>> {
    if count == 0 {
        Seq::empty()
    } else {
        seq![Seq::<char>::empty(), "/* ---> Drop "@ + title + " --------------- */"@]
    }
}

/// The lines of a stage.
pub open spec fn stage_lines(d: Dump, stage: Stage, comments: bool, cascade: bool) -> Seq<Seq<char>> {
    (if comments {
        heading_lines(stage_title(stage), stage_count(d, stage))
    } else {
        Seq::empty()
    }) + items_lines(stage_items(d, stage, cascade), comments)
}

/// The lines of the first `upto` stages.
pub open spec fn body_lines(d: Dump, upto: int, comments: bool, cascade: bool) -> Seq<Seq<char>>
    decreases upto,
{
    if upto <= 0 {
        Seq::empty()
    } else {
        body_lines(d, upto - 1, comments, cascade) + stage_lines(
            d,
            stage_at(upto - 1),
            comments,
            cascade,
        )
    }
}

/// The lines of the comment at the top.
pub open spec fn header_lines(d: Dump) -> Seq<Seq<char>> {
    seq![
        "/*"@,
        " Script generated by PostgreSQL Comparer (clear command)"@,
        " Database: "@ + d.configuration.database@,
        " Schema(s): "@ + d.configuration.scheme@,
        Seq::<char>::empty(),
        "\tDump Info:"@,
        "\t\t- Schemas: "@ + decimal(d.schemas@.len()),
        "\t\t- Extensions: "@ + decimal(d.extensions@.len()),
        "\t\t- Types: "@ + decimal(d.types@.len()),
        "\t\t- Enums: "@ + decimal(d.enums@.len()),
        "\t\t- Routines: "@ + decimal(d.routines@.len()),
        "\t\t- Tables: "@ + decimal(d.tables@.len()),
        "\t\t- Views: "@ + decimal(d.views@.len()),
        "*/"@,
    ]
}

/// The lines of the whole script.
pub open spec fn script_lines(d: Dump, transaction: bool, comments: bool, cascade: bool) -> Seq<
    Seq<char>,
> {
    header_lines(d) + begin_lines(transaction) + body_lines(
        d,
        STAGE_COUNT as int,
        comments,
        cascade,
    ) + commit_lines(transaction)
}

proof fn lemma_decimal_one_line(n: nat)
    ensures
        is_one_line(decimal(n)),
    decreases n,
{
    if n >= 10 {
        lemma_decimal_one_line(n / 10);
    }
    assert(digit(n % 10) != '\n' && (n < 10 ==> digit(n) != '\n'));
}

proof fn lemma_item_lines(item: DropItem, comments: bool)
    requires
        is_one_line_item(item),
    ensures
        is_whole(item_text(item, comments)),
        lines(item_text(item, comments)) == item_lines(item, comments),
{
    reveal_strlit("\n");
    reveal_strlit("\n\n");
    reveal_strlit("/* Drop ");
    reveal_strlit(": ");
    reveal_strlit(" */");
    reveal_strlit(" */\n");
    let none = Seq::<char>::empty();
    let comment = comment_line(item);
    lemma_no_lines();
    let start = if comments {
        comment + "\n"@
    } else {
        none
    };
    if comments {
        lemma_line(comment);
    }
    lemma_one_more_line(start, item.statement);
    let text = start + item.statement + "\n"@;
    lemma_one_more_line(text, none);
    assert(item_text(item, comments) =~= text + none + "\n"@);
    assert(lines(item_text(item, comments)) =~= item_lines(item, comments));
}

proof fn lemma_items_lines(items: Seq<DropItem>, comments: bool)
    requires
        forall|i: int| 0 <= i < items.len() ==> is_one_line_item(#[trigger] items[i]),
    ensures
        is_whole(items_text(items, comments)),
        lines(items_text(items, comments)) == items_lines(items, comments),
    decreases items.len(),
{
    if items.len() == 0 {
        lemma_no_lines();
    } else {
        lemma_items_lines(items.drop_last(), comments);
        assert(is_one_line_item(items[items.len() - 1]));
        lemma_item_lines(items.last(), comments);
        lemma_lines_add(
            items_text(items.drop_last(), comments),
            item_text(items.last(), comments),
        );
    }
}

proof fn lemma_titles(stage: Stage)
    ensures
        is_one_line(stage_title(stage)),
{
    reveal_strlit("Casts");
    reveal_strlit("Collations");
    reveal_strlit("Event Triggers");
    reveal_strlit("Extensions");
    reveal_strlit("Foreign Data Wrappers");
    reveal_strlit("Foreign Servers");
    reveal_strlit("Foreign Tables");
    reveal_strlit("Operators");
    reveal_strlit("Publications");
    reveal_strlit("Routines");
    reveal_strlit("Rules");
    reveal_strlit("Schemas");
    reveal_strlit("Sequences");
    reveal_strlit("Statistics");
    reveal_strlit("Subscriptions");
    reveal_strlit("Tables");
    reveal_strlit("Text Search Configurations");
    reveal_strlit("Text Search Dictionaries");
    reveal_strlit("Types");
    reveal_strlit("User Mappings");
    reveal_strlit("Views");
}

proof fn lemma_stage_lines(d: Dump, rank: int, comments: bool, cascade: bool)
    requires
        has_one_line_texts(d, cascade),
        0 <= rank < STAGE_COUNT,
    ensures
        is_whole(stage_text(d, stage_at(rank), comments, cascade)),
        lines(stage_text(d, stage_at(rank), comments, cascade)) == stage_lines(
            d,
            stage_at(rank),
            comments,
            cascade,
        ),
{
    let stage = stage_at(rank);
    let title = stage_title(stage);
    let none = Seq::<char>::empty();
    lemma_items_lines(stage_items(d, stage, cascade), comments);
    lemma_no_lines();
    let head = if comments {
        stage_heading(d, stage)
    } else {
        none
    };
    let lines_of_head = if comments {
        heading_lines(title, stage_count(d, stage))
    } else {
        Seq::empty()
    };
    if comments && stage_count(d, stage) > 0 {
        reveal_strlit("\n");
        reveal_strlit("\n/* ---> Drop ");
        reveal_strlit("/* ---> Drop ");
        reveal_strlit(" --------------- */");
        lemma_titles(stage);
        let line = "/* ---> Drop "@ + title + " --------------- */"@;
        lemma_one_more_line(none, none);
        lemma_one_more_line(none + none + "\n"@, line);
        assert(head =~= none + none + "\n"@ + line + "\n"@);
        assert(lines(head) =~= lines_of_head);
    }
    lemma_lines_add(head, items_text(stage_items(d, stage, cascade), comments));
}

proof fn lemma_body_lines(d: Dump, upto: int, comments: bool, cascade: bool)
    requires
        has_one_line_texts(d, cascade),
        0 <= upto <= STAGE_COUNT,
    ensures
        is_whole(stages_text(d, 0, upto, comments, cascade)),
        lines(stages_text(d, 0, upto, comments, cascade)) == body_lines(
            d,
            upto,
            comments,
            cascade,
        ),
    decreases upto,
{
    if upto == 0 {
        lemma_no_lines();
    } else {
        lemma_body_lines(d, upto - 1, comments, cascade);
        lemma_stage_lines(d, upto - 1, comments, cascade);
        lemma_lines_add(
            stages_text(d, 0, upto - 1, comments, cascade),
            stage_text(d, stage_at(upto - 1), comments, cascade),
        );
    }
}

/// A line that ends where a literal goes on to the next.
proof fn lemma_next_line(
    text: Seq<char>,
    start: Seq<char>,
    number: Seq<char>,
    literal: Seq<char>,
    next: Seq<char>,
)
    requires
        literal == "\n"@ + next,
    ensures
        text + start + number + literal == text + (start + number) + "\n"@ + next,
{
    assert(text + start + number + literal =~= text + (start + number) + "\n"@ + next);
}

proof fn lemma_count_literals()
    ensures
        "\tDump Info:\n\t\t- Schemas: "@ == "\tDump Info:"@ + "\n"@ + "\t\t- Schemas: "@,
        "\n\t\t- Extensions: "@ == "\n"@ + "\t\t- Extensions: "@,
        "\n\t\t- Types: "@ == "\n"@ + "\t\t- Types: "@,
        "\n\t\t- Enums: "@ == "\n"@ + "\t\t- Enums: "@,
        "\n\t\t- Routines: "@ == "\n"@ + "\t\t- Routines: "@,
        "\n\t\t- Tables: "@ == "\n"@ + "\t\t- Tables: "@,
        "\n\t\t- Views: "@ == "\n"@ + "\t\t- Views: "@,
        is_one_line("\t\t- Schemas: "@) && "\t\t- Schemas: "@.len() > 0 && "\t\t- Schemas: "@[0] == '\t',
        is_one_line("\t\t- Extensions: "@) && "\t\t- Extensions: "@.len() > 0 && "\t\t- Extensions: "@[0] == '\t',
        is_one_line("\t\t- Types: "@) && "\t\t- Types: "@.len() > 0 && "\t\t- Types: "@[0] == '\t',
        is_one_line("\t\t- Enums: "@) && "\t\t- Enums: "@.len() > 0 && "\t\t- Enums: "@[0] == '\t',
        is_one_line("\t\t- Routines: "@) && "\t\t- Routines: "@.len() > 0 && "\t\t- Routines: "@[0] == '\t',
        is_one_line("\t\t- Tables: "@) && "\t\t- Tables: "@.len() > 0 && "\t\t- Tables: "@[0] == '\t',
        is_one_line("\t\t- Views: "@) && "\t\t- Views: "@.len() > 0 && "\t\t- Views: "@[0] == '\t',
        is_one_line("\tDump Info:"@) && "\tDump Info:"@.len() > 0 && "\tDump Info:"@[0] == '\t',
{
    reveal_strlit("\n");
    reveal_strlit("\tDump Info:");
    reveal_strlit("\tDump Info:\n\t\t- Schemas: ");
    reveal_strlit("\t\t- Schemas: ");
    reveal_strlit("\t\t- Extensions: ");
    reveal_strlit("\t\t- Types: ");
    reveal_strlit("\t\t- Enums: ");
    reveal_strlit("\t\t- Routines: ");
    reveal_strlit("\t\t- Tables: ");
    reveal_strlit("\t\t- Views: ");
    reveal_strlit("\n\t\t- Extensions: ");
    reveal_strlit("\n\t\t- Types: ");
    reveal_strlit("\n\t\t- Enums: ");
    reveal_strlit("\n\t\t- Routines: ");
    reveal_strlit("\n\t\t- Tables: ");
    reveal_strlit("\n\t\t- Views: ");
    assert("\tDump Info:\n\t\t- Schemas: "@ =~= "\tDump Info:"@ + "\n"@ + "\t\t- Schemas: "@);
    assert("\n\t\t- Extensions: "@ =~= "\n"@ + "\t\t- Extensions: "@);
    assert("\n\t\t- Types: "@ =~= "\n"@ + "\t\t- Types: "@);
    assert("\n\t\t- Enums: "@ =~= "\n"@ + "\t\t- Enums: "@);
    assert("\n\t\t- Routines: "@ =~= "\n"@ + "\t\t- Routines: "@);
    assert("\n\t\t- Tables: "@ =~= "\n"@ + "\t\t- Tables: "@);
    assert("\n\t\t- Views: "@ =~= "\n"@ + "\t\t- Views: "@);
}

/// The lines of the comment at the top, as far as the counts.
proof fn lemma_header_start(d: Dump) -> (text: Seq<char>)
    requires
        is_one_line(d.configuration.database@),
        is_one_line(d.configuration.scheme@),
    ensures
        is_whole(text),
        lines(text) == header_lines(d).take(5),
        script_header(d) == text + info_text(d) + "\n"@ + block("*/"@),
{
    reveal_strlit("\n");
    reveal_strlit("/*");
    reveal_strlit("/*\n");
    reveal_strlit(" Script generated by PostgreSQL Comparer (clear command)");
    reveal_strlit(" Database: ");
    reveal_strlit(" Schema(s): ");
    let nl = "\n"@;
    let none = Seq::<char>::empty();
    let title = " Script generated by PostgreSQL Comparer (clear command)"@;
    let (db, scheme) = (d.configuration.database@, d.configuration.scheme@);
    assert("/*\n"@ =~= "/*"@ + nl);
    lemma_line("/*"@);
    let t1 = "/*\n"@;
    lemma_one_more_line(t1, title);
    let t2 = t1 + title + nl;
    lemma_regroup(t1, title, nl);
    lemma_one_more_line(t2, " Database: "@ + db);
    let t3 = t2 + (" Database: "@ + db) + nl;
    lemma_regroup(t2, " Database: "@, db);
    lemma_one_more_line(t3, " Schema(s): "@ + scheme);
    let t4 = t3 + (" Schema(s): "@ + scheme) + nl;
    lemma_regroup(t3, " Schema(s): "@, scheme);
    lemma_one_more_line(t4, none);
    let t5 = t4 + none + nl;
    assert(t4 + none =~= t4);
    assert(lines(t5) =~= header_lines(d).take(5));
    t5
}

proof fn lemma_header_lines(d: Dump)
    requires
        is_one_line(d.configuration.database@),
        is_one_line(d.configuration.scheme@),
    ensures
        is_whole(script_header(d)),
        lines(script_header(d)) == header_lines(d),
{
    let nl = "\n"@;
    lemma_count_literals();
    let text = lemma_header_start(d);
    let t5 = text;
    lemma_one_more_line(t5, "\tDump Info:"@);
    let t6 = t5 + "\tDump Info:"@ + nl;
    let i0 = "\tDump Info:\n\t\t- Schemas: "@;
    assert(t5 + i0 =~= t6 + "\t\t- Schemas: "@);
    let d0 = decimal(d.schemas@.len());
    lemma_decimal_one_line(d.schemas@.len());
    let d1 = decimal(d.extensions@.len());
    lemma_decimal_one_line(d.extensions@.len());
    let d2 = decimal(d.types@.len());
    lemma_decimal_one_line(d.types@.len());
    let d3 = decimal(d.enums@.len());
    lemma_decimal_one_line(d.enums@.len());
    let d4 = decimal(d.routines@.len());
    lemma_decimal_one_line(d.routines@.len());
    let d5 = decimal(d.tables@.len());
    lemma_decimal_one_line(d.tables@.len());
    let d6 = decimal(d.views@.len());
    lemma_decimal_one_line(d.views@.len());
    let j0 = i0 + d0;
    lemma_regroup(t5, i0, d0);
    lemma_one_more_line(t6, "\t\t- Schemas: "@ + d0);
    let t7 = t6 + ("\t\t- Schemas: "@ + d0) + nl;
    let i1 = j0 + "\n\t\t- Extensions: "@;
    lemma_regroup(t5, j0, "\n\t\t- Extensions: "@);
    lemma_next_line(t6, "\t\t- Schemas: "@, d0, "\n\t\t- Extensions: "@, "\t\t- Extensions: "@);
    assert(t5 + i1 == t7 + "\t\t- Extensions: "@);
    let j1 = i1 + d1;
    lemma_regroup(t5, i1, d1);
    lemma_one_more_line(t7, "\t\t- Extensions: "@ + d1);
    let t8 = t7 + ("\t\t- Extensions: "@ + d1) + nl;
    let i2 = j1 + "\n\t\t- Types: "@;
    lemma_regroup(t5, j1, "\n\t\t- Types: "@);
    lemma_next_line(t7, "\t\t- Extensions: "@, d1, "\n\t\t- Types: "@, "\t\t- Types: "@);
    assert(t5 + i2 == t8 + "\t\t- Types: "@);
    let j2 = i2 + d2;
    lemma_regroup(t5, i2, d2);
    lemma_one_more_line(t8, "\t\t- Types: "@ + d2);
    let t9 = t8 + ("\t\t- Types: "@ + d2) + nl;
    let i3 = j2 + "\n\t\t- Enums: "@;
    lemma_regroup(t5, j2, "\n\t\t- Enums: "@);
    lemma_next_line(t8, "\t\t- Types: "@, d2, "\n\t\t- Enums: "@, "\t\t- Enums: "@);
    assert(t5 + i3 == t9 + "\t\t- Enums: "@);
    let j3 = i3 + d3;
    lemma_regroup(t5, i3, d3);
    lemma_one_more_line(t9, "\t\t- Enums: "@ + d3);
    let t10 = t9 + ("\t\t- Enums: "@ + d3) + nl;
    let i4 = j3 + "\n\t\t- Routines: "@;
    lemma_regroup(t5, j3, "\n\t\t- Routines: "@);
    lemma_next_line(t9, "\t\t- Enums: "@, d3, "\n\t\t- Routines: "@, "\t\t- Routines: "@);
    assert(t5 + i4 == t10 + "\t\t- Routines: "@);
    let j4 = i4 + d4;
    lemma_regroup(t5, i4, d4);
    lemma_one_more_line(t10, "\t\t- Routines: "@ + d4);
    let t11 = t10 + ("\t\t- Routines: "@ + d4) + nl;
    let i5 = j4 + "\n\t\t- Tables: "@;
    lemma_regroup(t5, j4, "\n\t\t- Tables: "@);
    lemma_next_line(t10, "\t\t- Routines: "@, d4, "\n\t\t- Tables: "@, "\t\t- Tables: "@);
    assert(t5 + i5 == t11 + "\t\t- Tables: "@);
    let j5 = i5 + d5;
    lemma_regroup(t5, i5, d5);
    lemma_one_more_line(t11, "\t\t- Tables: "@ + d5);
    let t12 = t11 + ("\t\t- Tables: "@ + d5) + nl;
    let i6 = j5 + "\n\t\t- Views: "@;
    lemma_regroup(t5, j5, "\n\t\t- Views: "@);
    lemma_next_line(t11, "\t\t- Tables: "@, d5, "\n\t\t- Views: "@, "\t\t- Views: "@);
    assert(t5 + i6 == t12 + "\t\t- Views: "@);
    let j6 = i6 + d6;
    lemma_regroup(t5, i6, d6);
    lemma_one_more_line(t12, "\t\t- Views: "@ + d6);
    let t13 = t12 + ("\t\t- Views: "@ + d6) + nl;
    lemma_regroup(t12, "\t\t- Views: "@, d6);
    assert(t5 + j6 + nl == t13);
    assert(info_text(d) == j6);
    reveal_strlit("*/");
    lemma_one_more_line(t13, "*/"@);
    lemma_regroup(t13, "*/"@, nl);
    assert(lines(script_header(d)) =~= header_lines(d));
}

/// The lines of the script, where the texts of the dump hold no line feed.
pub proof fn law_script_lines(d: Dump, transaction: bool, comments: bool, cascade: bool)
    requires
        has_one_line_texts(d, cascade),
    ensures
        lines(clear_script(d, transaction, comments, cascade)) == script_lines(
            d,
            transaction,
            comments,
            cascade,
        ),
{
    reveal_strlit("\n");
    reveal_strlit("begin;");
    reveal_strlit("commit;");
    reveal_strlit("\ncommit;");
    let none = Seq::<char>::empty();
    lemma_no_lines();
    lemma_header_lines(d);
    lemma_body_lines(d, STAGE_COUNT as int, comments, cascade);
    lemma_line("begin;"@);
    let begin = if transaction {
        block("begin;"@)
    } else {
        none
    };
    let commit = if transaction {
        block("\ncommit;"@)
    } else {
        none
    };
    lemma_one_more_line(none, none);
    lemma_one_more_line(none + none + "\n"@, "commit;"@);
    assert(block("\ncommit;"@) =~= none + none + "\n"@ + "commit;"@ + "\n"@);
    assert(lines(block("\ncommit;"@)) =~= seq![none, "commit;"@]);
    let body = stages_text(d, 0, STAGE_COUNT as int, comments, cascade);
    lemma_lines_add(script_header(d), begin);
    lemma_lines_add(script_header(d) + begin, body);
    lemma_lines_add(script_header(d) + begin + body, commit);
}

/// The line is a statement of the script, or begins or ends its transaction.
pub open spec fn is_command() -> spec_fn(Seq<char>) -> bool {
    |line: Seq<char>|
        "drop "@.is_prefix_of(line) || "alter table "@.is_prefix_of(line) || "begin;"@.is_prefix_of(
            line,
        ) || "commit;"@.is_prefix_of(line)
}

/// The line drops something: it neither begins nor commits a transaction.
pub open spec fn is_drop(line: Seq<char>) -> bool {
    &&& "drop "@.is_prefix_of(line) || "alter table "@.is_prefix_of(line)
    &&& !"begin;"@.is_prefix_of(line)
    &&& !"commit;"@.is_prefix_of(line)
}

/// The line is a comment of its own.
pub open spec fn is_comment() -> spec_fn(Seq<char>) -> bool {
    |line: Seq<char>| "/* "@.is_prefix_of(line)
}

/// The statements of items.
pub open spec fn item_statements(items: Seq<DropItem>) -> Seq<Seq<char>> {
    items.map_values(|item: DropItem| item.statement)
}

/// The statements of the first `upto` stages.
pub open spec fn statements(d: Dump, upto: int, cascade: bool) -> Seq<Seq<char>>
    decreases upto,
{
    if upto <= 0 {
        Seq::empty()
    } else {
        statements(d, upto - 1, cascade) + item_statements(
            stage_items(d, stage_at(upto - 1), cascade),
        )
    }
}

proof fn lemma_prefix_first(prefix: Seq<char>, line: Seq<char>)
    requires
        prefix.is_prefix_of(line),
        prefix.len() > 0,
    ensures
        line.len() >= prefix.len(),
        line[0] == prefix[0],
{
    assert(line.subrange(0, prefix.len() as int)[0] == line[0]);
}

/// A line that begins with another character is no command.
proof fn lemma_no_command(line: Seq<char>)
    requires
        line.len() == 0 || (line[0] != 'd' && line[0] != 'a' && line[0] != 'b' && line[0] != 'c'),
    ensures
        !is_command()(line),
{
    reveal_strlit("drop ");
    reveal_strlit("alter table ");
    reveal_strlit("begin;");
    reveal_strlit("commit;");
    if "drop "@.is_prefix_of(line) {
        lemma_prefix_first("drop "@, line);
    }
    if "alter table "@.is_prefix_of(line) {
        lemma_prefix_first("alter table "@, line);
    }
    if "begin;"@.is_prefix_of(line) {
        lemma_prefix_first("begin;"@, line);
    }
    if "commit;"@.is_prefix_of(line) {
        lemma_prefix_first("commit;"@, line);
    }
}

/// A line that is too short or begins with another character is no comment.
proof fn lemma_no_comment(line: Seq<char>)
    requires
        line.len() < 3 || line[0] != '/',
    ensures
        !is_comment()(line),
{
    reveal_strlit("/* ");
    if "/* "@.is_prefix_of(line) {
        lemma_prefix_first("/* "@, line);
    }
}

proof fn lemma_filter_one(x: Seq<char>, pred: spec_fn(Seq<char>) -> bool)
    ensures
        seq![x].filter(pred) == if pred(x) {
            seq![x]
        } else {
            Seq::<Seq<char>>::empty()
        },
{
    let none = Seq::<Seq<char>>::empty();
    none.lemma_filter_push(x, pred);
    assert(none.push(x) =~= seq![x]);
    assert(none.filter(pred) =~= none) by {
        reveal(Seq::filter);
    }
}

proof fn lemma_filter_none(s: Seq<Seq<char>>, pred: spec_fn(Seq<char>) -> bool)
    requires
        forall|i: int| 0 <= i < s.len() ==> !pred(#[trigger] s[i]),
    ensures
        s.filter(pred) == Seq::<Seq<char>>::empty(),
    decreases s.len(),
{
    reveal(Seq::filter);
    if s.len() > 0 {
        lemma_filter_none(s.drop_last(), pred);
        assert(!pred(s[s.len() - 1]));
    }
    assert(s.filter(pred) =~= Seq::empty());
}

proof fn lemma_header_no_command(d: Dump)
    ensures
        header_lines(d).filter(is_command()) == Seq::<Seq<char>>::empty(),
        header_lines(d).filter(is_comment()) == Seq::<Seq<char>>::empty(),
{
    lemma_count_literals();
    reveal_strlit("/*");
    reveal_strlit("/* ");
    reveal_strlit("*/");
    reveal_strlit(" Script generated by PostgreSQL Comparer (clear command)");
    reveal_strlit(" Database: ");
    reveal_strlit(" Schema(s): ");
    let head = header_lines(d);
    assert forall|i: int| 0 <= i < head.len() implies !is_command()(#[trigger] head[i])
        && !is_comment()(head[i]) by {
        lemma_no_command(head[i]);
        lemma_no_comment(head[i]);
    }
    lemma_filter_none(head, is_command());
    lemma_filter_none(head, is_comment());
}

proof fn lemma_drop_prefix(what: Seq<char>, object: Seq<char>, cascade: bool)
    ensures
        "drop "@.is_prefix_of(drop_statement(what, object, cascade)),
        drop_statement(what, object, cascade).len() > 0,
        drop_statement(what, object, cascade)[0] == 'd',
{
    reveal_strlit("drop ");
    let statement = drop_statement(what, object, cascade);
    assert(statement.subrange(0, 5) =~= "drop "@);
}

/// Whether the statements of a stage take `cascade`: not those of foreign keys,
/// which change a table, nor those of user mappings.
pub open spec fn takes_cascade(stage: Stage) -> bool {
    stage != Stage::ForeignKeys && stage != Stage::UserMappings
}

/// `plain` and `cascaded` drop the same object, and the second says `cascade`
/// where that is possible.
spec fn has_form(
    plain: DropItem,
    cascaded: DropItem,
    takes_cascade: bool,
    what: Seq<char>,
    object: Seq<char>,
) -> bool {
    &&& plain.label == cascaded.label
    &&& plain.object == cascaded.object
    &&& plain.statement == drop_statement(what, object, false)
    &&& cascaded.statement == drop_statement(what, object, takes_cascade)
    &&& takes_cascade ==> what.len() > 0 && what[0] != 'u'
    &&& !takes_cascade ==> what == "user mapping"@
}

/// The item at `i` of a stage, without `cascade` and with it.
#[verifier::opaque]
spec fn is_pair_of_drops(d: Dump, stage: Stage, i: int) -> bool {
    &&& stage_items(d, stage, true).len() == stage_items(d, stage, false).len()
    &&& exists|what: Seq<char>, object: Seq<char>| #[trigger]
        has_form(
            stage_items(d, stage, false)[i],
            stage_items(d, stage, true)[i],
            takes_cascade(stage),
            what,
            object,
        )
}

proof fn lemma_form_of_event_triggers(d: Dump, i: int)
    requires
        0 <= i < stage_items(d, Stage::EventTriggers, false).len(),
    ensures
        is_pair_of_drops(d, Stage::EventTriggers, i),
{
    reveal(is_pair_of_drops);
    reveal_strlit("event trigger");
    let item = event_trigger_item(d.event_triggers@[i], false);
    let (what, object) = (item.label, item.object);
    assert(has_form(
        stage_items(d, Stage::EventTriggers, false)[i],
        stage_items(d, Stage::EventTriggers, true)[i],
        takes_cascade(Stage::EventTriggers),
        what,
        object,
    ));
}

proof fn lemma_form_of_subscriptions(d: Dump, i: int)
    requires
        0 <= i < stage_items(d, Stage::Subscriptions, false).len(),
    ensures
        is_pair_of_drops(d, Stage::Subscriptions, i),
{
    reveal(is_pair_of_drops);
    reveal_strlit("subscription");
    let item = subscription_item(d.subscriptions@[i], false);
    let (what, object) = (item.label, item.object);
    assert(has_form(
        stage_items(d, Stage::Subscriptions, false)[i],
        stage_items(d, Stage::Subscriptions, true)[i],
        takes_cascade(Stage::Subscriptions),
        what,
        object,
    ));
}

proof fn lemma_form_of_publications(d: Dump, i: int)
    requires
        0 <= i < stage_items(d, Stage::Publications, false).len(),
    ensures
        is_pair_of_drops(d, Stage::Publications, i),
{
    reveal(is_pair_of_drops);
    reveal_strlit("publication");
    let item = publication_item(d.publications@[i], false);
    let (what, object) = (item.label, item.object);
    assert(has_form(
        stage_items(d, Stage::Publications, false)[i],
        stage_items(d, Stage::Publications, true)[i],
        takes_cascade(Stage::Publications),
        what,
        object,
    ));
}

proof fn lemma_form_of_rules(d: Dump, i: int)
    requires
        0 <= i < stage_items(d, Stage::Rules, false).len(),
    ensures
        is_pair_of_drops(d, Stage::Rules, i),
{
    reveal(is_pair_of_drops);
    reveal_strlit("rule");
    let item = rule_item(d.rules@[i], false);
    let (what, object) = (item.label, item.object);
    assert(has_form(
        stage_items(d, Stage::Rules, false)[i],
        stage_items(d, Stage::Rules, true)[i],
        takes_cascade(Stage::Rules),
        what,
        object,
    ));
}

proof fn lemma_form_of_views(d: Dump, i: int)
    requires
        0 <= i < stage_items(d, Stage::Views, false).len(),
    ensures
        is_pair_of_drops(d, Stage::Views, i),
{
    reveal(is_pair_of_drops);
    reveal_strlit("materialized view");
    reveal_strlit("view");
    let v = d.views@[view_drop_order(d.views@)[i] as int];
    let (what, object) = (view_keyword_text(v.is_materialized), view_key(v));
    assert(has_form(
        stage_items(d, Stage::Views, false)[i],
        stage_items(d, Stage::Views, true)[i],
        takes_cascade(Stage::Views),
        what,
        object,
    ));
}

proof fn lemma_form_of_tables(d: Dump, i: int)
    requires
        0 <= i < stage_items(d, Stage::Tables, false).len(),
    ensures
        is_pair_of_drops(d, Stage::Tables, i),
{
    reveal(is_pair_of_drops);
    reveal_strlit("table");
    let t = d.tables@[table_drop_order(d.tables@)[i] as int];
    let (what, object) = ("table"@, table_key(t));
    assert(has_form(
        stage_items(d, Stage::Tables, false)[i],
        stage_items(d, Stage::Tables, true)[i],
        takes_cascade(Stage::Tables),
        what,
        object,
    ));
}

proof fn lemma_form_of_foreign_tables(d: Dump, i: int)
    requires
        0 <= i < stage_items(d, Stage::ForeignTables, false).len(),
    ensures
        is_pair_of_drops(d, Stage::ForeignTables, i),
{
    reveal(is_pair_of_drops);
    reveal_strlit("foreign table");
    let item = foreign_table_item(d.foreign_tables@[i], false);
    let (what, object) = (item.label, item.object);
    assert(has_form(
        stage_items(d, Stage::ForeignTables, false)[i],
        stage_items(d, Stage::ForeignTables, true)[i],
        takes_cascade(Stage::ForeignTables),
        what,
        object,
    ));
}

proof fn lemma_form_of_user_mappings(d: Dump, i: int)
    requires
        0 <= i < stage_items(d, Stage::UserMappings, false).len(),
    ensures
        is_pair_of_drops(d, Stage::UserMappings, i),
{
    reveal(is_pair_of_drops);
    reveal_strlit("user mapping");
    let item = user_mapping_item(d.user_mappings@[i], false);
    let (what, object) = (item.label, item.object);
    assert(has_form(
        stage_items(d, Stage::UserMappings, false)[i],
        stage_items(d, Stage::UserMappings, true)[i],
        takes_cascade(Stage::UserMappings),
        what,
        object,
    ));
}

proof fn lemma_form_of_foreign_servers(d: Dump, i: int)
    requires
        0 <= i < stage_items(d, Stage::ForeignServers, false).len(),
    ensures
        is_pair_of_drops(d, Stage::ForeignServers, i),
{
    reveal(is_pair_of_drops);
    reveal_strlit("server");
    let item = foreign_server_item(d.foreign_servers@[i], false);
    let (what, object) = (item.label, item.object);
    assert(has_form(
        stage_items(d, Stage::ForeignServers, false)[i],
        stage_items(d, Stage::ForeignServers, true)[i],
        takes_cascade(Stage::ForeignServers),
        what,
        object,
    ));
}

proof fn lemma_form_of_foreign_data_wrappers(d: Dump, i: int)
    requires
        0 <= i < stage_items(d, Stage::ForeignDataWrappers, false).len(),
    ensures
        is_pair_of_drops(d, Stage::ForeignDataWrappers, i),
{
    reveal(is_pair_of_drops);
    reveal_strlit("foreign data wrapper");
    let item = foreign_data_wrapper_item(d.foreign_data_wrappers@[i], false);
    let (what, object) = (item.label, item.object);
    assert(has_form(
        stage_items(d, Stage::ForeignDataWrappers, false)[i],
        stage_items(d, Stage::ForeignDataWrappers, true)[i],
        takes_cascade(Stage::ForeignDataWrappers),
        what,
        object,
    ));
}

proof fn lemma_form_of_statistics(d: Dump, i: int)
    requires
        0 <= i < stage_items(d, Stage::Statistics, false).len(),
    ensures
        is_pair_of_drops(d, Stage::Statistics, i),
{
    reveal(is_pair_of_drops);
    reveal_strlit("statistics");
    let item = statistic_item(d.statistics@[i], false);
    let (what, object) = (item.label, item.object);
    assert(has_form(
        stage_items(d, Stage::Statistics, false)[i],
        stage_items(d, Stage::Statistics, true)[i],
        takes_cascade(Stage::Statistics),
        what,
        object,
    ));
}

proof fn lemma_form_of_casts(d: Dump, i: int)
    requires
        0 <= i < stage_items(d, Stage::Casts, false).len(),
    ensures
        is_pair_of_drops(d, Stage::Casts, i),
{
    reveal(is_pair_of_drops);
    reveal_strlit("cast");
    let item = cast_item(d.casts@[i], false);
    let (what, object) = (item.label, item.object);
    assert(has_form(
        stage_items(d, Stage::Casts, false)[i],
        stage_items(d, Stage::Casts, true)[i],
        takes_cascade(Stage::Casts),
        what,
        object,
    ));
}

proof fn lemma_form_of_operators(d: Dump, i: int)
    requires
        0 <= i < stage_items(d, Stage::Operators, false).len(),
    ensures
        is_pair_of_drops(d, Stage::Operators, i),
{
    reveal(is_pair_of_drops);
    reveal_strlit("operator");
    let item = operator_item(d.operators@[i], false);
    let (what, object) = (item.label, item.object);
    assert(has_form(
        stage_items(d, Stage::Operators, false)[i],
        stage_items(d, Stage::Operators, true)[i],
        takes_cascade(Stage::Operators),
        what,
        object,
    ));
}

proof fn lemma_form_of_routines(d: Dump, i: int)
    requires
        0 <= i < stage_items(d, Stage::Routines, false).len(),
    ensures
        is_pair_of_drops(d, Stage::Routines, i),
{
    reveal(is_pair_of_drops);
    reveal_strlit("procedure");
    reveal_strlit("aggregate");
    reveal_strlit("function");
    let x = d.routines@[i];
    let what = routine_drop_word(x.kind@);
    let object = qualified(x.schema@, x.name@) + " ("@ + routine_drop_arguments(x) + ")"@;
    assert(has_form(
        stage_items(d, Stage::Routines, false)[i],
        stage_items(d, Stage::Routines, true)[i],
        takes_cascade(Stage::Routines),
        what,
        object,
    ));
}

proof fn lemma_form_of_sequences(d: Dump, i: int)
    requires
        0 <= i < stage_items(d, Stage::Sequences, false).len(),
    ensures
        is_pair_of_drops(d, Stage::Sequences, i),
{
    reveal(is_pair_of_drops);
    reveal_strlit("sequence");
    let item = sequence_item(d.sequences@[i], false);
    let (what, object) = (item.label, item.object);
    assert(has_form(
        stage_items(d, Stage::Sequences, false)[i],
        stage_items(d, Stage::Sequences, true)[i],
        takes_cascade(Stage::Sequences),
        what,
        object,
    ));
}

proof fn lemma_form_of_ts_configs(d: Dump, i: int)
    requires
        0 <= i < stage_items(d, Stage::TextSearchConfigs, false).len(),
    ensures
        is_pair_of_drops(d, Stage::TextSearchConfigs, i),
{
    reveal(is_pair_of_drops);
    reveal_strlit("text search configuration");
    let item = ts_config_item(d.ts_configs@[i], false);
    let (what, object) = (item.label, item.object);
    assert(has_form(
        stage_items(d, Stage::TextSearchConfigs, false)[i],
        stage_items(d, Stage::TextSearchConfigs, true)[i],
        takes_cascade(Stage::TextSearchConfigs),
        what,
        object,
    ));
}

proof fn lemma_form_of_ts_dicts(d: Dump, i: int)
    requires
        0 <= i < stage_items(d, Stage::TextSearchDicts, false).len(),
    ensures
        is_pair_of_drops(d, Stage::TextSearchDicts, i),
{
    reveal(is_pair_of_drops);
    reveal_strlit("text search dictionary");
    let item = ts_dict_item(d.ts_dicts@[i], false);
    let (what, object) = (item.label, item.object);
    assert(has_form(
        stage_items(d, Stage::TextSearchDicts, false)[i],
        stage_items(d, Stage::TextSearchDicts, true)[i],
        takes_cascade(Stage::TextSearchDicts),
        what,
        object,
    ));
}

proof fn lemma_form_of_types(d: Dump, i: int)
    requires
        0 <= i < stage_items(d, Stage::Types, false).len(),
    ensures
        is_pair_of_drops(d, Stage::Types, i),
{
    reveal(is_pair_of_drops);
    reveal_strlit("type");
    let item = type_item(d.types@[i], false);
    let (what, object) = (item.label, item.object);
    assert(has_form(
        stage_items(d, Stage::Types, false)[i],
        stage_items(d, Stage::Types, true)[i],
        takes_cascade(Stage::Types),
        what,
        object,
    ));
}

proof fn lemma_form_of_collations(d: Dump, i: int)
    requires
        0 <= i < stage_items(d, Stage::Collations, false).len(),
    ensures
        is_pair_of_drops(d, Stage::Collations, i),
{
    reveal(is_pair_of_drops);
    reveal_strlit("collation");
    let item = collation_item(d.collations@[i], false);
    let (what, object) = (item.label, item.object);
    assert(has_form(
        stage_items(d, Stage::Collations, false)[i],
        stage_items(d, Stage::Collations, true)[i],
        takes_cascade(Stage::Collations),
        what,
        object,
    ));
}

proof fn lemma_form_of_extensions(d: Dump, i: int)
    requires
        0 <= i < stage_items(d, Stage::Extensions, false).len(),
    ensures
        is_pair_of_drops(d, Stage::Extensions, i),
{
    reveal(is_pair_of_drops);
    reveal_strlit("extension");
    let item = extension_item(d.extensions@[i], false);
    let (what, object) = (item.label, item.object);
    assert(has_form(
        stage_items(d, Stage::Extensions, false)[i],
        stage_items(d, Stage::Extensions, true)[i],
        takes_cascade(Stage::Extensions),
        what,
        object,
    ));
}

proof fn lemma_form_of_schemas(d: Dump, i: int)
    requires
        0 <= i < stage_items(d, Stage::Schemas, false).len(),
    ensures
        is_pair_of_drops(d, Stage::Schemas, i),
{
    reveal(is_pair_of_drops);
    reveal_strlit("schema");
    let item = schema_item(d.schemas@[i], false);
    let (what, object) = (item.label, item.object);
    assert(has_form(
        stage_items(d, Stage::Schemas, false)[i],
        stage_items(d, Stage::Schemas, true)[i],
        takes_cascade(Stage::Schemas),
        what,
        object,
    ));
}

/// Every item but a foreign key is a plain drop.
proof fn lemma_pair_of_drops(d: Dump, stage: Stage, i: int)
    requires
        stage != Stage::ForeignKeys,
        0 <= i < stage_items(d, stage, false).len(),
    ensures
        is_pair_of_drops(d, stage, i),
{
    match stage {
        Stage::EventTriggers => lemma_form_of_event_triggers(d, i),
        Stage::Subscriptions => lemma_form_of_subscriptions(d, i),
        Stage::Publications => lemma_form_of_publications(d, i),
        Stage::Rules => lemma_form_of_rules(d, i),
        Stage::Views => lemma_form_of_views(d, i),
        Stage::ForeignKeys => {},
        Stage::Tables => lemma_form_of_tables(d, i),
        Stage::ForeignTables => lemma_form_of_foreign_tables(d, i),
        Stage::UserMappings => lemma_form_of_user_mappings(d, i),
        Stage::ForeignServers => lemma_form_of_foreign_servers(d, i),
        Stage::ForeignDataWrappers => lemma_form_of_foreign_data_wrappers(d, i),
        Stage::Statistics => lemma_form_of_statistics(d, i),
        Stage::Casts => lemma_form_of_casts(d, i),
        Stage::Operators => lemma_form_of_operators(d, i),
        Stage::Routines => lemma_form_of_routines(d, i),
        Stage::Sequences => lemma_form_of_sequences(d, i),
        Stage::TextSearchConfigs => lemma_form_of_ts_configs(d, i),
        Stage::TextSearchDicts => lemma_form_of_ts_dicts(d, i),
        Stage::Types => lemma_form_of_types(d, i),
        Stage::Collations => lemma_form_of_collations(d, i),
        Stage::Extensions => lemma_form_of_extensions(d, i),
        Stage::Schemas => lemma_form_of_schemas(d, i),
    }
}

/// A stage has as many items with `cascade` as without.
proof fn lemma_same_count(d: Dump, stage: Stage)
    ensures
        stage_items(d, stage, true).len() == stage_items(d, stage, false).len(),
{
}

/// Every statement is a command.
proof fn lemma_statement_is_command(d: Dump, stage: Stage, i: int, cascade: bool)
    requires
        0 <= i < stage_items(d, stage, cascade).len(),
    ensures
        is_command()(stage_items(d, stage, cascade)[i].statement),
        !is_comment()(stage_items(d, stage, cascade)[i].statement),
        stage_items(d, stage, cascade)[i].statement.len() > 0,
        stage_items(d, stage, cascade)[i].statement[0] == 'd' || stage_items(
            d,
            stage,
            cascade,
        )[i].statement[0] == 'a',
{
    let item = stage_items(d, stage, cascade)[i];
    if stage == Stage::ForeignKeys {
        lemma_foreign_key_form(d, i, cascade);
    } else {
        lemma_same_count(d, stage);
        lemma_pair_of_drops(d, stage, i);
        reveal(is_pair_of_drops);
        let (what, object) = choose|what: Seq<char>, object: Seq<char>| #[trigger]
            has_form(
                stage_items(d, stage, false)[i],
                stage_items(d, stage, true)[i],
                takes_cascade(stage),
                what,
                object,
            );
        lemma_drop_prefix(what, object, false);
        lemma_drop_prefix(what, object, takes_cascade(stage));
        lemma_no_comment(item.statement);
    }
}

/// A foreign key is dropped by changing its table, with `cascade` or without.
proof fn lemma_foreign_key_form(d: Dump, i: int, cascade: bool)
    requires
        0 <= i < stage_items(d, Stage::ForeignKeys, cascade).len(),
    ensures
        is_command()(stage_items(d, Stage::ForeignKeys, cascade)[i].statement),
        !is_comment()(stage_items(d, Stage::ForeignKeys, cascade)[i].statement),
        stage_items(d, Stage::ForeignKeys, cascade)[i].statement.len() > 0,
        stage_items(d, Stage::ForeignKeys, cascade)[i].statement[0] == 'a',
{
    reveal_strlit("alter table ");
    let statement = stage_items(d, Stage::ForeignKeys, cascade)[i].statement;
    assert(statement == foreign_key_item(foreign_keys(d.tables@)[i]).statement);
    assert(statement.subrange(0, 12) =~= "alter table "@);
    lemma_prefix_first("alter table "@, statement);
    lemma_no_comment(statement);
}

proof fn lemma_item_commands(item: DropItem, comments: bool)
    requires
        is_command()(item.statement),
        !is_comment()(item.statement),
    ensures
        item_lines(item, comments).filter(is_command()) == seq![item.statement],
        !comments ==> item_lines(item, comments).filter(is_comment()) == Seq::<Seq<char>>::empty(),
{
    let none = Seq::<char>::empty();
    let comment = comment_line(item);
    reveal_strlit("/* Drop ");
    reveal_strlit("/* ");
    lemma_no_command(none);
    lemma_no_command(comment);
    let head = if comments {
        seq![comment]
    } else {
        Seq::empty()
    };
    let tail = seq![item.statement, none];
    lemma_filter_none(Seq::empty(), is_command());
    lemma_filter_none(Seq::empty(), is_comment());
    lemma_filter_one(comment, is_command());
    lemma_filter_one(item.statement, is_command());
    lemma_filter_one(none, is_command());
    assert(tail =~= seq![item.statement] + seq![none]);
    Seq::filter_distributes_over_add(seq![item.statement], seq![none], is_command());
    Seq::filter_distributes_over_add(head, tail, is_command());
    assert(item_lines(item, comments).filter(is_command()) =~= seq![item.statement]);
    if !comments {
        lemma_no_comment(none);
        lemma_filter_none(item_lines(item, comments), is_comment());
    }
}

proof fn lemma_items_commands(items: Seq<DropItem>, comments: bool)
    requires
        forall|i: int|
            0 <= i < items.len() ==> is_command()((#[trigger] items[i]).statement) && !is_comment()(
                items[i].statement,
            ),
    ensures
        items_lines(items, comments).filter(is_command()) == item_statements(items),
        !comments ==> items_lines(items, comments).filter(is_comment()) == Seq::<Seq<char>>::empty(),
    decreases items.len(),
{
    if items.len() == 0 {
        lemma_filter_none(Seq::empty(), is_command());
        lemma_filter_none(Seq::empty(), is_comment());
        assert(item_statements(items) =~= Seq::empty());
    } else {
        let rest = items.drop_last();
        lemma_items_commands(rest, comments);
        assert(is_command()(items[items.len() - 1].statement));
        lemma_item_commands(items.last(), comments);
        let (a, b) = (items_lines(rest, comments), item_lines(items.last(), comments));
        Seq::filter_distributes_over_add(a, b, is_command());
        Seq::filter_distributes_over_add(a, b, is_comment());
        assert(item_statements(items) =~= item_statements(rest) + seq![items.last().statement]);
        if !comments {
            assert(items_lines(items, comments).filter(is_comment()) =~= Seq::empty());
        }
    }
}

proof fn lemma_body_commands(d: Dump, upto: int, comments: bool, cascade: bool)
    requires
        0 <= upto <= STAGE_COUNT,
    ensures
        body_lines(d, upto, comments, cascade).filter(is_command()) == statements(d, upto, cascade),
        !comments ==> body_lines(d, upto, comments, cascade).filter(is_comment()) == Seq::<
            Seq<char>,
        >::empty(),
    decreases upto,
{
    lemma_filter_none(Seq::empty(), is_command());
    lemma_filter_none(Seq::empty(), is_comment());
    if upto > 0 {
        let stage = stage_at(upto - 1);
        let items = stage_items(d, stage, cascade);
        lemma_body_commands(d, upto - 1, comments, cascade);
        assert forall|i: int| 0 <= i < items.len() implies is_command()(
            (#[trigger] items[i]).statement,
        ) && !is_comment()(items[i].statement) by {
            lemma_statement_is_command(d, stage, i, cascade);
        }
        lemma_items_commands(items, comments);
        let head = if comments {
            heading_lines(stage_title(stage), stage_count(d, stage))
        } else {
            Seq::empty()
        };
        assert forall|i: int| 0 <= i < head.len() implies !is_command()(#[trigger] head[i]) by {
            reveal_strlit("/* ---> Drop ");
            lemma_no_command(head[i]);
        }
        lemma_filter_none(head, is_command());
        let tail = items_lines(items, comments);
        let before = body_lines(d, upto - 1, comments, cascade);
        Seq::filter_distributes_over_add(head, tail, is_command());
        Seq::filter_distributes_over_add(before, head + tail, is_command());
        assert(body_lines(d, upto, comments, cascade).filter(is_command()) =~= statements(
            d,
            upto,
            cascade,
        ));
        if !comments {
            Seq::filter_distributes_over_add(head, tail, is_comment());
            Seq::filter_distributes_over_add(before, head + tail, is_comment());
            assert(body_lines(d, upto, comments, cascade).filter(is_comment()) =~= Seq::empty());
        }
    }
}

proof fn lemma_filter_four(
    a: Seq<Seq<char>>,
    b: Seq<Seq<char>>,
    c: Seq<Seq<char>>,
    e: Seq<Seq<char>>,
    pred: spec_fn(Seq<char>) -> bool,
)
    ensures
        (a + b + c + e).filter(pred) == a.filter(pred) + b.filter(pred) + c.filter(pred) + e.filter(
            pred,
        ),
{
    Seq::filter_distributes_over_add(a, b, pred);
    Seq::filter_distributes_over_add(a + b, c, pred);
    Seq::filter_distributes_over_add(a + b + c, e, pred);
}

/// The lines before the statements of a script.
pub open spec fn begin_lines(transaction: bool) -> Seq<Seq<char>> {
    if transaction {
        seq!["begin;"@]
    } else {
        Seq::empty()
    }
}

/// The lines behind the statements of a script.
pub open spec fn commit_lines(transaction: bool) -> Seq<Seq<char>> {
    if transaction {
        seq![Seq::<char>::empty(), "commit;"@]
    } else {
        Seq::empty()
    }
}

/// The command that ends a transaction, where there is one.
pub open spec fn commit_command(transaction: bool) -> Seq<Seq<char>> {
    if transaction {
        seq!["commit;"@]
    } else {
        Seq::empty()
    }
}

/// The lines of the frame: commands, and no comments.
proof fn lemma_frame_lines()
    ensures
        is_command()("begin;"@) && !is_comment()("begin;"@),
        is_command()("commit;"@) && !is_comment()("commit;"@),
        !is_command()(Seq::<char>::empty()) && !is_comment()(Seq::<char>::empty()),
{
    assert("begin;"@.is_prefix_of("begin;"@)) by {
        assert("begin;"@.subrange(0, "begin;"@.len() as int) =~= "begin;"@);
    }
    assert("commit;"@.is_prefix_of("commit;"@)) by {
        assert("commit;"@.subrange(0, "commit;"@.len() as int) =~= "commit;"@);
    }
    assert("begin;"@[0] != '/') by {
        reveal_strlit("begin;");
    }
    assert("commit;"@[0] != '/') by {
        reveal_strlit("commit;");
    }
    lemma_no_command(Seq::empty());
    lemma_no_comment(Seq::empty());
    lemma_no_comment("begin;"@);
    lemma_no_comment("commit;"@);
}

/// An empty line and one that is picked.
proof fn lemma_filter_two(x: Seq<char>, y: Seq<char>, pred: spec_fn(Seq<char>) -> bool)
    requires
        !pred(x),
        pred(y),
    ensures
        seq![x, y].filter(pred) == seq![y],
{
    lemma_filter_one(x, pred);
    lemma_filter_one(y, pred);
    assert(seq![x, y] =~= seq![x] + seq![y]);
    Seq::filter_distributes_over_add(seq![x], seq![y], pred);
    assert(Seq::<Seq<char>>::empty() + seq![y] =~= seq![y]);
}

proof fn lemma_frame_commands(transaction: bool)
    ensures
        begin_lines(transaction).filter(is_command()) == begin_lines(transaction),
        commit_lines(transaction).filter(is_command()) == commit_command(transaction),
        begin_lines(transaction).filter(is_comment()) == Seq::<Seq<char>>::empty(),
        commit_lines(transaction).filter(is_comment()) == Seq::<Seq<char>>::empty(),
{
    lemma_frame_lines();
    lemma_filter_none(begin_lines(transaction), is_comment());
    lemma_filter_none(commit_lines(transaction), is_comment());
    if transaction {
        lemma_filter_one("begin;"@, is_command());
        lemma_filter_two(Seq::empty(), "commit;"@, is_command());
    } else {
        lemma_filter_none(Seq::empty(), is_command());
    }
}

proof fn lemma_commands(
    head: Seq<Seq<char>>,
    body: Seq<Seq<char>>,
    commands: Seq<Seq<char>>,
    transaction: bool,
    comments: bool,
)
    requires
        head.filter(is_command()) == Seq::<Seq<char>>::empty(),
        head.filter(is_comment()) == Seq::<Seq<char>>::empty(),
        body.filter(is_command()) == commands,
        !comments ==> body.filter(is_comment()) == Seq::<Seq<char>>::empty(),
    ensures
        (head + begin_lines(transaction) + body + commit_lines(transaction)).filter(is_command())
            == begin_lines(transaction) + commands + commit_command(transaction),
        !comments ==> (head + begin_lines(transaction) + body + commit_lines(transaction)).filter(
            is_comment(),
        ) == Seq::<Seq<char>>::empty(),
{
    let none = Seq::<Seq<char>>::empty();
    let (begin, commit) = (begin_lines(transaction), commit_lines(transaction));
    lemma_frame_commands(transaction);
    lemma_filter_four(head, begin, body, commit, is_command());
    lemma_filter_four(head, begin, body, commit, is_comment());
    assert(none + begin =~= begin);
    assert(none + none =~= none);
}

/// A command that starts like a drop is one.
proof fn lemma_is_drop(line: Seq<char>)
    requires
        is_command()(line),
        line.len() > 0,
        line[0] == 'd' || line[0] == 'a',
    ensures
        is_drop(line),
{
    reveal_strlit("begin;");
    reveal_strlit("commit;");
    if "begin;"@.is_prefix_of(line) {
        lemma_prefix_first("begin;"@, line);
    }
    if "commit;"@.is_prefix_of(line) {
        lemma_prefix_first("commit;"@, line);
    }
}

proof fn lemma_statements_drop(d: Dump, upto: int, cascade: bool)
    ensures
        forall|i: int|
            0 <= i < statements(d, upto, cascade).len() ==> is_drop(
                #[trigger] statements(d, upto, cascade)[i],
            ),
    decreases upto,
{
    if upto > 0 {
        let stage = stage_at(upto - 1);
        let (before, items) = (statements(d, upto - 1, cascade), stage_items(d, stage, cascade));
        lemma_statements_drop(d, upto - 1, cascade);
        assert forall|i: int| 0 <= i < statements(d, upto, cascade).len() implies is_drop(
            #[trigger] statements(d, upto, cascade)[i],
        ) by {
            if i < before.len() {
                assert(statements(d, upto, cascade)[i] == before[i]);
            } else {
                let k = i - before.len();
                assert(statements(d, upto, cascade)[i] == items[k].statement);
                lemma_statement_is_command(d, stage, k, cascade);
                lemma_is_drop(items[k].statement);
            }
        }
    }
}

/// Comments leave the statements alone, and a transaction only frames them: the
/// statements, with `begin` and `commit` where a transaction is asked for, are
/// the same with comments and without, and none of them is a `begin` or a
/// `commit`. Without comments no line is one.
pub proof fn law_comments_and_transaction(d: Dump, transaction: bool, comments: bool, cascade: bool)
    requires
        has_one_line_texts(d, cascade),
    ensures
        lines(clear_script(d, transaction, comments, cascade)).filter(is_command()) == begin_lines(
            transaction,
        ) + statements(d, STAGE_COUNT as int, cascade) + commit_command(transaction),
        !comments ==> lines(clear_script(d, transaction, comments, cascade)).filter(is_comment())
            == Seq::<Seq<char>>::empty(),
        forall|i: int|
            0 <= i < statements(d, STAGE_COUNT as int, cascade).len() ==> is_drop(
                #[trigger] statements(d, STAGE_COUNT as int, cascade)[i],
            ),
{
    law_script_lines(d, transaction, comments, cascade);
    lemma_statements_drop(d, STAGE_COUNT as int, cascade);
    lemma_header_no_command(d);
    lemma_body_commands(d, STAGE_COUNT as int, comments, cascade);
    lemma_commands(
        header_lines(d),
        body_lines(d, STAGE_COUNT as int, comments, cascade),
        statements(d, STAGE_COUNT as int, cascade),
        transaction,
        comments,
    );
}

/// A line of the script without `cascade`, as it stands in the script with it:
/// a drop gets ` cascade` before its semicolon, but not that of a user mapping.
/// Every other line stays, among them those that drop foreign keys.
pub open spec fn cascaded_line(line: Seq<char>) -> Seq<char> {
    if "drop "@.is_prefix_of(line) && !"drop user mapping "@.is_prefix_of(line) {
        line.drop_last() + " cascade;"@
    } else {
        line
    }
}

/// [`cascaded_line`] as a function.
pub open spec fn with_cascade() -> spec_fn(Seq<char>) -> Seq<char> {
    |line: Seq<char>| cascaded_line(line)
}

/// A line that is no drop stays.
proof fn lemma_line_stays(line: Seq<char>)
    requires
        line.len() == 0 || line[0] != 'd',
    ensures
        cascaded_line(line) == line,
{
    reveal_strlit("drop ");
    if "drop "@.is_prefix_of(line) {
        lemma_prefix_first("drop "@, line);
    }
}

proof fn lemma_drop_cascaded(what: Seq<char>, object: Seq<char>)
    requires
        what.len() > 0,
        what[0] != 'u',
    ensures
        drop_statement(what, object, true) == cascaded_line(drop_statement(what, object, false)),
        is_one_line(drop_statement(what, object, false)) ==> is_one_line(
            drop_statement(what, object, true),
        ),
{
    let (plain, cascaded) = (drop_statement(what, object, false), drop_statement(what, object, true));
    lemma_drop_prefix(what, object, false);
    assert(!"drop user mapping "@.is_prefix_of(plain)) by {
        reveal_strlit("drop user mapping ");
        reveal_strlit("drop ");
        if "drop user mapping "@.is_prefix_of(plain) {
            assert(plain.subrange(0, 18)[5] == plain[5]);
            assert(plain[5] == what[0]);
        }
    }
    reveal_strlit(";");
    reveal_strlit(" cascade");
    reveal_strlit(" cascade;");
    assert(cascaded =~= plain.drop_last() + " cascade;"@);
    if is_one_line(plain) {
        assert forall|i: int| 0 <= i < cascaded.len() implies #[trigger] cascaded[i] != '\n' by {
            if i < plain.len() - 1 {
                assert(cascaded[i] == plain[i]);
            }
        }
    }
}

proof fn lemma_user_mapping_stays(object: Seq<char>)
    ensures
        cascaded_line(drop_statement("user mapping"@, object, false)) == drop_statement(
            "user mapping"@,
            object,
            false,
        ),
{
    reveal_strlit("drop user mapping ");
    reveal_strlit("drop ");
    reveal_strlit("user mapping");
    reveal_strlit(" if exists ");
    let statement = drop_statement("user mapping"@, object, false);
    assert(statement.subrange(0, 18) =~= "drop user mapping "@);
}

/// An item with `cascade` and without.
spec fn is_cascaded(plain: DropItem, cascaded: DropItem) -> bool {
    &&& plain.label == cascaded.label
    &&& plain.object == cascaded.object
    &&& cascaded.statement == cascaded_line(plain.statement)
    &&& is_one_line(plain.statement) ==> is_one_line(cascaded.statement)
}

proof fn lemma_items_cascaded(d: Dump, stage: Stage)
    ensures
        stage_items(d, stage, true).len() == stage_items(d, stage, false).len(),
        forall|i: int|
            0 <= i < stage_items(d, stage, true).len() ==> is_cascaded(
                stage_items(d, stage, false)[i],
                #[trigger] stage_items(d, stage, true)[i],
            ),
{
    lemma_same_count(d, stage);
    assert forall|i: int| 0 <= i < stage_items(d, stage, true).len() implies is_cascaded(
        stage_items(d, stage, false)[i],
        #[trigger] stage_items(d, stage, true)[i],
    ) by {
        if stage == Stage::ForeignKeys {
            lemma_foreign_key_form(d, i, false);
            lemma_line_stays(stage_items(d, stage, false)[i].statement);
            assert(stage_items(d, stage, true)[i] == stage_items(d, stage, false)[i]);
        } else {
            lemma_pair_of_drops(d, stage, i);
            reveal(is_pair_of_drops);
            let (what, object) = choose|what: Seq<char>, object: Seq<char>| #[trigger]
                has_form(
                    stage_items(d, stage, false)[i],
                    stage_items(d, stage, true)[i],
                    takes_cascade(stage),
                    what,
                    object,
                );
            if takes_cascade(stage) {
                lemma_drop_cascaded(what, object);
            } else {
                lemma_user_mapping_stays(object);
            }
        }
    }
}

proof fn lemma_map_add(a: Seq<Seq<char>>, b: Seq<Seq<char>>, f: spec_fn(Seq<char>) -> Seq<char>)
    ensures
        (a + b).map_values(f) == a.map_values(f) + b.map_values(f),
{
    assert((a + b).map_values(f) =~= a.map_values(f) + b.map_values(f));
}

proof fn lemma_lines_stay(s: Seq<Seq<char>>)
    requires
        forall|i: int| 0 <= i < s.len() ==> (#[trigger] s[i]).len() == 0 || s[i][0] != 'd',
    ensures
        s.map_values(with_cascade()) == s,
{
    assert forall|i: int| 0 <= i < s.len() implies s.map_values(with_cascade())[i] == s[i] by {
        lemma_line_stays(s[i]);
    }
    assert(s.map_values(with_cascade()) =~= s);
}

proof fn lemma_item_cascaded(plain: DropItem, cascaded: DropItem, comments: bool)
    requires
        is_cascaded(plain, cascaded),
    ensures
        item_lines(cascaded, comments) == item_lines(plain, comments).map_values(with_cascade()),
{
    reveal_strlit("/* Drop ");
    lemma_line_stays(Seq::empty());
    lemma_line_stays(comment_line(plain));
    assert(item_lines(cascaded, comments) =~= item_lines(plain, comments).map_values(
        with_cascade(),
    ));
}

proof fn lemma_items_lines_cascaded(
    plain: Seq<DropItem>,
    cascaded: Seq<DropItem>,
    comments: bool,
)
    requires
        plain.len() == cascaded.len(),
        forall|i: int| 0 <= i < plain.len() ==> is_cascaded(plain[i], #[trigger] cascaded[i]),
    ensures
        items_lines(cascaded, comments) == items_lines(plain, comments).map_values(with_cascade()),
    decreases plain.len(),
{
    if plain.len() == 0 {
        lemma_lines_stay(Seq::empty());
    } else {
        lemma_items_lines_cascaded(plain.drop_last(), cascaded.drop_last(), comments);
        assert(is_cascaded(plain[plain.len() - 1], cascaded[plain.len() - 1]));
        lemma_item_cascaded(plain.last(), cascaded.last(), comments);
        lemma_map_add(
            items_lines(plain.drop_last(), comments),
            item_lines(plain.last(), comments),
            with_cascade(),
        );
    }
}

proof fn lemma_body_cascaded(d: Dump, upto: int, comments: bool)
    requires
        0 <= upto <= STAGE_COUNT,
    ensures
        body_lines(d, upto, comments, true) == body_lines(d, upto, comments, false).map_values(
            with_cascade(),
        ),
    decreases upto,
{
    if upto == 0 {
        lemma_lines_stay(Seq::empty());
    } else {
        let stage = stage_at(upto - 1);
        let (plain, cascaded) = (stage_items(d, stage, false), stage_items(d, stage, true));
        lemma_body_cascaded(d, upto - 1, comments);
        lemma_items_cascaded(d, stage);
        lemma_items_lines_cascaded(plain, cascaded, comments);
        let head = if comments {
            heading_lines(stage_title(stage), stage_count(d, stage))
        } else {
            Seq::empty()
        };
        assert forall|i: int| 0 <= i < head.len() implies (#[trigger] head[i]).len() == 0
            || head[i][0] != 'd' by {
            reveal_strlit("/* ---> Drop ");
        }
        lemma_lines_stay(head);
        let tail = items_lines(plain, comments);
        lemma_map_add(head, tail, with_cascade());
        lemma_map_add(body_lines(d, upto - 1, comments, false), head + tail, with_cascade());
    }
}

proof fn lemma_header_stays(d: Dump)
    ensures
        header_lines(d).map_values(with_cascade()) == header_lines(d),
{
    lemma_count_literals();
    reveal_strlit("/*");
    reveal_strlit("*/");
    reveal_strlit(" Script generated by PostgreSQL Comparer (clear command)");
    reveal_strlit(" Database: ");
    reveal_strlit(" Schema(s): ");
    lemma_lines_stay(header_lines(d));
}

proof fn lemma_frame_stays(transaction: bool)
    ensures
        begin_lines(transaction).map_values(with_cascade()) == begin_lines(transaction),
        commit_lines(transaction).map_values(with_cascade()) == commit_lines(transaction),
{
    reveal_strlit("begin;");
    reveal_strlit("commit;");
    lemma_lines_stay(begin_lines(transaction));
    lemma_lines_stay(commit_lines(transaction));
}

/// The script with `cascade` is the script without it, line by line, with
/// ` cascade` before the semicolon of every drop that takes it, and nothing else
/// changed.
pub proof fn law_cascade(d: Dump, transaction: bool, comments: bool)
    requires
        has_one_line_texts(d, false),
    ensures
        lines(clear_script(d, transaction, comments, true)) == lines(
            clear_script(d, transaction, comments, false),
        ).map_values(with_cascade()),
{
    assert(has_one_line_texts(d, true)) by {
        assert forall|rank: int, i: int|
            0 <= rank < STAGE_COUNT && 0 <= i < stage_items(d, stage_at(rank), true).len() implies is_one_line_item(
            #[trigger] stage_items(d, stage_at(rank), true)[i]) by {
            lemma_items_cascaded(d, stage_at(rank));
            assert(is_one_line_item(stage_items(d, stage_at(rank), false)[i]));
        }
    }
    law_script_lines(d, transaction, comments, false);
    law_script_lines(d, transaction, comments, true);
    lemma_header_stays(d);
    lemma_frame_stays(transaction);
    lemma_body_cascaded(d, STAGE_COUNT as int, comments);
    let (head, begin, commit) = (header_lines(d), begin_lines(transaction), commit_lines(transaction));
    let body = body_lines(d, STAGE_COUNT as int, comments, false);
    lemma_map_add(head, begin, with_cascade());
    lemma_map_add(head + begin, body, with_cascade());
    lemma_map_add(head + begin + body, commit, with_cascade());
}

/// An item of the script without `cascade`, as it stands in the script with it.
pub open spec fn cascaded_item(item: DropItem) -> DropItem {
    DropItem { label: item.label, object: item.object, statement: cascaded_line(item.statement) }
}

/// The first `upto` stages of the script, with these items in each stage.
pub open spec fn stages_of(
    d: Dump,
    items: spec_fn(Stage) -> Seq<DropItem>,
    upto: int,
    comments: bool,
) -> Seq<char>
    decreases upto,
{
    if upto <= 0 {
        Seq::empty()
    } else {
        stages_of(d, items, upto - 1, comments) + ((if comments {
            stage_heading(d, stage_at(upto - 1))
        } else {
            Seq::empty()
        }) + items_text(items(stage_at(upto - 1)), comments))
    }
}

/// The script of the dump, with these items in each stage.
pub open spec fn script_of(
    d: Dump,
    items: spec_fn(Stage) -> Seq<DropItem>,
    transaction: bool,
    comments: bool,
) -> Seq<char> {
    script_header(d) + (if transaction {
        block("begin;"@)
    } else {
        Seq::empty()
    }) + stages_of(d, items, STAGE_COUNT as int, comments) + (if transaction {
        block("\ncommit;"@)
    } else {
        Seq::empty()
    })
}

proof fn lemma_stages_of(
    d: Dump,
    items: spec_fn(Stage) -> Seq<DropItem>,
    upto: int,
    comments: bool,
    cascade: bool,
)
    requires
        forall|stage: Stage| #[trigger] items(stage) == stage_items(d, stage, cascade),
    ensures
        stages_text(d, 0, upto, comments, cascade) == stages_of(d, items, upto, comments),
    decreases upto,
{
    if upto > 0 {
        lemma_stages_of(d, items, upto - 1, comments, cascade);
        assert(items(stage_at(upto - 1)) == stage_items(d, stage_at(upto - 1), cascade));
    }
}

/// Whatever the texts of the dump hold, the script with `cascade` is made of the
/// items of the script without it, with ` cascade` before the semicolon of
/// every drop that takes it, and nothing else changed.
pub proof fn law_cascade_of_every_item(d: Dump, transaction: bool, comments: bool)
    ensures
        clear_script(d, transaction, comments, false) == script_of(
            d,
            |stage: Stage| stage_items(d, stage, false),
            transaction,
            comments,
        ),
        clear_script(d, transaction, comments, true) == script_of(
            d,
            |stage: Stage|
                stage_items(d, stage, false).map_values(|item: DropItem| cascaded_item(item)),
            transaction,
            comments,
        ),
{
    let plain = |stage: Stage| stage_items(d, stage, false);
    let cascaded = |stage: Stage|
        stage_items(d, stage, false).map_values(|item: DropItem| cascaded_item(item));
    assert forall|stage: Stage| #[trigger] cascaded(stage) == stage_items(d, stage, true) by {
        lemma_items_cascaded(d, stage);
        assert forall|i: int| 0 <= i < stage_items(d, stage, true).len() implies cascaded(stage)[i]
            == #[trigger] stage_items(d, stage, true)[i] by {
            assert(is_cascaded(stage_items(d, stage, false)[i], stage_items(d, stage, true)[i]));
        }
        assert(cascaded(stage) =~= stage_items(d, stage, true));
    }
    lemma_stages_of(d, plain, STAGE_COUNT as int, comments, false);
    lemma_stages_of(d, cascaded, STAGE_COUNT as int, comments, true);
}

/// A line below the comment at the top: empty, a comment, a statement that drops
/// something, or one that frames the transaction.
pub open spec fn is_script_line(line: Seq<char>, transaction: bool, comments: bool) -> bool {
    ||| line.len() == 0
    ||| comments && "/* "@.is_prefix_of(line)
    ||| "drop "@.is_prefix_of(line)
    ||| "alter table "@.is_prefix_of(line)
    ||| transaction && line == "begin;"@
    ||| transaction && line == "commit;"@
}

/// Every line is such a line.
spec fn all_script_lines(s: Seq<Seq<char>>, transaction: bool, comments: bool) -> bool {
    forall|i: int| 0 <= i < s.len() ==> is_script_line(#[trigger] s[i], transaction, comments)
}

proof fn lemma_script_lines_add(
    a: Seq<Seq<char>>,
    b: Seq<Seq<char>>,
    transaction: bool,
    comments: bool,
)
    requires
        all_script_lines(a, transaction, comments),
        all_script_lines(b, transaction, comments),
    ensures
        all_script_lines(a + b, transaction, comments),
{
    assert forall|i: int| 0 <= i < (a + b).len() implies is_script_line(
        #[trigger] (a + b)[i],
        transaction,
        comments,
    ) by {
        if i < a.len() {
            assert((a + b)[i] == a[i]);
        } else {
            assert((a + b)[i] == b[i - a.len()]);
        }
    }
}

proof fn lemma_comment_start(rest: Seq<char>)
    ensures
        "/* "@.is_prefix_of("/* Drop "@ + rest),
        "/* "@.is_prefix_of("/* ---> Drop "@ + rest),
{
    reveal_strlit("/* ");
    reveal_strlit("/* Drop ");
    reveal_strlit("/* ---> Drop ");
    assert("/* "@ =~= ("/* Drop "@ + rest).subrange(0, 3));
    assert("/* "@ =~= ("/* ---> Drop "@ + rest).subrange(0, 3));
}

proof fn lemma_items_script_lines(items: Seq<DropItem>, transaction: bool, comments: bool)
    requires
        forall|i: int|
            0 <= i < items.len() ==> is_drop((#[trigger] items[i]).statement),
    ensures
        all_script_lines(items_lines(items, comments), transaction, comments),
    decreases items.len(),
{
    if items.len() > 0 {
        let (rest, item) = (items.drop_last(), items.last());
        assert forall|i: int| 0 <= i < rest.len() implies is_drop((#[trigger] rest[i]).statement) by {
            assert(rest[i] == items[i]);
        }
        lemma_items_script_lines(rest, transaction, comments);
        assert(is_drop(items[items.len() - 1].statement));
        lemma_comment_start(item.label + ": "@ + item.object + " */"@);
        assert(comment_line(item) =~= "/* Drop "@ + (item.label + ": "@ + item.object + " */"@));
        assert(all_script_lines(item_lines(item, comments), transaction, comments));
        lemma_script_lines_add(
            items_lines(rest, comments),
            item_lines(item, comments),
            transaction,
            comments,
        );
    }
}

proof fn lemma_body_script_lines(
    d: Dump,
    upto: int,
    transaction: bool,
    comments: bool,
    cascade: bool,
)
    ensures
        all_script_lines(body_lines(d, upto, comments, cascade), transaction, comments),
    decreases upto,
{
    if upto > 0 {
        let stage = stage_at(upto - 1);
        let items = stage_items(d, stage, cascade);
        lemma_body_script_lines(d, upto - 1, transaction, comments, cascade);
        assert forall|i: int| 0 <= i < items.len() implies is_drop((#[trigger] items[i]).statement) by {
            lemma_statement_is_command(d, stage, i, cascade);
            lemma_is_drop(items[i].statement);
        }
        lemma_items_script_lines(items, transaction, comments);
        let title = stage_title(stage);
        lemma_comment_start(title + " --------------- */"@);
        assert("/* ---> Drop "@ + title + " --------------- */"@ =~= "/* ---> Drop "@ + (title
            + " --------------- */"@));
        let head = if comments {
            heading_lines(title, stage_count(d, stage))
        } else {
            Seq::empty()
        };
        assert(all_script_lines(head, transaction, comments));
        lemma_script_lines_add(head, items_lines(items, comments), transaction, comments);
        lemma_script_lines_add(
            body_lines(d, upto - 1, comments, cascade),
            stage_lines(d, stage, comments, cascade),
            transaction,
            comments,
        );
    }
}

/// Below the comment at the top, which takes fourteen lines, the script holds
/// drops, empty lines, comments where they are wanted, and the frame of the
/// transaction where it is wanted. There is nothing else in it.
pub proof fn law_nothing_else_in_the_script(
    d: Dump,
    transaction: bool,
    comments: bool,
    cascade: bool,
    i: int,
)
    requires
        has_one_line_texts(d, cascade),
        14 <= i < lines(clear_script(d, transaction, comments, cascade)).len(),
    ensures
        is_script_line(
            lines(clear_script(d, transaction, comments, cascade))[i],
            transaction,
            comments,
        ),
{
    law_script_lines(d, transaction, comments, cascade);
    lemma_body_script_lines(d, STAGE_COUNT as int, transaction, comments, cascade);
    lemma_frame_script_lines(transaction, comments);
    lemma_header_length(d);
    lemma_below_the_top(
        header_lines(d),
        begin_lines(transaction),
        body_lines(d, STAGE_COUNT as int, comments, cascade),
        commit_lines(transaction),
        transaction,
        comments,
        i,
    );
}

proof fn lemma_header_length(d: Dump)
    ensures
        header_lines(d).len() == 14,
{
}

proof fn lemma_frame_script_lines(transaction: bool, comments: bool)
    ensures
        all_script_lines(begin_lines(transaction), transaction, comments),
        all_script_lines(commit_lines(transaction), transaction, comments),
{
}

proof fn lemma_below_the_top(
    head: Seq<Seq<char>>,
    begin: Seq<Seq<char>>,
    body: Seq<Seq<char>>,
    commit: Seq<Seq<char>>,
    transaction: bool,
    comments: bool,
    i: int,
)
    requires
        all_script_lines(begin, transaction, comments),
        all_script_lines(body, transaction, comments),
        all_script_lines(commit, transaction, comments),
        head.len() <= i < (head + begin + body + commit).len(),
    ensures
        is_script_line((head + begin + body + commit)[i], transaction, comments),
{
    lemma_script_lines_add(begin, body, transaction, comments);
    lemma_script_lines_add(begin + body, commit, transaction, comments);
    let below = begin + body + commit;
    assert(head + begin + body + commit =~= head + below);
    assert(below[i - head.len()] == (head + begin + body + commit)[i]);
}

/// With a transaction the script ends with its `commit`.
pub proof fn law_script_ends_with_commit(d: Dump, comments: bool, cascade: bool)
    ensures
        "\ncommit;\n"@.is_suffix_of(clear_script(d, true, comments, cascade)),
{
    reveal_strlit("\ncommit;\n");
    reveal_strlit("\ncommit;");
    reveal_strlit("\n");
    let script = clear_script(d, true, comments, cascade);
    let end = "\ncommit;\n"@;
    assert(block("\ncommit;"@) =~= end);
    assert(end =~= script.subrange(script.len() - end.len(), script.len() as int));
}

} // verus!
