//! The script that drops every object of a dump, in an order that their
//! dependencies allow.

use crate::drop_order::{law_each_view_once, order_views, view_drop_order, view_key};
use crate::dump::{info_text, Dump};
use crate::objects;
use crate::objects::{
    Cast, Collation, EventTrigger, Extension, ForeignDataWrapper, ForeignServer, ForeignTable,
    Operator, PgType, Publication, Routine, Rule, Schema, Sequence, Statistic, Subscription, Table,
    TableConstraint, TextSearchConfig, TextSearchDict, UserMapping,
};
use crate::table_order::{law_each_table_once, order_tables, table_drop_order, table_key};
use crate::text::{lowercase, same_text};
use vstd::prelude::*;

verus! {

/// What the script does one after the other.
#[derive(Debug, Clone, Copy, PartialEq, Eq)]
pub enum Stage {
    EventTriggers,
    Subscriptions,
    Publications,
    Rules,
    Views,
    ForeignKeys,
    Tables,
    ForeignTables,
    UserMappings,
    ForeignServers,
    ForeignDataWrappers,
    Statistics,
    Casts,
    Operators,
    Routines,
    Sequences,
    TextSearchConfigs,
    TextSearchDicts,
    Types,
    Collations,
    Extensions,
    Schemas,
}

/// The place of a stage in the script.
pub open spec fn stage_rank(stage: Stage) -> int {
    match stage {
        Stage::EventTriggers => 0,
        Stage::Subscriptions => 1,
        Stage::Publications => 2,
        Stage::Rules => 3,
        Stage::Views => 4,
        Stage::ForeignKeys => 5,
        Stage::Tables => 6,
        Stage::ForeignTables => 7,
        Stage::UserMappings => 8,
        Stage::ForeignServers => 9,
        Stage::ForeignDataWrappers => 10,
        Stage::Statistics => 11,
        Stage::Casts => 12,
        Stage::Operators => 13,
        Stage::Routines => 14,
        Stage::Sequences => 15,
        Stage::TextSearchConfigs => 16,
        Stage::TextSearchDicts => 17,
        Stage::Types => 18,
        Stage::Collations => 19,
        Stage::Extensions => 20,
        Stage::Schemas => 21,
    }
}

/// The number of stages.
pub const STAGE_COUNT: usize = 22;

/// The stage at a place of the script.
pub open spec fn stage_at(rank: int) -> Stage {
    if rank == 0 {
        Stage::EventTriggers
    } else if rank == 1 {
        Stage::Subscriptions
    } else if rank == 2 {
        Stage::Publications
    } else if rank == 3 {
        Stage::Rules
    } else if rank == 4 {
        Stage::Views
    } else if rank == 5 {
        Stage::ForeignKeys
    } else if rank == 6 {
        Stage::Tables
    } else if rank == 7 {
        Stage::ForeignTables
    } else if rank == 8 {
        Stage::UserMappings
    } else if rank == 9 {
        Stage::ForeignServers
    } else if rank == 10 {
        Stage::ForeignDataWrappers
    } else if rank == 11 {
        Stage::Statistics
    } else if rank == 12 {
        Stage::Casts
    } else if rank == 13 {
        Stage::Operators
    } else if rank == 14 {
        Stage::Routines
    } else if rank == 15 {
        Stage::Sequences
    } else if rank == 16 {
        Stage::TextSearchConfigs
    } else if rank == 17 {
        Stage::TextSearchDicts
    } else if rank == 18 {
        Stage::Types
    } else if rank == 19 {
        Stage::Collations
    } else if rank == 20 {
        Stage::Extensions
    } else {
        Stage::Schemas
    }
}

/// One object to drop: how a comment names it, and the statement that drops it.
pub struct DropItem {
    pub label: Seq<char>,
    pub object: Seq<char>,
    pub statement: Seq<char>,
}

/// A block of the script: a line of its own.
pub open spec fn block(text: Seq<char>) -> Seq<char> {
    text + "\n"@
}

/// A statement of the script: its line and an empty one.
pub open spec fn spaced(statement: Seq<char>) -> Seq<char> {
    statement + "\n\n"@
}

/// `schema.name`.
pub open spec fn qualified(schema: Seq<char>, name: Seq<char>) -> Seq<char> {
    schema + "."@ + name
}

/// `drop <what> if exists <object>;`, with `cascade` where it is wanted.
pub open spec fn drop_statement(what: Seq<char>, object: Seq<char>, cascade: bool) -> Seq<char> {
    "drop "@ + what + " if exists "@ + object + (if cascade {
        " cascade"@
    } else {
        Seq::empty()
    }) + ";"@
}

/// An object whose comment and statement name it alike.
pub open spec fn plain_item(what: Seq<char>, object: Seq<char>, cascade: bool) -> DropItem {
    DropItem { label: what, object, statement: drop_statement(what, object, cascade) }
}

/// What SQL calls the kind of a view.
pub open spec fn view_keyword_text(materialized: bool) -> Seq<char> {
    if materialized {
        "materialized view"@
    } else {
        "view"@
    }
}

pub open spec fn view_item(v: objects::View, cascade: bool) -> DropItem {
    plain_item(view_keyword_text(v.is_materialized), view_key(v), cascade)
}

/// A foreign key is dropped from its table; it has no `cascade`.
pub open spec fn foreign_key_item(c: TableConstraint) -> DropItem {
    DropItem {
        label: "foreign key"@,
        object: qualified(c.schema@, c.table_name@) + "."@ + c.name@,
        statement: "alter table "@ + qualified(c.schema@, c.table_name@)
            + " drop constraint if exists "@ + c.name@ + ";"@,
    }
}

/// A table, by the name that its partitions give as their parent.
pub open spec fn table_item(t: Table, cascade: bool) -> DropItem {
    plain_item("table"@, table_key(t), cascade)
}

pub open spec fn event_trigger_item(x: EventTrigger, cascade: bool) -> DropItem {
    plain_item("event trigger"@, x.name@, cascade)
}

pub open spec fn subscription_item(x: Subscription, cascade: bool) -> DropItem {
    plain_item("subscription"@, x.name@, cascade)
}

pub open spec fn publication_item(x: Publication, cascade: bool) -> DropItem {
    plain_item("publication"@, x.name@, cascade)
}

pub open spec fn foreign_table_item(x: ForeignTable, cascade: bool) -> DropItem {
    plain_item("foreign table"@, qualified(x.schema@, x.name@), cascade)
}

pub open spec fn foreign_server_item(x: ForeignServer, cascade: bool) -> DropItem {
    plain_item("server"@, x.name@, cascade)
}

pub open spec fn foreign_data_wrapper_item(x: ForeignDataWrapper, cascade: bool) -> DropItem {
    plain_item("foreign data wrapper"@, x.name@, cascade)
}

pub open spec fn statistic_item(x: Statistic, cascade: bool) -> DropItem {
    plain_item("statistics"@, qualified(x.schema@, x.name@), cascade)
}

pub open spec fn sequence_item(x: Sequence, cascade: bool) -> DropItem {
    plain_item("sequence"@, qualified(x.schema@, x.name@), cascade)
}

pub open spec fn ts_config_item(x: TextSearchConfig, cascade: bool) -> DropItem {
    plain_item("text search configuration"@, qualified(x.schema@, x.name@), cascade)
}

pub open spec fn ts_dict_item(x: TextSearchDict, cascade: bool) -> DropItem {
    plain_item("text search dictionary"@, qualified(x.schema@, x.name@), cascade)
}

pub open spec fn collation_item(x: Collation, cascade: bool) -> DropItem {
    plain_item("collation"@, qualified(x.schema@, x.name@), cascade)
}

pub open spec fn extension_item(x: Extension, cascade: bool) -> DropItem {
    plain_item("extension"@, x.name@, cascade)
}

pub open spec fn schema_item(x: Schema, cascade: bool) -> DropItem {
    plain_item("schema"@, x.name@, cascade)
}

pub open spec fn type_item(x: PgType, cascade: bool) -> DropItem {
    plain_item("type"@, qualified(x.schema@, x.typname@), cascade)
}

/// A rule is dropped from its table.
pub open spec fn rule_item(x: Rule, cascade: bool) -> DropItem {
    plain_item("rule"@, x.rule_name@ + " on "@ + qualified(x.schema@, x.table_name@), cascade)
}

/// A user mapping is dropped by its user and server. Nothing can depend on it,
/// and SQL takes no `cascade` there.
pub open spec fn user_mapping_item(x: UserMapping, cascade: bool) -> DropItem {
    plain_item("user mapping"@, "for "@ + x.username@ + " server "@ + x.server_name@, false)
}

/// A cast is dropped by its two types.
pub open spec fn cast_item(x: Cast, cascade: bool) -> DropItem {
    plain_item("cast"@, "("@ + x.source_type@ + " as "@ + x.target_type@ + ")"@, cascade)
}

/// How SQL writes the type of an operand; `none` where there is no operand.
pub open spec fn operand(data_type: Option<String>) -> Seq<char> {
    match data_type {
        Some(t) => t@,
        None => "none"@,
    }
}

/// An operator is dropped by its name and the types of its operands.
pub open spec fn operator_item(x: Operator, cascade: bool) -> DropItem {
    plain_item(
        "operator"@,
        qualified(x.schema@, x.name@) + " ("@ + operand(x.left_type) + ", "@ + operand(x.right_type)
            + ")"@,
        cascade,
    )
}

/// The word after `drop` for a routine: a window function is a function, and
/// so is every kind that is not known.
pub open spec fn routine_drop_word(kind: Seq<char>) -> Seq<char> {
    if lowercase(kind) == "procedure"@ {
        "procedure"@
    } else if lowercase(kind) == "aggregate"@ {
        "aggregate"@
    } else {
        "function"@
    }
}

/// The arguments by which a routine is dropped. An aggregate without
/// arguments takes a star.
pub open spec fn routine_drop_arguments(r: Routine) -> Seq<char> {
    if lowercase(r.kind@) == "aggregate"@ && r.arguments@.len() == 0 {
        "*"@
    } else {
        r.arguments@
    }
}

pub open spec fn routine_item(r: Routine, cascade: bool) -> DropItem {
    DropItem {
        label: r.kind@,
        object: qualified(r.schema@, r.name@),
        statement: drop_statement(
            routine_drop_word(r.kind@),
            qualified(r.schema@, r.name@) + " ("@ + routine_drop_arguments(r) + ")"@,
            cascade,
        ),
    }
}

/// Whether a constraint is a foreign key.
pub open spec fn is_foreign_key(c: TableConstraint) -> bool {
    lowercase(c.constraint_type@) == "foreign key"@
}

/// The foreign keys of the tables, table by table.
pub open spec fn foreign_keys(tables: Seq<Table>) -> Seq<TableConstraint>
    decreases tables.len(),
{
    if tables.len() == 0 {
        Seq::empty()
    } else {
        foreign_keys(tables.drop_last()) + foreign_keys_of(tables.last().constraints@)
    }
}

/// The foreign keys among the constraints of one table.
pub open spec fn foreign_keys_of(constraints: Seq<TableConstraint>) -> Seq<TableConstraint> {
    constraints.filter(|c: TableConstraint| is_foreign_key(c))
}

/// The items of foreign keys.
pub open spec fn foreign_key_items(keys: Seq<TableConstraint>) -> Seq<DropItem> {
    keys.map_values(|c: TableConstraint| foreign_key_item(c))
}

/// The objects that a stage drops, in order.
pub open spec fn stage_items(d: Dump, stage: Stage, cascade: bool) -> Seq<DropItem> {
    match stage {
        Stage::EventTriggers => d.event_triggers@.map_values(
            |x: EventTrigger| event_trigger_item(x, cascade),
        ),
        Stage::Subscriptions => d.subscriptions@.map_values(
            |x: Subscription| subscription_item(x, cascade),
        ),
        Stage::Publications => d.publications@.map_values(
            |x: Publication| publication_item(x, cascade),
        ),
        Stage::Rules => d.rules@.map_values(|x: Rule| rule_item(x, cascade)),
        Stage::Views => view_drop_order(d.views@).map_values(
            |i: usize| view_item(d.views@[i as int], cascade),
        ),
        Stage::ForeignKeys => foreign_key_items(foreign_keys(d.tables@)),
        Stage::Tables => table_drop_order(d.tables@).map_values(
            |i: usize| table_item(d.tables@[i as int], cascade),
        ),
        Stage::ForeignTables => d.foreign_tables@.map_values(
            |x: ForeignTable| foreign_table_item(x, cascade),
        ),
        Stage::UserMappings => d.user_mappings@.map_values(
            |x: UserMapping| user_mapping_item(x, cascade),
        ),
        Stage::ForeignServers => d.foreign_servers@.map_values(
            |x: ForeignServer| foreign_server_item(x, cascade),
        ),
        Stage::ForeignDataWrappers => d.foreign_data_wrappers@.map_values(
            |x: ForeignDataWrapper| foreign_data_wrapper_item(x, cascade),
        ),
        Stage::Statistics => d.statistics@.map_values(|x: Statistic| statistic_item(x, cascade)),
        Stage::Casts => d.casts@.map_values(|x: Cast| cast_item(x, cascade)),
        Stage::Operators => d.operators@.map_values(|x: Operator| operator_item(x, cascade)),
        Stage::Routines => d.routines@.map_values(|x: Routine| routine_item(x, cascade)),
        Stage::Sequences => d.sequences@.map_values(|x: Sequence| sequence_item(x, cascade)),
        Stage::TextSearchConfigs => d.ts_configs@.map_values(
            |x: TextSearchConfig| ts_config_item(x, cascade),
        ),
        Stage::TextSearchDicts => d.ts_dicts@.map_values(
            |x: TextSearchDict| ts_dict_item(x, cascade),
        ),
        Stage::Types => d.types@.map_values(|x: PgType| type_item(x, cascade)),
        Stage::Collations => d.collations@.map_values(|x: Collation| collation_item(x, cascade)),
        Stage::Extensions => d.extensions@.map_values(|x: Extension| extension_item(x, cascade)),
        Stage::Schemas => d.schemas@.map_values(|x: Schema| schema_item(x, cascade)),
    }
}

/// What the heading of a stage calls its objects.
pub open spec fn stage_title(stage: Stage) -> Seq<char> {
    match stage {
        Stage::EventTriggers => "Event Triggers"@,
        Stage::Subscriptions => "Subscriptions"@,
        Stage::Publications => "Publications"@,
        Stage::Rules => "Rules"@,
        Stage::Views => "Views"@,
        Stage::ForeignKeys => "Tables"@,
        Stage::Tables => "Tables"@,
        Stage::ForeignTables => "Foreign Tables"@,
        Stage::UserMappings => "User Mappings"@,
        Stage::ForeignServers => "Foreign Servers"@,
        Stage::ForeignDataWrappers => "Foreign Data Wrappers"@,
        Stage::Statistics => "Statistics"@,
        Stage::Casts => "Casts"@,
        Stage::Operators => "Operators"@,
        Stage::Routines => "Routines"@,
        Stage::Sequences => "Sequences"@,
        Stage::TextSearchConfigs => "Text Search Configurations"@,
        Stage::TextSearchDicts => "Text Search Dictionaries"@,
        Stage::Types => "Types"@,
        Stage::Collations => "Collations"@,
        Stage::Extensions => "Extensions"@,
        Stage::Schemas => "Schemas"@,
    }
}

/// The number of objects that the heading of a stage stands above. Foreign keys
/// and tables share a heading, before the foreign keys.
pub open spec fn stage_count(d: Dump, stage: Stage) -> nat {
    match stage {
        Stage::EventTriggers => d.event_triggers@.len(),
        Stage::Subscriptions => d.subscriptions@.len(),
        Stage::Publications => d.publications@.len(),
        Stage::Rules => d.rules@.len(),
        Stage::Views => d.views@.len(),
        Stage::ForeignKeys => d.tables@.len(),
        Stage::Tables => 0,
        Stage::ForeignTables => d.foreign_tables@.len(),
        Stage::UserMappings => d.user_mappings@.len(),
        Stage::ForeignServers => d.foreign_servers@.len(),
        Stage::ForeignDataWrappers => d.foreign_data_wrappers@.len(),
        Stage::Statistics => d.statistics@.len(),
        Stage::Casts => d.casts@.len(),
        Stage::Operators => d.operators@.len(),
        Stage::Routines => d.routines@.len(),
        Stage::Sequences => d.sequences@.len(),
        Stage::TextSearchConfigs => d.ts_configs@.len(),
        Stage::TextSearchDicts => d.ts_dicts@.len(),
        Stage::Types => d.types@.len(),
        Stage::Collations => d.collations@.len(),
        Stage::Extensions => d.extensions@.len(),
        Stage::Schemas => d.schemas@.len(),
    }
}

/// The heading of a stage.
pub open spec fn stage_heading(d: Dump, stage: Stage) -> Seq<char> {
    heading(stage_title(stage), stage_count(d, stage))
}

/// The heading of a kind of objects, where there is one of it.
pub open spec fn heading(title: Seq<char>, count: nat) -> Seq<char> {
    if count == 0 {
        Seq::empty()
    } else {
        block("\n/* ---> Drop "@ + title + " --------------- */"@)
    }
}

/// The text that drops one object, with a comment before it where one is wanted.
pub open spec fn item_text(item: DropItem, comments: bool) -> Seq<char> {
    (if comments {
        "/* Drop "@ + item.label + ": "@ + item.object + " */\n"@
    } else {
        Seq::empty()
    }) + spaced(item.statement)
}

/// The texts of the items, one after the other.
pub open spec fn items_text(items: Seq<DropItem>, comments: bool) -> Seq<char>
    decreases items.len(),
{
    if items.len() == 0 {
        Seq::empty()
    } else {
        items_text(items.drop_last(), comments) + item_text(items.last(), comments)
    }
}

/// What a stage adds to the script.
pub open spec fn stage_text(d: Dump, stage: Stage, comments: bool, cascade: bool) -> Seq<char> {
    (if comments {
        stage_heading(d, stage)
    } else {
        Seq::empty()
    }) + items_text(stage_items(d, stage, cascade), comments)
}

/// The comment at the top of the script.
pub open spec fn script_header(d: Dump) -> Seq<char> {
    "/*\n"@ + block(" Script generated by PostgreSQL Comparer (clear command)"@) + " Database: "@
        + d.configuration.database@ + "\n"@ + " Schema(s): "@ + d.configuration.scheme@ + "\n"@ + "\n"@
        + info_text(d) + "\n"@ + block("*/"@)
}

/// The stages of rank `from` up to, not including, `to`, one after the other.
pub open spec fn stages_text(d: Dump, from: int, to: int, comments: bool, cascade: bool) -> Seq<char>
    decreases to - from,
{
    if to <= from {
        Seq::empty()
    } else {
        stages_text(d, from, to - 1, comments, cascade) + stage_text(
            d,
            stage_at(to - 1),
            comments,
            cascade,
        )
    }
}

/// What reacts to changes, then views, then tables without their foreign keys,
/// then what tables and views use.
pub open spec fn script_body(d: Dump, comments: bool, cascade: bool) -> Seq<char> {
    stages_text(d, 0, STAGE_COUNT as int, comments, cascade)
}

/// The whole script, in a transaction where one is wanted.
pub open spec fn clear_script(d: Dump, transaction: bool, comments: bool, cascade: bool) -> Seq<
    char,
> {
    script_header(d) + (if transaction {
        block("begin;"@)
    } else {
        Seq::empty()
    }) + script_body(d, comments, cascade) + (if transaction {
        block("\ncommit;"@)
    } else {
        Seq::empty()
    })
}

impl objects::View {
    /// What SQL calls the kind of the view.
    pub fn view_keyword(&self) -> (r: &'static str)
        ensures
            r@ == view_keyword_text(self.is_materialized),
    {
        if self.is_materialized {
            "materialized view"
        } else {
            "view"
        }
    }
}

/// Appends a block of the script.
fn append_block(out: &mut String, text: &str)
    ensures
        final(out)@ == old(out)@ + block(text@),
{
    out.append(text);
    out.append("\n");
    assert(out@ =~= old(out)@ + block(text@));
}

/// `schema.name`.
fn dotted(schema: &str, name: &str) -> (r: String)
    ensures
        r@ == qualified(schema@, name@),
{
    let mut out = schema.to_string();
    out.append(".");
    out.append(name);
    out
}

/// One object to drop, as [`DropItem`] describes it.
struct Item {
    label: String,
    object: String,
    statement: String,
}

/// What an item says.
spec fn told(item: Item) -> DropItem {
    DropItem { label: item.label@, object: item.object@, statement: item.statement@ }
}

/// Appends the comment about an object and an empty-line-ended statement.
fn append_item(out: &mut String, comments: bool, item: &Item)
    ensures
        final(out)@ == old(out)@ + item_text(told(*item), comments),
{
    if comments {
        out.append("/* Drop ");
        out.append(item.label.as_str());
        out.append(": ");
        out.append(item.object.as_str());
        out.append(" */\n");
    }
    out.append(item.statement.as_str());
    out.append("\n\n");
    assert(out@ =~= old(out)@ + item_text(told(*item), comments));
}

/// The statement that drops an object.
fn statement_to_drop(what: &str, object: &str, cascade: bool) -> (r: String)
    ensures
        r@ == drop_statement(what@, object@, cascade),
{
    let mut out = String::new();
    out.append("drop ");
    out.append(what);
    out.append(" if exists ");
    out.append(object);
    if cascade {
        out.append(" cascade");
    }
    out.append(";");
    assert(out@ =~= drop_statement(what@, object@, cascade));
    out
}

/// An object whose comment and statement name it alike.
fn plain(what: &str, object: String, cascade: bool) -> (r: Item)
    ensures
        told(r) == plain_item(what@, object@, cascade),
{
    let statement = statement_to_drop(what, object.as_str(), cascade);
    Item { label: what.to_string(), object, statement }
}

/// Appends a heading where comments are wanted and there is something below it.
fn append_heading(out: &mut String, comments: bool, title: &str, count: usize)
    ensures
        final(out)@ == old(out)@ + (if comments {
            heading(title@, count as nat)
        } else {
            Seq::empty()
        }),
{
    if comments && count > 0 {
        let mut line = String::new();
        line.append("\n/* ---> Drop ");
        line.append(title);
        line.append(" --------------- */");
        assert(line@ =~= "\n/* ---> Drop "@ + title@ + " --------------- */"@);
        append_block(out, line.as_str());
    } else {
        assert(out@ =~= old(out)@ + Seq::<char>::empty());
    }
}

/// One more item adds its text.
proof fn lemma_one_more(items: Seq<DropItem>, k: int, comments: bool)
    requires
        0 <= k < items.len(),
    ensures
        items_text(items.take(k + 1), comments) == items_text(items.take(k), comments) + item_text(
            items[k],
            comments,
        ),
{
    assert(items.take(k + 1).drop_last() =~= items.take(k));
}

/// Appends the text that drops the objects of a list.
fn append_list<T, F: Fn(&T) -> Item>(
    out: &mut String,
    list: &Vec<T>,
    comments: bool,
    make: F,
    Ghost(item): Ghost<spec_fn(T) -> DropItem>,
)
    requires
        forall|x: T| #[trigger] call_requires(make, (&x,)),
        forall|x: T, r: Item| #[trigger] call_ensures(make, (&x,), r) ==> told(r) == item(x),
    ensures
        final(out)@ == old(out)@ + items_text(list@.map_values(item), comments),
{
    let ghost start = out@;
    let ghost items = list@.map_values(item);
    assert(out@ =~= start + items_text(items.take(0), comments));
    let mut i: usize = 0;
    while i < list.len()
        invariant
            i <= list@.len(),
            items == list@.map_values(item),
            forall|x: T| #[trigger] call_requires(make, (&x,)),
            forall|x: T, r: Item| #[trigger] call_ensures(make, (&x,), r) ==> told(r) == item(x),
            out@ == start + items_text(items.take(i as int), comments),
        decreases list@.len() - i,
    {
        let made = make(&list[i]);
        append_item(out, comments, &made);
        proof {
            lemma_one_more(items, i as int, comments);
            lemma_regroup(
                start,
                items_text(items.take(i as int), comments),
                item_text(items[i as int], comments),
            );
        }
        i += 1;
    }
    assert(items.take(i as int) =~= items);
}

/// Appends what the stage of the views adds.
fn append_views(out: &mut String, d: &Dump, comments: bool, cascade: bool)
    ensures
        final(out)@ == old(out)@ + stage_text(*d, Stage::Views, comments, cascade),
{
    append_heading(out, comments, "Views", d.views.len());
    let order = order_views(&d.views);
    let ghost start = out@;
    let ghost items = stage_items(*d, Stage::Views, cascade);
    proof {
        law_each_view_once(d.views@);
    }
    let mut k: usize = 0;
    while k < order.len()
        invariant
            k <= order@.len(),
            order@ == view_drop_order(d.views@),
            items == stage_items(*d, Stage::Views, cascade),
            items.len() == order@.len(),
            forall|i: usize| i < d.views@.len() <==> #[trigger] order@.contains(i),
            out@ == start + items_text(items.take(k as int), comments),
        decreases order@.len() - k,
    {
        assert(order@.contains(order@[k as int]));
        let view = &d.views[order[k]];
        let object = dotted(view.schema.as_str(), view.name.as_str());
        append_item(out, comments, &plain(view.view_keyword(), object, cascade));
        proof {
            lemma_one_more(items, k as int, comments);
            assert(items[k as int] == view_item(*view, cascade));
            assert(out@ =~= start + items_text(items.take(k + 1), comments));
        }
        k += 1;
    }
    assert(items.take(k as int) =~= items);
    assert(out@ =~= old(out)@ + stage_text(*d, Stage::Views, comments, cascade));
}

/// Appends the text that drops one foreign key.
fn append_foreign_key(out: &mut String, c: &TableConstraint, comments: bool)
    ensures
        final(out)@ == old(out)@ + item_text(foreign_key_item(*c), comments),
{
    let table = dotted(c.schema.as_str(), c.table_name.as_str());
    let mut object = table.clone();
    object.append(".");
    object.append(c.name.as_str());
    let mut statement = String::new();
    statement.append("alter table ");
    statement.append(table.as_str());
    statement.append(" drop constraint if exists ");
    statement.append(c.name.as_str());
    statement.append(";");
    assert(statement@ =~= foreign_key_item(*c).statement);
    append_item(out, comments, &Item { label: "foreign key".to_string(), object, statement });
}

/// Appends the text that drops the foreign keys among `constraints`.
fn append_foreign_keys_of(out: &mut String, constraints: &Vec<TableConstraint>, comments: bool)
    ensures
        final(out)@ == old(out)@ + items_text(
            foreign_key_items(foreign_keys_of(constraints@)),
            comments,
        ),
{
    let ghost start = out@;
    let ghost key = |c: TableConstraint| is_foreign_key(c);
    proof {
        reveal(Seq::filter);
        assert(foreign_key_items(constraints@.take(0).filter(key)) =~= Seq::empty());
        assert(out@ =~= start + items_text(Seq::empty(), comments));
    }
    let mut k: usize = 0;
    while k < constraints.len()
        invariant
            k <= constraints@.len(),
            key == (|c: TableConstraint| is_foreign_key(c)),
            out@ == start + items_text(
                foreign_key_items(constraints@.take(k as int).filter(key)),
                comments,
            ),
        decreases constraints@.len() - k,
    {
        let c = &constraints[k];
        let kind = c.constraint_type.to_lowercase();
        let ghost some = constraints@.take(k as int).filter(key);
        proof {
            constraints@.take(k as int).lemma_filter_push(*c, key);
            assert(constraints@.take(k + 1) =~= constraints@.take(k as int).push(*c));
        }
        if same_text(kind.as_str(), "foreign key") {
            append_foreign_key(out, c, comments);
            proof {
                let items = foreign_key_items(some.push(*c));
                assert(items.drop_last() =~= foreign_key_items(some));
                lemma_regroup(
                    start,
                    items_text(foreign_key_items(some), comments),
                    item_text(foreign_key_item(*c), comments),
                );
            }
        }
        k += 1;
    }
    assert(constraints@.take(k as int) =~= constraints@);
}

/// Appends the heading of the tables and what the stage of the foreign keys adds.
fn append_foreign_keys(out: &mut String, d: &Dump, comments: bool, cascade: bool)
    ensures
        final(out)@ == old(out)@ + stage_text(*d, Stage::ForeignKeys, comments, cascade),
{
    append_heading(out, comments, "Tables", d.tables.len());
    let ghost start = out@;
    let mut i: usize = 0;
    proof {
        assert(foreign_key_items(foreign_keys(d.tables@.take(0))) =~= Seq::empty());
        assert(out@ =~= start + items_text(Seq::empty(), comments));
    }
    while i < d.tables.len()
        invariant
            i <= d.tables@.len(),
            out@ == start + items_text(
                foreign_key_items(foreign_keys(d.tables@.take(i as int))),
                comments,
            ),
        decreases d.tables@.len() - i,
    {
        append_foreign_keys_of(out, &d.tables[i].constraints, comments);
        proof {
            let before = foreign_keys(d.tables@.take(i as int));
            let more = foreign_keys_of(d.tables@[i as int].constraints@);
            assert(d.tables@.take(i + 1).drop_last() =~= d.tables@.take(i as int));
            assert(foreign_key_items(before + more) =~= foreign_key_items(before)
                + foreign_key_items(more));
            lemma_items_concat(foreign_key_items(before), foreign_key_items(more), comments);
            lemma_regroup(
                start,
                items_text(foreign_key_items(before), comments),
                items_text(foreign_key_items(more), comments),
            );
        }
        i += 1;
    }
    assert(d.tables@.take(i as int) =~= d.tables@);
    assert(out@ =~= old(out)@ + stage_text(*d, Stage::ForeignKeys, comments, cascade));
}

/// Appends what the stage of the tables adds.
fn append_tables(out: &mut String, d: &Dump, comments: bool, cascade: bool)
    ensures
        final(out)@ == old(out)@ + stage_text(*d, Stage::Tables, comments, cascade),
{
    let order = order_tables(&d.tables);
    assert(d.tables.len() <= usize::MAX);
    let ghost start = out@;
    let ghost items = stage_items(*d, Stage::Tables, cascade);
    proof {
        law_each_table_once(d.tables@);
    }
    let mut k: usize = 0;
    while k < order.len()
        invariant
            k <= order@.len(),
            order@ == table_drop_order(d.tables@),
            items == stage_items(*d, Stage::Tables, cascade),
            items.len() == order@.len(),
            forall|i: usize| i < d.tables@.len() <==> #[trigger] order@.contains(i),
            out@ == start + items_text(items.take(k as int), comments),
        decreases order@.len() - k,
    {
        assert(order@.contains(order@[k as int]));
        let table = &d.tables[order[k]];
        let object = dotted(table.schema.as_str(), table.name.as_str());
        append_item(out, comments, &plain("table", object, cascade));
        proof {
            lemma_one_more(items, k as int, comments);
            assert(items[k as int] == table_item(*table, cascade));
            assert(out@ =~= start + items_text(items.take(k + 1), comments));
        }
        k += 1;
    }
    assert(items.take(k as int) =~= items);
    assert(out@ =~= old(out)@ + stage_text(*d, Stage::Tables, comments, cascade));
}

/// The texts of two lists of items follow each other.
pub(crate) proof fn lemma_items_concat(a: Seq<DropItem>, b: Seq<DropItem>, comments: bool)
    ensures
        items_text(a + b, comments) == items_text(a, comments) + items_text(b, comments),
    decreases b.len(),
{
    if b.len() == 0 {
        assert(a + b =~= a);
        assert(items_text(a, comments) + items_text(b, comments) =~= items_text(a, comments));
    } else {
        lemma_items_concat(a, b.drop_last(), comments);
        assert((a + b).drop_last() =~= a + b.drop_last());
        assert(items_text(a + b, comments) =~= items_text(a, comments) + items_text(b, comments));
    }
}

fn make_event_trigger_item(x: &EventTrigger, cascade: bool) -> (r: Item)
    ensures
        told(r) == event_trigger_item(*x, cascade),
{
    plain("event trigger", x.name.clone(), cascade)
}

fn make_subscription_item(x: &Subscription, cascade: bool) -> (r: Item)
    ensures
        told(r) == subscription_item(*x, cascade),
{
    plain("subscription", x.name.clone(), cascade)
}

fn make_publication_item(x: &Publication, cascade: bool) -> (r: Item)
    ensures
        told(r) == publication_item(*x, cascade),
{
    plain("publication", x.name.clone(), cascade)
}

fn make_foreign_table_item(x: &ForeignTable, cascade: bool) -> (r: Item)
    ensures
        told(r) == foreign_table_item(*x, cascade),
{
    plain("foreign table", dotted(x.schema.as_str(), x.name.as_str()), cascade)
}

fn make_foreign_server_item(x: &ForeignServer, cascade: bool) -> (r: Item)
    ensures
        told(r) == foreign_server_item(*x, cascade),
{
    plain("server", x.name.clone(), cascade)
}

fn make_foreign_data_wrapper_item(x: &ForeignDataWrapper, cascade: bool) -> (r: Item)
    ensures
        told(r) == foreign_data_wrapper_item(*x, cascade),
{
    plain("foreign data wrapper", x.name.clone(), cascade)
}

fn make_statistic_item(x: &Statistic, cascade: bool) -> (r: Item)
    ensures
        told(r) == statistic_item(*x, cascade),
{
    plain("statistics", dotted(x.schema.as_str(), x.name.as_str()), cascade)
}

fn make_sequence_item(x: &Sequence, cascade: bool) -> (r: Item)
    ensures
        told(r) == sequence_item(*x, cascade),
{
    plain("sequence", dotted(x.schema.as_str(), x.name.as_str()), cascade)
}

fn make_ts_config_item(x: &TextSearchConfig, cascade: bool) -> (r: Item)
    ensures
        told(r) == ts_config_item(*x, cascade),
{
    plain("text search configuration", dotted(x.schema.as_str(), x.name.as_str()), cascade)
}

fn make_ts_dict_item(x: &TextSearchDict, cascade: bool) -> (r: Item)
    ensures
        told(r) == ts_dict_item(*x, cascade),
{
    plain("text search dictionary", dotted(x.schema.as_str(), x.name.as_str()), cascade)
}

fn make_collation_item(x: &Collation, cascade: bool) -> (r: Item)
    ensures
        told(r) == collation_item(*x, cascade),
{
    plain("collation", dotted(x.schema.as_str(), x.name.as_str()), cascade)
}

fn make_extension_item(x: &Extension, cascade: bool) -> (r: Item)
    ensures
        told(r) == extension_item(*x, cascade),
{
    plain("extension", x.name.clone(), cascade)
}

fn make_schema_item(x: &Schema, cascade: bool) -> (r: Item)
    ensures
        told(r) == schema_item(*x, cascade),
{
    plain("schema", x.name.clone(), cascade)
}

fn make_type_item(x: &PgType, cascade: bool) -> (r: Item)
    ensures
        told(r) == type_item(*x, cascade),
{
    plain("type", dotted(x.schema.as_str(), x.typname.as_str()), cascade)
}

fn make_rule_item(x: &Rule, cascade: bool) -> (r: Item)
    ensures
        told(r) == rule_item(*x, cascade),
{
    let table = dotted(x.schema.as_str(), x.table_name.as_str());
    let mut object = x.rule_name.clone();
    object.append(" on ");
    object.append(table.as_str());
    plain("rule", object, cascade)
}

fn make_user_mapping_item(x: &UserMapping, cascade: bool) -> (r: Item)
    ensures
        told(r) == user_mapping_item(*x, cascade),
{
    let mut object = "for ".to_string();
    object.append(x.username.as_str());
    object.append(" server ");
    object.append(x.server_name.as_str());
    plain("user mapping", object, false)
}

fn make_cast_item(x: &Cast, cascade: bool) -> (r: Item)
    ensures
        told(r) == cast_item(*x, cascade),
{
    let mut object = "(".to_string();
    object.append(x.source_type.as_str());
    object.append(" as ");
    object.append(x.target_type.as_str());
    object.append(")");
    plain("cast", object, cascade)
}

/// Appends the type of an operand.
fn append_operand(out: &mut String, data_type: &Option<String>)
    ensures
        final(out)@ == old(out)@ + operand(*data_type),
{
    match data_type {
        Some(t) => out.append(t.as_str()),
        None => out.append("none"),
    }
}

fn make_operator_item(x: &Operator, cascade: bool) -> (r: Item)
    ensures
        told(r) == operator_item(*x, cascade),
{
    let mut object = dotted(x.schema.as_str(), x.name.as_str());
    object.append(" (");
    append_operand(&mut object, &x.left_type);
    object.append(", ");
    append_operand(&mut object, &x.right_type);
    object.append(")");
    plain("operator", object, cascade)
}

fn make_routine_item(x: &Routine, cascade: bool) -> (r: Item)
    ensures
        told(r) == routine_item(*x, cascade),
{
    let kind = x.kind.to_lowercase();
    let aggregate = same_text(kind.as_str(), "aggregate");
    let word = if same_text(kind.as_str(), "procedure") {
        "procedure"
    } else if aggregate {
        "aggregate"
    } else {
        "function"
    };
    let name = dotted(x.schema.as_str(), x.name.as_str());
    let mut object = name.clone();
    object.append(" (");
    if aggregate && x.arguments.as_str().is_empty() {
        object.append("*");
    } else {
        object.append(x.arguments.as_str());
    }
    object.append(")");
    let statement = statement_to_drop(word, object.as_str(), cascade);
    Item { label: x.kind.clone(), object: name, statement }
}

fn append_event_triggers(out: &mut String, d: &Dump, comments: bool, cascade: bool)
    ensures
        final(out)@ == old(out)@ + stage_text(*d, Stage::EventTriggers, comments, cascade),
{
    append_heading(out, comments, "Event Triggers", d.event_triggers.len());
    let ghost start = out@;
    let ghost item = |x: EventTrigger| event_trigger_item(x, cascade);
    let make = |x: &EventTrigger| -> (r: Item)
        ensures
            told(r) == event_trigger_item(*x, cascade),
        { make_event_trigger_item(x, cascade) };
    append_list(out, &d.event_triggers, comments, make, Ghost(item));
    proof {
        assert(stage_items(*d, Stage::EventTriggers, cascade) =~= d.event_triggers@.map_values(item));
        assert(out@ =~= old(out)@ + stage_text(*d, Stage::EventTriggers, comments, cascade));
    }
}

fn append_subscriptions(out: &mut String, d: &Dump, comments: bool, cascade: bool)
    ensures
        final(out)@ == old(out)@ + stage_text(*d, Stage::Subscriptions, comments, cascade),
{
    append_heading(out, comments, "Subscriptions", d.subscriptions.len());
    let ghost start = out@;
    let ghost item = |x: Subscription| subscription_item(x, cascade);
    let make = |x: &Subscription| -> (r: Item)
        ensures
            told(r) == subscription_item(*x, cascade),
        { make_subscription_item(x, cascade) };
    append_list(out, &d.subscriptions, comments, make, Ghost(item));
    proof {
        assert(stage_items(*d, Stage::Subscriptions, cascade) =~= d.subscriptions@.map_values(item));
        assert(out@ =~= old(out)@ + stage_text(*d, Stage::Subscriptions, comments, cascade));
    }
}

fn append_publications(out: &mut String, d: &Dump, comments: bool, cascade: bool)
    ensures
        final(out)@ == old(out)@ + stage_text(*d, Stage::Publications, comments, cascade),
{
    append_heading(out, comments, "Publications", d.publications.len());
    let ghost start = out@;
    let ghost item = |x: Publication| publication_item(x, cascade);
    let make = |x: &Publication| -> (r: Item)
        ensures
            told(r) == publication_item(*x, cascade),
        { make_publication_item(x, cascade) };
    append_list(out, &d.publications, comments, make, Ghost(item));
    proof {
        assert(stage_items(*d, Stage::Publications, cascade) =~= d.publications@.map_values(item));
        assert(out@ =~= old(out)@ + stage_text(*d, Stage::Publications, comments, cascade));
    }
}

fn append_rules(out: &mut String, d: &Dump, comments: bool, cascade: bool)
    ensures
        final(out)@ == old(out)@ + stage_text(*d, Stage::Rules, comments, cascade),
{
    append_heading(out, comments, "Rules", d.rules.len());
    let ghost start = out@;
    let ghost item = |x: Rule| rule_item(x, cascade);
    let make = |x: &Rule| -> (r: Item)
        ensures
            told(r) == rule_item(*x, cascade),
        { make_rule_item(x, cascade) };
    append_list(out, &d.rules, comments, make, Ghost(item));
    proof {
        assert(stage_items(*d, Stage::Rules, cascade) =~= d.rules@.map_values(item));
        assert(out@ =~= old(out)@ + stage_text(*d, Stage::Rules, comments, cascade));
    }
}

fn append_foreign_tables(out: &mut String, d: &Dump, comments: bool, cascade: bool)
    ensures
        final(out)@ == old(out)@ + stage_text(*d, Stage::ForeignTables, comments, cascade),
{
    append_heading(out, comments, "Foreign Tables", d.foreign_tables.len());
    let ghost start = out@;
    let ghost item = |x: ForeignTable| foreign_table_item(x, cascade);
    let make = |x: &ForeignTable| -> (r: Item)
        ensures
            told(r) == foreign_table_item(*x, cascade),
        { make_foreign_table_item(x, cascade) };
    append_list(out, &d.foreign_tables, comments, make, Ghost(item));
    proof {
        assert(stage_items(*d, Stage::ForeignTables, cascade) =~= d.foreign_tables@.map_values(item));
        assert(out@ =~= old(out)@ + stage_text(*d, Stage::ForeignTables, comments, cascade));
    }
}

fn append_user_mappings(out: &mut String, d: &Dump, comments: bool, cascade: bool)
    ensures
        final(out)@ == old(out)@ + stage_text(*d, Stage::UserMappings, comments, cascade),
{
    append_heading(out, comments, "User Mappings", d.user_mappings.len());
    let ghost start = out@;
    let ghost item = |x: UserMapping| user_mapping_item(x, cascade);
    let make = |x: &UserMapping| -> (r: Item)
        ensures
            told(r) == user_mapping_item(*x, cascade),
        { make_user_mapping_item(x, cascade) };
    append_list(out, &d.user_mappings, comments, make, Ghost(item));
    proof {
        assert(stage_items(*d, Stage::UserMappings, cascade) =~= d.user_mappings@.map_values(item));
        assert(out@ =~= old(out)@ + stage_text(*d, Stage::UserMappings, comments, cascade));
    }
}

fn append_foreign_servers(out: &mut String, d: &Dump, comments: bool, cascade: bool)
    ensures
        final(out)@ == old(out)@ + stage_text(*d, Stage::ForeignServers, comments, cascade),
{
    append_heading(out, comments, "Foreign Servers", d.foreign_servers.len());
    let ghost start = out@;
    let ghost item = |x: ForeignServer| foreign_server_item(x, cascade);
    let make = |x: &ForeignServer| -> (r: Item)
        ensures
            told(r) == foreign_server_item(*x, cascade),
        { make_foreign_server_item(x, cascade) };
    append_list(out, &d.foreign_servers, comments, make, Ghost(item));
    proof {
        assert(stage_items(*d, Stage::ForeignServers, cascade) =~= d.foreign_servers@.map_values(item));
        assert(out@ =~= old(out)@ + stage_text(*d, Stage::ForeignServers, comments, cascade));
    }
}

fn append_foreign_data_wrappers(out: &mut String, d: &Dump, comments: bool, cascade: bool)
    ensures
        final(out)@ == old(out)@ + stage_text(*d, Stage::ForeignDataWrappers, comments, cascade),
{
    append_heading(out, comments, "Foreign Data Wrappers", d.foreign_data_wrappers.len());
    let ghost start = out@;
    let ghost item = |x: ForeignDataWrapper| foreign_data_wrapper_item(x, cascade);
    let make = |x: &ForeignDataWrapper| -> (r: Item)
        ensures
            told(r) == foreign_data_wrapper_item(*x, cascade),
        { make_foreign_data_wrapper_item(x, cascade) };
    append_list(out, &d.foreign_data_wrappers, comments, make, Ghost(item));
    proof {
        assert(stage_items(*d, Stage::ForeignDataWrappers, cascade) =~= d.foreign_data_wrappers@.map_values(item));
        assert(out@ =~= old(out)@ + stage_text(*d, Stage::ForeignDataWrappers, comments, cascade));
    }
}

fn append_statistics(out: &mut String, d: &Dump, comments: bool, cascade: bool)
    ensures
        final(out)@ == old(out)@ + stage_text(*d, Stage::Statistics, comments, cascade),
{
    append_heading(out, comments, "Statistics", d.statistics.len());
    let ghost start = out@;
    let ghost item = |x: Statistic| statistic_item(x, cascade);
    let make = |x: &Statistic| -> (r: Item)
        ensures
            told(r) == statistic_item(*x, cascade),
        { make_statistic_item(x, cascade) };
    append_list(out, &d.statistics, comments, make, Ghost(item));
    proof {
        assert(stage_items(*d, Stage::Statistics, cascade) =~= d.statistics@.map_values(item));
        assert(out@ =~= old(out)@ + stage_text(*d, Stage::Statistics, comments, cascade));
    }
}

fn append_casts(out: &mut String, d: &Dump, comments: bool, cascade: bool)
    ensures
        final(out)@ == old(out)@ + stage_text(*d, Stage::Casts, comments, cascade),
{
    append_heading(out, comments, "Casts", d.casts.len());
    let ghost start = out@;
    let ghost item = |x: Cast| cast_item(x, cascade);
    let make = |x: &Cast| -> (r: Item)
        ensures
            told(r) == cast_item(*x, cascade),
        { make_cast_item(x, cascade) };
    append_list(out, &d.casts, comments, make, Ghost(item));
    proof {
        assert(stage_items(*d, Stage::Casts, cascade) =~= d.casts@.map_values(item));
        assert(out@ =~= old(out)@ + stage_text(*d, Stage::Casts, comments, cascade));
    }
}

fn append_operators(out: &mut String, d: &Dump, comments: bool, cascade: bool)
    ensures
        final(out)@ == old(out)@ + stage_text(*d, Stage::Operators, comments, cascade),
{
    append_heading(out, comments, "Operators", d.operators.len());
    let ghost start = out@;
    let ghost item = |x: Operator| operator_item(x, cascade);
    let make = |x: &Operator| -> (r: Item)
        ensures
            told(r) == operator_item(*x, cascade),
        { make_operator_item(x, cascade) };
    append_list(out, &d.operators, comments, make, Ghost(item));
    proof {
        assert(stage_items(*d, Stage::Operators, cascade) =~= d.operators@.map_values(item));
        assert(out@ =~= old(out)@ + stage_text(*d, Stage::Operators, comments, cascade));
    }
}

fn append_routines(out: &mut String, d: &Dump, comments: bool, cascade: bool)
    ensures
        final(out)@ == old(out)@ + stage_text(*d, Stage::Routines, comments, cascade),
{
    append_heading(out, comments, "Routines", d.routines.len());
    let ghost start = out@;
    let ghost item = |x: Routine| routine_item(x, cascade);
    let make = |x: &Routine| -> (r: Item)
        ensures
            told(r) == routine_item(*x, cascade),
        { make_routine_item(x, cascade) };
    append_list(out, &d.routines, comments, make, Ghost(item));
    proof {
        assert(stage_items(*d, Stage::Routines, cascade) =~= d.routines@.map_values(item));
        assert(out@ =~= old(out)@ + stage_text(*d, Stage::Routines, comments, cascade));
    }
}

fn append_sequences(out: &mut String, d: &Dump, comments: bool, cascade: bool)
    ensures
        final(out)@ == old(out)@ + stage_text(*d, Stage::Sequences, comments, cascade),
{
    append_heading(out, comments, "Sequences", d.sequences.len());
    let ghost start = out@;
    let ghost item = |x: Sequence| sequence_item(x, cascade);
    let make = |x: &Sequence| -> (r: Item)
        ensures
            told(r) == sequence_item(*x, cascade),
        { make_sequence_item(x, cascade) };
    append_list(out, &d.sequences, comments, make, Ghost(item));
    proof {
        assert(stage_items(*d, Stage::Sequences, cascade) =~= d.sequences@.map_values(item));
        assert(out@ =~= old(out)@ + stage_text(*d, Stage::Sequences, comments, cascade));
    }
}

fn append_ts_configs(out: &mut String, d: &Dump, comments: bool, cascade: bool)
    ensures
        final(out)@ == old(out)@ + stage_text(*d, Stage::TextSearchConfigs, comments, cascade),
{
    append_heading(out, comments, "Text Search Configurations", d.ts_configs.len());
    let ghost start = out@;
    let ghost item = |x: TextSearchConfig| ts_config_item(x, cascade);
    let make = |x: &TextSearchConfig| -> (r: Item)
        ensures
            told(r) == ts_config_item(*x, cascade),
        { make_ts_config_item(x, cascade) };
    append_list(out, &d.ts_configs, comments, make, Ghost(item));
    proof {
        assert(stage_items(*d, Stage::TextSearchConfigs, cascade) =~= d.ts_configs@.map_values(item));
        assert(out@ =~= old(out)@ + stage_text(*d, Stage::TextSearchConfigs, comments, cascade));
    }
}

fn append_ts_dicts(out: &mut String, d: &Dump, comments: bool, cascade: bool)
    ensures
        final(out)@ == old(out)@ + stage_text(*d, Stage::TextSearchDicts, comments, cascade),
{
    append_heading(out, comments, "Text Search Dictionaries", d.ts_dicts.len());
    let ghost start = out@;
    let ghost item = |x: TextSearchDict| ts_dict_item(x, cascade);
    let make = |x: &TextSearchDict| -> (r: Item)
        ensures
            told(r) == ts_dict_item(*x, cascade),
        { make_ts_dict_item(x, cascade) };
    append_list(out, &d.ts_dicts, comments, make, Ghost(item));
    proof {
        assert(stage_items(*d, Stage::TextSearchDicts, cascade) =~= d.ts_dicts@.map_values(item));
        assert(out@ =~= old(out)@ + stage_text(*d, Stage::TextSearchDicts, comments, cascade));
    }
}

fn append_types(out: &mut String, d: &Dump, comments: bool, cascade: bool)
    ensures
        final(out)@ == old(out)@ + stage_text(*d, Stage::Types, comments, cascade),
{
    append_heading(out, comments, "Types", d.types.len());
    let ghost start = out@;
    let ghost item = |x: PgType| type_item(x, cascade);
    let make = |x: &PgType| -> (r: Item)
        ensures
            told(r) == type_item(*x, cascade),
        { make_type_item(x, cascade) };
    append_list(out, &d.types, comments, make, Ghost(item));
    proof {
        assert(stage_items(*d, Stage::Types, cascade) =~= d.types@.map_values(item));
        assert(out@ =~= old(out)@ + stage_text(*d, Stage::Types, comments, cascade));
    }
}

fn append_collations(out: &mut String, d: &Dump, comments: bool, cascade: bool)
    ensures
        final(out)@ == old(out)@ + stage_text(*d, Stage::Collations, comments, cascade),
{
    append_heading(out, comments, "Collations", d.collations.len());
    let ghost start = out@;
    let ghost item = |x: Collation| collation_item(x, cascade);
    let make = |x: &Collation| -> (r: Item)
        ensures
            told(r) == collation_item(*x, cascade),
        { make_collation_item(x, cascade) };
    append_list(out, &d.collations, comments, make, Ghost(item));
    proof {
        assert(stage_items(*d, Stage::Collations, cascade) =~= d.collations@.map_values(item));
        assert(out@ =~= old(out)@ + stage_text(*d, Stage::Collations, comments, cascade));
    }
}

fn append_extensions(out: &mut String, d: &Dump, comments: bool, cascade: bool)
    ensures
        final(out)@ == old(out)@ + stage_text(*d, Stage::Extensions, comments, cascade),
{
    append_heading(out, comments, "Extensions", d.extensions.len());
    let ghost start = out@;
    let ghost item = |x: Extension| extension_item(x, cascade);
    let make = |x: &Extension| -> (r: Item)
        ensures
            told(r) == extension_item(*x, cascade),
        { make_extension_item(x, cascade) };
    append_list(out, &d.extensions, comments, make, Ghost(item));
    proof {
        assert(stage_items(*d, Stage::Extensions, cascade) =~= d.extensions@.map_values(item));
        assert(out@ =~= old(out)@ + stage_text(*d, Stage::Extensions, comments, cascade));
    }
}

fn append_schemas(out: &mut String, d: &Dump, comments: bool, cascade: bool)
    ensures
        final(out)@ == old(out)@ + stage_text(*d, Stage::Schemas, comments, cascade),
{
    append_heading(out, comments, "Schemas", d.schemas.len());
    let ghost start = out@;
    let ghost item = |x: Schema| schema_item(x, cascade);
    let make = |x: &Schema| -> (r: Item)
        ensures
            told(r) == schema_item(*x, cascade),
        { make_schema_item(x, cascade) };
    append_list(out, &d.schemas, comments, make, Ghost(item));
    proof {
        assert(stage_items(*d, Stage::Schemas, cascade) =~= d.schemas@.map_values(item));
        assert(out@ =~= old(out)@ + stage_text(*d, Stage::Schemas, comments, cascade));
    }
}

/// Appends what a stage adds.
fn append_stage(out: &mut String, d: &Dump, stage: Stage, comments: bool, cascade: bool)
    ensures
        final(out)@ == old(out)@ + stage_text(*d, stage, comments, cascade),
{
    match stage {
        Stage::EventTriggers => append_event_triggers(out, d, comments, cascade),
        Stage::Subscriptions => append_subscriptions(out, d, comments, cascade),
        Stage::Publications => append_publications(out, d, comments, cascade),
        Stage::Rules => append_rules(out, d, comments, cascade),
        Stage::Views => append_views(out, d, comments, cascade),
        Stage::ForeignKeys => append_foreign_keys(out, d, comments, cascade),
        Stage::Tables => append_tables(out, d, comments, cascade),
        Stage::ForeignTables => append_foreign_tables(out, d, comments, cascade),
        Stage::UserMappings => append_user_mappings(out, d, comments, cascade),
        Stage::ForeignServers => append_foreign_servers(out, d, comments, cascade),
        Stage::ForeignDataWrappers => append_foreign_data_wrappers(out, d, comments, cascade),
        Stage::Statistics => append_statistics(out, d, comments, cascade),
        Stage::Casts => append_casts(out, d, comments, cascade),
        Stage::Operators => append_operators(out, d, comments, cascade),
        Stage::Routines => append_routines(out, d, comments, cascade),
        Stage::Sequences => append_sequences(out, d, comments, cascade),
        Stage::TextSearchConfigs => append_ts_configs(out, d, comments, cascade),
        Stage::TextSearchDicts => append_ts_dicts(out, d, comments, cascade),
        Stage::Types => append_types(out, d, comments, cascade),
        Stage::Collations => append_collations(out, d, comments, cascade),
        Stage::Extensions => append_extensions(out, d, comments, cascade),
        Stage::Schemas => append_schemas(out, d, comments, cascade),
    }
}

/// The stage at a place of the script.
fn stage_of_rank(rank: usize) -> (r: Stage)
    ensures
        r == stage_at(rank as int),
{
    match rank {
        0 => Stage::EventTriggers,
        1 => Stage::Subscriptions,
        2 => Stage::Publications,
        3 => Stage::Rules,
        4 => Stage::Views,
        5 => Stage::ForeignKeys,
        6 => Stage::Tables,
        7 => Stage::ForeignTables,
        8 => Stage::UserMappings,
        9 => Stage::ForeignServers,
        10 => Stage::ForeignDataWrappers,
        11 => Stage::Statistics,
        12 => Stage::Casts,
        13 => Stage::Operators,
        14 => Stage::Routines,
        15 => Stage::Sequences,
        16 => Stage::TextSearchConfigs,
        17 => Stage::TextSearchDicts,
        18 => Stage::Types,
        19 => Stage::Collations,
        20 => Stage::Extensions,
        _ => Stage::Schemas,
    }
}

/// Appending twice is appending once.
pub(crate) proof fn lemma_regroup(a: Seq<char>, b: Seq<char>, c: Seq<char>)
    ensures
        a + b + c == a + (b + c),
{
    assert(a + b + c =~= a + (b + c));
}

/// Appends the comment at the top of the script.
fn append_header(out: &mut String, d: &Dump)
    ensures
        final(out)@ == old(out)@ + script_header(*d),
{
    let info = d.get_info();
    out.append("/*\n");
    append_block(out, " Script generated by PostgreSQL Comparer (clear command)");
    out.append(" Database: ");
    out.append(d.configuration.database.as_str());
    out.append("\n");
    out.append(" Schema(s): ");
    out.append(d.configuration.scheme.as_str());
    out.append("\n");
    out.append("\n");
    out.append(info.as_str());
    out.append("\n");
    append_block(out, "*/");
    assert(out@ =~= old(out)@ + script_header(*d));
}

impl Dump {
    /// The SQL script that drops every object of the dump: event triggers,
    /// subscriptions, publications, rules, views (a view before the views it
    /// reads), tables (their foreign keys first, a partition before its parent),
    /// foreign tables, user mappings, servers and wrappers, statistics, casts,
    /// operators, routines, sequences, text search configurations and
    /// dictionaries, types, collations, extensions, schemas. Enum labels go with
    /// their types, and default privileges of a schema with the schema. Those that
    /// hold in every schema stay: they belong to a role, and no role is dropped.
    ///
    /// PostgreSQL does not drop a subscription that has a replication slot inside
    /// a transaction block, so the script of a dump that holds one is to be run
    /// without the single transaction.
    pub fn generate_clear_script(
        &self,
        use_single_transaction: bool,
        use_comments: bool,
        use_cascade: bool,
    ) -> (r: String)
        ensures
            r@ == clear_script(*self, use_single_transaction, use_comments, use_cascade),
    {
        let mut script = String::new();
        append_header(&mut script, self);
        if use_single_transaction {
            append_block(&mut script, "begin;");
        }
        let ghost start = script@;
        let mut rank: usize = 0;
        assert(start + stages_text(*self, 0, 0, use_comments, use_cascade) =~= start);
        while rank < STAGE_COUNT
            invariant
                rank <= STAGE_COUNT,
                script@ == start + stages_text(*self, 0, rank as int, use_comments, use_cascade),
            decreases STAGE_COUNT - rank,
        {
            append_stage(&mut script, self, stage_of_rank(rank), use_comments, use_cascade);
            proof {
                lemma_regroup(
                    start,
                    stages_text(*self, 0, rank as int, use_comments, use_cascade),
                    stage_text(*self, stage_at(rank as int), use_comments, use_cascade),
                );
            }
            rank += 1;
        }
        if use_single_transaction {
            append_block(&mut script, "\ncommit;");
        } else {
            assert(script@ =~= script@ + Seq::<char>::empty());
            assert(script_header(*self) =~= script_header(*self) + Seq::<char>::empty());
        }
        script
    }
}

} // verus!
