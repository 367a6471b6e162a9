//! Tables.

use crate::defaults::{drop_text, is_list_or_empty, list_or_empty, unless_text};
use crate::objects::{Table, TableConstraint};
use crate::order::{
    is_ordering, is_sorted, law_stable_sort, law_text_order, sort_stably, stably_sorted, text_at_most,
    text_le,
};
use crate::text::same_text;
use vstd::prelude::*;

verus! {

broadcast use vstd::string::group_string_axioms;

/// The code of `u`.
pub const UNLOGGED: i8 = 117;

/// A table as the catalog describes it.
#[derive(Debug, Clone, PartialEq, Eq)]
pub struct TableRow {
    pub schema: String,
    pub name: String,
    pub raw_schema: String,
    pub raw_name: String,
    pub owner: String,
    pub space: Option<String>,
    pub has_indexes: bool,
    pub has_triggers: bool,
    pub has_rules: bool,
    pub has_rowsecurity: bool,
    pub comment: Option<String>,
    pub access_method: Option<String>,
    /// The code of `u` where the table is not logged.
    pub persistence: Option<i8>,
    pub storage_parameters: Option<Vec<String>>,
    /// The code of the letter of the replica identity.
    pub replica_identity: Option<i8>,
    pub force_rowsecurity: Option<bool>,
    pub inherits_from: Option<Vec<String>>,
    pub typed_table_type: Option<String>,
    pub acl: Option<Vec<String>>,
}

/// The letter of a replica identity: `n`, `f` or `i`, and `d` for any other code.
pub open spec fn replica_identity_name(code: i8) -> Seq<char> {
    if code == 110 {
        "n"@
    } else if code == 102 {
        "f"@
    } else if code == 105 {
        "i"@
    } else {
        "d"@
    }
}

/// `t` is what `row` describes, with nothing filled in that other queries give.
pub open spec fn is_table_of(t: Table, row: TableRow) -> bool {
    &&& t.schema == row.schema
    &&& t.name == row.name
    &&& t.raw_schema == row.raw_schema
    &&& t.raw_name == row.raw_name
    &&& t.owner == row.owner
    &&& t.space == row.space
    &&& t.has_indexes == row.has_indexes
    &&& t.has_triggers == row.has_triggers
    &&& t.has_rules == row.has_rules
    &&& t.has_rowsecurity == row.has_rowsecurity
    &&& t.columns@ == Seq::<String>::empty()
    &&& t.constraints@ == Seq::<TableConstraint>::empty()
    &&& t.indexes@ == Seq::<String>::empty()
    &&& t.triggers@ == Seq::<String>::empty()
    &&& t.policies@ == Seq::<String>::empty()
    &&& t.definition is None
    &&& t.partition_key is None
    &&& t.partition_of is None
    &&& t.partition_bound is None
    &&& t.comment == row.comment
    &&& t.access_method == unless_text(row.access_method, "heap"@)
    &&& t.is_unlogged == (row.persistence == Some(UNLOGGED))
    &&& t.storage_parameters == row.storage_parameters
    &&& t.replica_identity is Some <==> row.replica_identity is Some
    &&& t.replica_identity matches Some(text) ==> text@ == replica_identity_name(row.replica_identity->0)
    &&& t.force_rowsecurity == (row.force_rowsecurity == Some(true))
    &&& is_list_or_empty(t.inherits_from, row.inherits_from)
    &&& t.typed_table_type == row.typed_table_type
    &&& is_list_or_empty(t.acl, row.acl)
    &&& t.hash is None
}

/// The letter of a replica identity.
fn replica_identity_of(code: i8) -> (r: String)
    ensures
        r@ == replica_identity_name(code),
{
    if code == 110 {
        "n".to_string()
    } else if code == 102 {
        "f".to_string()
    } else if code == 105 {
        "i".to_string()
    } else {
        "d".to_string()
    }
}

impl Table {
    /// The table that a row describes. The usual access method is left out.
    pub fn from_row(row: TableRow) -> (r: Self)
        ensures
            is_table_of(r, row),
    {
        let is_unlogged: bool = match row.persistence {
            Some(code) => code == UNLOGGED,
            None => false,
        };
        let replica_identity: Option<String> = match row.replica_identity {
            Some(code) => Some(replica_identity_of(code)),
            None => None,
        };
        Table {
            schema: row.schema,
            name: row.name,
            raw_schema: row.raw_schema,
            raw_name: row.raw_name,
            owner: row.owner,
            space: row.space,
            has_indexes: row.has_indexes,
            has_triggers: row.has_triggers,
            has_rules: row.has_rules,
            has_rowsecurity: row.has_rowsecurity,
            columns: Vec::new(),
            constraints: Vec::new(),
            indexes: Vec::new(),
            triggers: Vec::new(),
            policies: Vec::new(),
            definition: None,
            partition_key: None,
            partition_of: None,
            partition_bound: None,
            comment: row.comment,
            access_method: drop_text(row.access_method, "heap"),
            is_unlogged,
            storage_parameters: row.storage_parameters,
            replica_identity,
            force_rowsecurity: row.force_rowsecurity.unwrap_or(false),
            inherits_from: list_or_empty(row.inherits_from),
            typed_table_type: row.typed_table_type,
            acl: list_or_empty(row.acl),
            hash: None,
        }
    }
}

/// The table `a` comes no later than `b`: by schema, and by name within a schema.
pub open spec fn table_no_later(a: Table, b: Table) -> bool {
    if a.schema@ == b.schema@ {
        text_le(a.name@, b.name@)
    } else {
        text_le(a.schema@, b.schema@)
    }
}

/// Tables by schema and name.
pub open spec fn by_schema_and_name() -> spec_fn(Table, Table) -> bool {
    |a: Table, b: Table| table_no_later(a, b)
}

/// The tables by schema and name.
pub fn sort_tables(tables: Vec<Table>) -> (r: Vec<Table>)
    ensures
        r@ == stably_sorted(tables@, by_schema_and_name()),
{
    let in_order = |a: &Table, b: &Table| -> (r: bool)
        ensures
            r == table_no_later(*a, *b),
        {
            if same_text(a.schema.as_str(), b.schema.as_str()) {
                text_at_most(a.name.as_str(), b.name.as_str())
            } else {
                text_at_most(a.schema.as_str(), b.schema.as_str())
            }
        };
    sort_stably(tables, in_order, Ghost(by_schema_and_name()))
}

/// Sorting keeps every table once and puts them in order.
pub proof fn law_tables_in_order(tables: Seq<Table>)
    ensures
        is_sorted(stably_sorted(tables, by_schema_and_name()), by_schema_and_name()),
        stably_sorted(tables, by_schema_and_name()).to_multiset() == tables.to_multiset(),
{
    lemma_table_ordering();
    law_stable_sort(tables, by_schema_and_name());
}

/// Any two tables can be ordered by schema and name.
pub(crate) proof fn lemma_table_ordering()
    ensures
        is_ordering(by_schema_and_name()),
{
    let le = by_schema_and_name();
    assert forall|x: Table, y: Table| #[trigger] le(x, y) || le(y, x) by {
        law_text_order(x.schema@, y.schema@, y.schema@);
        law_text_order(x.name@, y.name@, y.name@);
    }
    assert forall|x: Table, y: Table, z: Table| #[trigger] le(x, y) && #[trigger] le(y, z) implies le(
        x,
        z,
    ) by {
        law_text_order(x.schema@, y.schema@, z.schema@);
        law_text_order(y.schema@, x.schema@, z.schema@);
        law_text_order(x.name@, y.name@, z.name@);
    }
}

} // verus!
