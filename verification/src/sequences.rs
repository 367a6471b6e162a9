//! Sequences.

use crate::defaults::{holds_text, is_list_or_empty, is_some_text, list_or_empty};
use crate::objects::Sequence;
use vstd::prelude::*;

verus! {

broadcast use vstd::string::group_string_axioms;

/// A sequence as the catalog describes it.
#[derive(Debug, Clone, PartialEq, Eq)]
pub struct SequenceRow {
    pub schema: String,
    pub name: String,
    pub owner: String,
    pub data_type: String,
    pub start_value: Option<i64>,
    pub min_value: Option<i64>,
    pub max_value: Option<i64>,
    pub increment_by: Option<i64>,
    pub cycle: bool,
    pub cache_size: Option<i64>,
    pub last_value: Option<i64>,
    pub owned_by_schema: Option<String>,
    pub owned_by_table: Option<String>,
    pub owned_by_column: Option<String>,
    pub comment: Option<String>,
    pub acl: Option<Vec<String>>,
    /// `i` where an identity column owns the sequence.
    pub dependency_type: Option<String>,
    /// `u` where the sequence is not logged.
    pub persistence: Option<String>,
}

/// `s` is what `row` describes.
pub open spec fn is_sequence_of(s: Sequence, row: SequenceRow) -> bool {
    &&& s.schema == row.schema
    &&& s.name == row.name
    &&& s.owner == row.owner
    &&& s.data_type == row.data_type
    &&& s.start_value == row.start_value
    &&& s.min_value == row.min_value
    &&& s.max_value == row.max_value
    &&& s.increment_by == row.increment_by
    &&& s.cycle == row.cycle
    &&& s.cache_size == row.cache_size
    &&& s.last_value == row.last_value
    &&& s.owned_by_schema == row.owned_by_schema
    &&& s.owned_by_table == row.owned_by_table
    &&& s.owned_by_column == row.owned_by_column
    &&& s.comment == row.comment
    &&& is_list_or_empty(s.acl, row.acl)
    &&& s.is_identity == is_some_text(row.dependency_type, "i"@)
    &&& s.is_unlogged == is_some_text(row.persistence, "u"@)
    &&& s.hash is None
}

impl Sequence {
    /// The sequence that a row describes. It is an identity where the dependency
    /// on its column is internal, and unlogged where the catalog says so.
    pub fn from_row(row: SequenceRow) -> (r: Self)
        ensures
            is_sequence_of(r, row),
    {
        let is_identity = holds_text(&row.dependency_type, "i");
        let is_unlogged = holds_text(&row.persistence, "u");
        Sequence {
            schema: row.schema,
            name: row.name,
            owner: row.owner,
            data_type: row.data_type,
            start_value: row.start_value,
            min_value: row.min_value,
            max_value: row.max_value,
            increment_by: row.increment_by,
            cycle: row.cycle,
            cache_size: row.cache_size,
            last_value: row.last_value,
            owned_by_schema: row.owned_by_schema,
            owned_by_table: row.owned_by_table,
            owned_by_column: row.owned_by_column,
            comment: row.comment,
            acl: list_or_empty(row.acl),
            is_identity,
            is_unlogged,
            hash: None,
        }
    }
}

} // verus!
