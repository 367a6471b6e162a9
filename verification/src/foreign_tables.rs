//! Foreign tables and their columns.

use crate::defaults::{is_list_or_empty, is_text_or_empty, list_or_empty, text_or_empty};
use crate::grouping::{
    first_gets, left_by, lemma_left_next, take_owned, values_owned, OwnedRow, QualifiedText,
};
use crate::objects::{ForeignTable, ForeignTableColumn};
use vstd::prelude::*;

verus! {

broadcast use vstd::string::group_string_axioms;

/// A column of a foreign table as the catalog describes it.
#[derive(Debug, Clone, PartialEq, Eq)]
pub struct ForeignColumnRow {
    pub name: String,
    pub data_type: String,
    pub is_not_null: bool,
    pub column_default: Option<String>,
    pub options: Option<Vec<String>>,
}

/// A foreign table as the catalog describes it.
#[derive(Debug, Clone, PartialEq, Eq)]
pub struct ForeignTableRow {
    pub schema: String,
    pub name: String,
    pub server: String,
    pub owner: Option<String>,
    pub options: Option<Vec<String>>,
    pub comment: Option<String>,
    pub acl: Option<Vec<String>>,
}

/// `column` is what `row` describes.
pub open spec fn is_column_of(column: ForeignTableColumn, row: ForeignColumnRow) -> bool {
    &&& column.name == row.name
    &&& column.data_type == row.data_type
    &&& column.is_nullable == !row.is_not_null
    &&& column.column_default == row.column_default
    &&& is_list_or_empty(column.options, row.options)
}

/// The columns are what the rows describe, one for one.
pub open spec fn are_columns_of(
    columns: Seq<ForeignTableColumn>,
    rows: Seq<ForeignColumnRow>,
) -> bool {
    &&& columns.len() == rows.len()
    &&& forall|k: int| 0 <= k < rows.len() ==> is_column_of(#[trigger] columns[k], rows[k])
}

/// `table` is what `row` describes, with columns that `columns` describe.
pub open spec fn is_foreign_table_of(
    table: ForeignTable,
    row: ForeignTableRow,
    columns: Seq<ForeignColumnRow>,
) -> bool {
    &&& table.schema == row.schema
    &&& table.name == row.name
    &&& table.server == row.server
    &&& is_text_or_empty(table.owner, row.owner)
    &&& is_list_or_empty(table.options, row.options)
    &&& are_columns_of(table.columns@, columns)
    &&& table.comment == row.comment
    &&& is_list_or_empty(table.acl, row.acl)
    &&& table.hash is None
}

/// The names of the foreign tables.
pub open spec fn foreign_table_names(rows: Seq<ForeignTableRow>) -> Seq<QualifiedText> {
    rows.map_values(|row: ForeignTableRow| (row.schema@, row.name@))
}

/// The columns that rows describe.
fn columns_of(rows: Vec<ForeignColumnRow>) -> (r: Vec<ForeignTableColumn>)
    ensures
        are_columns_of(r@, rows@),
{
    let ghost all = rows@;
    let mut columns: Vec<ForeignTableColumn> = Vec::new();
    for row in it: rows
        invariant
            it.seq() == all,
            are_columns_of(columns@, all.take(it.index() as int)),
    {
        let column = ForeignTableColumn {
            name: row.name,
            data_type: row.data_type,
            is_nullable: !row.is_not_null,
            column_default: row.column_default,
            options: list_or_empty(row.options),
        };
        columns.push(column);
    }
    assert(all.take(all.len() as int) =~= all);
    columns
}

/// The foreign tables in the order of the rows, each with its columns. Where
/// tables share a name, the first of them takes the columns.
pub fn assemble_foreign_tables(
    rows: Vec<ForeignTableRow>,
    columns: Vec<OwnedRow<ForeignColumnRow>>,
) -> (r: Vec<ForeignTable>)
    ensures
        r@.len() == rows@.len(),
        forall|i: int|
            0 <= i < rows@.len() ==> is_foreign_table_of(
                #[trigger] r@[i],
                rows@[i],
                first_gets(
                    foreign_table_names(rows@),
                    i,
                    values_owned(columns@, foreign_table_names(rows@)[i]),
                ),
            ),
{
    let ghost given = rows@;
    let ghost names = foreign_table_names(given);
    let ghost all = columns@;
    let mut left = columns;
    let mut tables: Vec<ForeignTable> = Vec::new();
    for row in it: rows
        invariant
            it.seq() == given,
            names == foreign_table_names(given),
            tables@.len() == it.index(),
            left_by(left@, all, names, it.index() as int),
            forall|i: int|
                0 <= i < tables@.len() ==> is_foreign_table_of(
                    #[trigger] tables@[i],
                    given[i],
                    first_gets(names, i, values_owned(all, names[i])),
                ),
    {
        let ghost i = it.index() as int;
        let ghost before = left@;
        assert(names[i] == (row.schema@, row.name@));
        let own = take_owned(&mut left, row.schema.as_str(), row.name.as_str());
        proof {
            assert(own@ =~= first_gets(names, i, values_owned(all, names[i])));
            lemma_left_next(before, all, names, i);
        }
        let table = ForeignTable {
            schema: row.schema,
            name: row.name,
            server: row.server,
            owner: text_or_empty(row.owner),
            options: list_or_empty(row.options),
            columns: columns_of(own),
            comment: row.comment,
            acl: list_or_empty(row.acl),
            hash: None,
        };
        tables.push(table);
    }
    tables
}

} // verus!
