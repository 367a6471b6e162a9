//! The schemas that a dump takes its objects from.

use crate::defaults::{is_list_or_empty, is_text_or_empty, list_or_empty, text_or_empty};
use crate::dump::Dump;
use crate::objects::Schema;
use vstd::prelude::*;

verus! {

broadcast use vstd::string::group_string_axioms;

/// A schema as the catalog describes it.
#[derive(Debug, Clone, PartialEq, Eq)]
pub struct SchemaRow {
    pub name: String,
    pub raw_name: String,
    pub owner: Option<String>,
    pub comment: Option<String>,
    /// Whether the role that reads may use the schema.
    pub has_usage: bool,
    pub acl: Option<Vec<String>>,
}

/// `schema` is what `row` describes.
pub open spec fn is_schema_of(schema: Schema, row: SchemaRow) -> bool {
    &&& schema.name == row.name
    &&& schema.raw_name == row.raw_name
    &&& is_text_or_empty(schema.owner, row.owner)
    &&& schema.comment == row.comment
    &&& is_list_or_empty(schema.acl, row.acl)
    &&& schema.hash is None
}

/// The rows of the schemas that may be used, in order.
pub open spec fn usable(rows: Seq<SchemaRow>) -> Seq<SchemaRow> {
    rows.filter(|row: SchemaRow| row.has_usage)
}

/// What is reported of a row.
pub open spec fn schema_line(row: SchemaRow) -> Seq<char> {
    if row.has_usage {
        " - "@ + row.name@
    } else {
        " - "@ + row.name@ + " (skipped: no USAGE privilege)"@
    }
}

impl Schema {
    /// A schema without owner and privileges.
    pub fn new(name: String, raw_name: String, comment: Option<String>) -> (r: Self)
        ensures
            r.name == name,
            r.raw_name == raw_name,
            r.comment == comment,
            r.owner@ == Seq::<char>::empty(),
            r.acl@ == Seq::<String>::empty(),
            r.hash is None,
    {
        Schema { name, raw_name, owner: String::new(), comment, acl: Vec::new(), hash: None }
    }
}

impl Dump {
    /// Adds the schemas that may be used, in the order of the rows, and leaves
    /// the others out. Gives a line to report for each row.
    pub fn admit_schemas(&mut self, rows: Vec<SchemaRow>) -> (lines: Vec<String>)
        ensures
            final(self).schemas@.len() == old(self).schemas@.len() + usable(rows@).len(),
            final(self).schemas@.take(old(self).schemas@.len() as int) == old(self).schemas@,
            forall|k: int|
                0 <= k < usable(rows@).len() ==> is_schema_of(
                    #[trigger] final(self).schemas@[old(self).schemas@.len() + k],
                    usable(rows@)[k],
                ),
            *final(self) == (Dump { schemas: final(self).schemas, ..*old(self) }),
            lines@.len() == rows@.len(),
            forall|i: int|
                0 <= i < rows@.len() ==> (#[trigger] lines@[i])@ == schema_line(rows@[i]),
    {
        let ghost all = rows@;
        let ghost first = self.schemas@;
        let ghost is_usable = |row: SchemaRow| row.has_usage;
        let mut lines: Vec<String> = Vec::new();
        proof {
            reveal(Seq::filter);
            assert(usable(all.take(0)) =~= Seq::empty());
            assert(self.schemas@.take(first.len() as int) =~= first);
        }
        for row in it: rows
            invariant
                it.seq() == all,
                is_usable == (|row: SchemaRow| row.has_usage),
                first == old(self).schemas@,
                self.schemas@.len() == first.len() + usable(all.take(it.index() as int)).len(),
                self.schemas@.take(first.len() as int) == first,
                forall|k: int|
                    0 <= k < usable(all.take(it.index() as int)).len() ==> is_schema_of(
                        #[trigger] self.schemas@[first.len() + k],
                        usable(all.take(it.index() as int))[k],
                    ),
                *self == (Dump { schemas: self.schemas, ..*old(self) }),
                lines@.len() == it.index(),
                forall|i: int| 0 <= i < lines@.len() ==> (#[trigger] lines@[i])@ == schema_line(all[i]),
        {
            let ghost i = it.index() as int;
            let ghost before = self.schemas@;
            proof {
                assert(all.take(i + 1) =~= all.take(i).push(row));
                all.take(i).lemma_filter_push(row, is_usable);
            }
            let mut line = String::new();
            line.append(" - ");
            line.append(row.name.as_str());
            if row.has_usage {
                assert(line@ =~= schema_line(row));
                let mut schema = Schema::new(row.name, row.raw_name, row.comment);
                schema.owner = text_or_empty(row.owner);
                schema.acl = list_or_empty(row.acl);
                self.schemas.push(schema);
                assert(self.schemas@.take(first.len() as int) =~= before.take(first.len() as int));
            } else {
                line.append(" (skipped: no USAGE privilege)");
                assert(line@ =~= schema_line(row));
            }
            lines.push(line);
        }
        assert(all.take(all.len() as int) =~= all);
        lines
    }
}

} // verus!
