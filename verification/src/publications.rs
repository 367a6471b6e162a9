//! Publications and their tables.

use crate::grouping::{
    first_gets, left_by, lemma_left_next, seen_before, take_owned, values_owned, OwnedRow,
    QualifiedText,
};
use crate::objects::Publication;
use vstd::prelude::*;

verus! {

broadcast use vstd::string::group_string_axioms;

/// A publication as the catalog describes it.
#[derive(Debug, Clone, PartialEq, Eq)]
pub struct PublicationRow {
    pub name: String,
    pub owner: String,
    pub all_tables: bool,
    pub publish: String,
    pub comment: Option<String>,
}

/// A table of a publication.
#[derive(Debug, Clone, PartialEq, Eq)]
pub struct PublishedTableRow {
    pub publication: String,
    pub table: String,
}

/// The tables of a publication, in order.
pub open spec fn tables_of(rows: Seq<PublishedTableRow>, publication: Seq<char>) -> Seq<String>
    decreases rows.len(),
{
    if rows.len() == 0 {
        Seq::empty()
    } else if rows.last().publication@ == publication {
        tables_of(rows.drop_last(), publication).push(rows.last().table)
    } else {
        tables_of(rows.drop_last(), publication)
    }
}

/// The names of the publications.
pub open spec fn publication_names(rows: Seq<PublicationRow>) -> Seq<Seq<char>> {
    rows.map_values(|row: PublicationRow| row.name@)
}

/// `p` is what `row` describes, with these tables.
pub open spec fn is_publication_of(
    p: Publication,
    row: PublicationRow,
    tables: Seq<String>,
) -> bool {
    &&& p.name == row.name
    &&& p.owner == row.owner
    &&& p.all_tables == row.all_tables
    &&& p.publish == row.publish
    &&& p.tables@ == tables
    &&& p.comment == row.comment
    &&& p.hash is None
}

/// A publication belongs to no schema: its name with an empty one.
spec fn unqualified(names: Seq<Seq<char>>) -> Seq<QualifiedText> {
    names.map_values(|name: Seq<char>| (Seq::<char>::empty(), name))
}

/// The tables as rows that belong to the publications.
fn owned_tables(rows: Vec<PublishedTableRow>) -> (r: Vec<OwnedRow<String>>)
    ensures
        forall|name: Seq<char>| #[trigger]
            values_owned(r@, (Seq::<char>::empty(), name)) == tables_of(rows@, name),
{
    let ghost all = rows@;
    let mut owned: Vec<OwnedRow<String>> = Vec::new();
    for row in it: rows
        invariant
            it.seq() == all,
            forall|name: Seq<char>| #[trigger]
                values_owned(owned@, (Seq::<char>::empty(), name)) == tables_of(
                    all.take(it.index() as int),
                    name,
                ),
    {
        let ghost before = owned@;
        owned.push(OwnedRow { schema: String::new(), name: row.publication, value: row.table });
        proof {
            assert(owned@.drop_last() =~= before);
            let some = all.take(it.index() + 1);
            assert(some.drop_last() =~= all.take(it.index() as int));
            assert(owned@.last().schema@ =~= Seq::<char>::empty());
            assert forall|name: Seq<char>| #[trigger]
                values_owned(owned@, (Seq::<char>::empty(), name)) == tables_of(some, name) by {
                assert(values_owned(before, (Seq::<char>::empty(), name)) == tables_of(
                    some.drop_last(),
                    name,
                ));
            }
        }
    }
    assert(all.take(all.len() as int) =~= all);
    owned
}

/// The publications in the order of the rows, each with its tables. Where
/// publications share a name, the first of them takes the tables.
pub fn assemble_publications(
    rows: Vec<PublicationRow>,
    tables: Vec<PublishedTableRow>,
) -> (r: Vec<Publication>)
    ensures
        r@.len() == rows@.len(),
        forall|i: int|
            0 <= i < rows@.len() ==> is_publication_of(
                #[trigger] r@[i],
                rows@[i],
                first_gets(publication_names(rows@), i, tables_of(tables@, rows@[i].name@)),
            ),
{
    let ghost given = rows@;
    let ghost names = publication_names(given);
    let ghost keys = unqualified(names);
    let mut left = owned_tables(tables);
    let ghost all = left@;
    let mut publications: Vec<Publication> = Vec::new();
    for row in it: rows
        invariant
            it.seq() == given,
            names == publication_names(given),
            keys == unqualified(names),
            publications@.len() == it.index(),
            forall|name: Seq<char>| #[trigger]
                values_owned(all, (Seq::<char>::empty(), name)) == tables_of(tables@, name),
            left_by(left@, all, keys, it.index() as int),
            forall|i: int|
                0 <= i < publications@.len() ==> is_publication_of(
                    #[trigger] publications@[i],
                    given[i],
                    first_gets(names, i, tables_of(tables@, given[i].name@)),
                ),
    {
        let ghost i = it.index() as int;
        let ghost before = left@;
        let none = String::new();
        assert(keys[i] == (Seq::<char>::empty(), row.name@));
        let own = take_owned(&mut left, none.as_str(), row.name.as_str());
        proof {
            lemma_left_next(before, all, keys, i);
            lemma_seen_unqualified(names, i);
            assert(own@ =~= first_gets(names, i, tables_of(tables@, row.name@)));
        }
        let publication = Publication {
            name: row.name,
            owner: row.owner,
            all_tables: row.all_tables,
            publish: row.publish,
            tables: own,
            comment: row.comment,
            hash: None,
        };
        publications.push(publication);
    }
    publications
}

proof fn lemma_seen_unqualified(names: Seq<Seq<char>>, i: int)
    requires
        0 <= i < names.len(),
    ensures
        seen_before(unqualified(names), i, unqualified(names)[i])
            == seen_before(names, i, names[i]),
{
    let keys = unqualified(names);
    if seen_before(names, i, names[i]) {
        let j = choose|j: int| 0 <= j < i && #[trigger] names[j] == names[i];
        assert(keys[j] == keys[i]);
    }
    if seen_before(keys, i, keys[i]) {
        let j = choose|j: int| 0 <= j < i && #[trigger] keys[j] == keys[i];
        assert(names[j] == names[i]);
    }
}

} // verus!
