//! Views and materialized views.

use crate::defaults::{is_list_or_empty, is_text_or_empty, list_or_empty, text_or_empty};
use crate::grouping::{
    first_gets, left_by, lemma_left_next, take_owned, values_owned, OwnedRow, QualifiedText,
};
use crate::objects;
use crate::text::{lowercase, same_ignoring_ascii_case, same_text_ignoring_ascii_case, starts_with};
use vstd::prelude::*;

verus! {

broadcast use vstd::string::group_string_axioms;

/// A column and the comment on it.
pub type ColumnComment = (String, String);

/// A view as the catalog describes it.
#[derive(Debug, Clone, PartialEq, Eq)]
pub struct ViewRow {
    pub schema: String,
    pub name: String,
    pub definition: String,
    pub table_relation: Vec<String>,
    pub owner: Option<String>,
    pub comment: Option<String>,
    pub acl: Option<Vec<String>>,
    pub security_invoker: bool,
    pub check_option: Option<String>,
}

/// A materialized view as the catalog describes it.
#[derive(Debug, Clone, PartialEq, Eq)]
pub struct MaterializedViewRow {
    pub schema: String,
    pub name: String,
    pub definition: String,
    pub table_relation: Vec<String>,
    pub owner: Option<String>,
    pub comment: Option<String>,
    pub acl: Option<Vec<String>>,
    pub storage_options: Option<Vec<String>>,
    pub tablespace: Option<String>,
}

/// `kept` is the check option to keep: none for `NONE` in any case, and
/// otherwise the option in lowercase.
pub open spec fn is_kept_check_option(kept: Option<String>, option: Option<String>) -> bool {
    if option is Some && !same_ignoring_ascii_case(option->0@, "NONE"@) {
        kept is Some && kept->0@ == lowercase(option->0@)
    } else {
        kept is None
    }
}

/// A storage option that is none of the view's own properties.
pub open spec fn is_storage_parameter() -> spec_fn(String) -> bool {
    |option: String| !"security_invoker="@.is_prefix_of(option@)
}

/// `kept` holds the options that are storage parameters, in order; it is absent
/// where there are none.
pub open spec fn is_kept_storage(
    kept: Option<Vec<String>>,
    options: Option<Vec<String>>,
) -> bool {
    if options is Some && options->0@.filter(is_storage_parameter()).len() > 0 {
        kept is Some && kept->0@ == options->0@.filter(is_storage_parameter())
    } else {
        kept is None
    }
}

/// `v` is the view that `row` describes, with these comments on its columns.
pub open spec fn is_view_of(v: objects::View, row: ViewRow, comments: Seq<ColumnComment>) -> bool {
    &&& v.schema == row.schema
    &&& v.name == row.name
    &&& v.definition == row.definition
    &&& v.table_relation == row.table_relation
    &&& is_text_or_empty(v.owner, row.owner)
    &&& v.comment == row.comment
    &&& !v.is_materialized
    &&& v.security_invoker == row.security_invoker
    &&& is_kept_check_option(v.check_option, row.check_option)
    &&& v.column_comments@ == comments
    &&& v.storage_parameters is None
    &&& v.tablespace is None
    &&& is_list_or_empty(v.acl, row.acl)
    &&& v.hash is None
}

/// `v` is the materialized view that `row` describes, with these comments on
/// its columns.
pub open spec fn is_materialized_view_of(
    v: objects::View,
    row: MaterializedViewRow,
    comments: Seq<ColumnComment>,
) -> bool {
    &&& v.schema == row.schema
    &&& v.name == row.name
    &&& v.definition == row.definition
    &&& v.table_relation == row.table_relation
    &&& is_text_or_empty(v.owner, row.owner)
    &&& v.comment == row.comment
    &&& v.is_materialized
    &&& !v.security_invoker
    &&& v.check_option is None
    &&& v.column_comments@ == comments
    &&& is_kept_storage(v.storage_parameters, row.storage_options)
    &&& v.tablespace == row.tablespace
    &&& is_list_or_empty(v.acl, row.acl)
    &&& v.hash is None
}

/// The names of the views, those of materialized views behind the others.
pub open spec fn view_names(
    regular: Seq<ViewRow>,
    materialized: Seq<MaterializedViewRow>,
) -> Seq<QualifiedText> {
    regular.map_values(|row: ViewRow| (row.schema@, row.name@)) + materialized.map_values(
        |row: MaterializedViewRow| (row.schema@, row.name@),
    )
}

/// The check option to keep.
pub fn check_option_to_keep(option: Option<String>) -> (r: Option<String>)
    ensures
        is_kept_check_option(r, option),
{
    match option {
        Some(text) => {
            if same_text_ignoring_ascii_case(text.as_str(), "NONE") {
                None
            } else {
                Some(text.as_str().to_lowercase())
            }
        },
        None => None,
    }
}

/// The storage parameters among the options.
pub fn storage_to_keep(options: Option<Vec<String>>) -> (r: Option<Vec<String>>)
    ensures
        is_kept_storage(r, options),
{
    match options {
        Some(list) => {
            let ghost all = list@;
            let mut kept: Vec<String> = Vec::new();
            proof {
                reveal(Seq::filter);
                assert(all.take(0).filter(is_storage_parameter()) =~= Seq::empty());
            }
            for option in it: list
                invariant
                    it.seq() == all,
                    kept@ == all.take(it.index() as int).filter(is_storage_parameter()),
            {
                proof {
                    let some = all.take(it.index() as int);
                    assert(all.take(it.index() + 1) =~= some.push(option));
                    some.lemma_filter_push(option, is_storage_parameter());
                }
                if !starts_with(option.as_str(), "security_invoker=") {
                    kept.push(option);
                }
            }
            assert(all.take(all.len() as int) =~= all);
            if kept.is_empty() {
                None
            } else {
                Some(kept)
            }
        },
        None => None,
    }
}

impl objects::View {
    /// The view that a row describes, with these comments on its columns.
    pub fn from_row(row: ViewRow, column_comments: Vec<ColumnComment>) -> (r: Self)
        ensures
            is_view_of(r, row, column_comments@),
    {
        objects::View {
            schema: row.schema,
            name: row.name,
            definition: row.definition,
            table_relation: row.table_relation,
            owner: text_or_empty(row.owner),
            comment: row.comment,
            is_materialized: false,
            security_invoker: row.security_invoker,
            check_option: check_option_to_keep(row.check_option),
            column_comments,
            storage_parameters: None,
            tablespace: None,
            acl: list_or_empty(row.acl),
            hash: None,
        }
    }

    /// The materialized view that a row describes, with these comments on its columns.
    pub fn from_materialized_row(
        row: MaterializedViewRow,
        column_comments: Vec<ColumnComment>,
    ) -> (r: Self)
        ensures
            is_materialized_view_of(r, row, column_comments@),
    {
        objects::View {
            schema: row.schema,
            name: row.name,
            definition: row.definition,
            table_relation: row.table_relation,
            owner: text_or_empty(row.owner),
            comment: row.comment,
            is_materialized: true,
            security_invoker: false,
            check_option: None,
            column_comments,
            storage_parameters: storage_to_keep(row.storage_options),
            tablespace: row.tablespace,
            acl: list_or_empty(row.acl),
            hash: None,
        }
    }
}

/// The views in the order of the rows, materialized ones behind the others,
/// each with the comments on its columns. Where views share a name, the first
/// of them takes the comments.
pub fn assemble_views(
    regular: Vec<ViewRow>,
    materialized: Vec<MaterializedViewRow>,
    column_comments: Vec<OwnedRow<ColumnComment>>,
) -> (r: Vec<objects::View>)
    ensures
        r@.len() == regular@.len() + materialized@.len(),
        forall|i: int|
            0 <= i < regular@.len() ==> is_view_of(
                #[trigger] r@[i],
                regular@[i],
                first_gets(
                    view_names(regular@, materialized@),
                    i,
                    values_owned(column_comments@, view_names(regular@, materialized@)[i]),
                ),
            ),
        forall|i: int|
            regular@.len() <= i < r@.len() ==> is_materialized_view_of(
                #[trigger] r@[i],
                materialized@[i - regular@.len()],
                first_gets(
                    view_names(regular@, materialized@),
                    i,
                    values_owned(column_comments@, view_names(regular@, materialized@)[i]),
                ),
            ),
{
    let ghost (rows, mat_rows) = (regular@, materialized@);
    let ghost names = view_names(rows, mat_rows);
    let ghost all = column_comments@;
    let mut left = column_comments;
    let mut views: Vec<objects::View> = Vec::new();
    for row in it: regular
        invariant
            it.seq() == rows,
            names == view_names(rows, mat_rows),
            views@.len() == it.index(),
            left_by(left@, all, names, it.index() as int),
            forall|i: int|
                0 <= i < views@.len() ==> is_view_of(
                    #[trigger] views@[i],
                    rows[i],
                    first_gets(names, i, values_owned(all, names[i])),
                ),
    {
        let ghost i = it.index() as int;
        let ghost before = left@;
        assert(names[i] == (row.schema@, row.name@));
        let comments = take_owned(&mut left, row.schema.as_str(), row.name.as_str());
        proof {
            assert(comments@ =~= first_gets(names, i, values_owned(all, names[i])));
            lemma_left_next(before, all, names, i);
        }
        views.push(objects::View::from_row(row, comments));
    }
    let ghost first = views@;
    for row in it: materialized
        invariant
            it.seq() == mat_rows,
            names == view_names(rows, mat_rows),
            first.len() == rows.len(),
            views@.len() == rows.len() + it.index(),
            views@.take(rows.len() as int) == first,
            left_by(left@, all, names, rows.len() + it.index()),
            forall|i: int|
                rows.len() <= i < views@.len() ==> is_materialized_view_of(
                    #[trigger] views@[i],
                    mat_rows[i - rows.len()],
                    first_gets(names, i, values_owned(all, names[i])),
                ),
    {
        let ghost i = rows.len() + it.index();
        let ghost before = left@;
        let ghost views_before = views@;
        assert(names[i] == (row.schema@, row.name@));
        let comments = take_owned(&mut left, row.schema.as_str(), row.name.as_str());
        proof {
            assert(comments@ =~= first_gets(names, i, values_owned(all, names[i])));
            lemma_left_next(before, all, names, i);
        }
        views.push(objects::View::from_materialized_row(row, comments));
        assert(views@.take(rows.len() as int) =~= views_before.take(rows.len() as int));
    }
    proof {
        assert forall|i: int| 0 <= i < rows.len() implies #[trigger] views@[i] == first[i] by {
            assert(views@.take(rows.len() as int)[i] == first[i]);
        }
    }
    views
}

} // verus!
