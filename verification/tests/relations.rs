//! Tables, views and foreign tables.

use pgdump::foreign_tables::{assemble_foreign_tables, ForeignColumnRow, ForeignTableRow};
use pgdump::grouping::OwnedRow;
use pgdump::objects::Table;
use pgdump::tables::{sort_tables, TableRow};
use pgdump::views::{
    assemble_views, check_option_to_keep, storage_to_keep, MaterializedViewRow, ViewRow,
};

fn table_row(schema: &str, name: &str) -> TableRow {
    TableRow {
        schema: schema.to_string(),
        name: name.to_string(),
        raw_schema: schema.to_string(),
        raw_name: name.to_string(),
        owner: "o".to_string(),
        space: None,
        has_indexes: true,
        has_triggers: false,
        has_rules: false,
        has_rowsecurity: false,
        comment: None,
        access_method: Some("heap".to_string()),
        persistence: Some(b'p' as i8),
        storage_parameters: None,
        replica_identity: None,
        force_rowsecurity: None,
        inherits_from: None,
        typed_table_type: None,
        acl: None,
    }
}

#[test]
fn tables_are_read_from_rows() {
    let plain = Table::from_row(table_row("s", "t"));
    assert_eq!(plain.access_method, None);
    assert!(!plain.is_unlogged && !plain.force_rowsecurity);
    assert_eq!(plain.replica_identity, None);
    assert!(plain.constraints.is_empty() && plain.partition_of.is_none());
    let mut row = table_row("s", "t");
    row.access_method = Some("columnar".to_string());
    row.persistence = Some(b'u' as i8);
    row.force_rowsecurity = Some(true);
    row.inherits_from = Some(vec!["s.p".to_string()]);
    let other = Table::from_row(row);
    assert_eq!(other.access_method.as_deref(), Some("columnar"));
    assert!(other.is_unlogged && other.force_rowsecurity);
    assert_eq!(other.inherits_from, ["s.p"]);
}

#[test]
fn replica_identities_have_letters() {
    for (code, letter) in [(b'n', "n"), (b'f', "f"), (b'i', "i"), (b'd', "d"), (b'?', "d")] {
        let mut row = table_row("s", "t");
        row.replica_identity = Some(code as i8);
        assert_eq!(Table::from_row(row).replica_identity.as_deref(), Some(letter));
    }
    let mut row = table_row("s", "t");
    row.replica_identity = Some(-1);
    assert_eq!(Table::from_row(row).replica_identity.as_deref(), Some("d"));
}

#[test]
fn tables_are_sorted_by_schema_and_name() {
    let mut tables: Vec<Table> = [("b", "a"), ("a", "z"), ("a", "b"), ("b", "A"), ("a", "b")]
        .iter()
        .map(|(schema, name)| Table::from_row(table_row(schema, name)))
        .collect();
    tables[2].comment = Some("first".to_string());
    let mut expected = tables.clone();
    expected.sort_by(|a, b| (&a.schema, &a.name).cmp(&(&b.schema, &b.name)));
    let sorted = sort_tables(tables);
    assert_eq!(sorted, expected);
    assert_eq!(sorted[0].comment.as_deref(), Some("first"));
    assert_eq!(sorted[3].name, "A");
}

fn view_row(name: &str) -> ViewRow {
    ViewRow {
        schema: "s".to_string(),
        name: name.to_string(),
        definition: "select 1".to_string(),
        table_relation: vec!["s.t".to_string()],
        owner: None,
        comment: None,
        acl: None,
        security_invoker: true,
        check_option: Some("CASCADED".to_string()),
    }
}

fn materialized_row(name: &str) -> MaterializedViewRow {
    MaterializedViewRow {
        schema: "s".to_string(),
        name: name.to_string(),
        definition: "select 2".to_string(),
        table_relation: Vec::new(),
        owner: Some("o".to_string()),
        comment: None,
        acl: None,
        storage_options: None,
        tablespace: Some("fast".to_string()),
    }
}

fn comment(view: &str, column: &str) -> OwnedRow<(String, String)> {
    OwnedRow {
        schema: "s".to_string(),
        name: view.to_string(),
        value: (column.to_string(), format!("on {column}")),
    }
}

#[test]
fn views_get_the_comments_on_their_columns() {
    let views = assemble_views(
        vec![view_row("a"), view_row("b"), view_row("a")],
        vec![materialized_row("m"), materialized_row("b")],
        vec![
            comment("b", "y"),
            comment("a", "x"),
            comment("m", "z"),
            comment("b", "w"),
            comment("lost", "q"),
        ],
    );
    let columns: Vec<Vec<&str>> = views
        .iter()
        .map(|v| v.column_comments.iter().map(|c| c.0.as_str()).collect())
        .collect();
    assert_eq!(columns, [vec!["x"], vec!["y", "w"], vec![], vec!["z"], vec![]]);
    assert_eq!(views[0].column_comments[0].1, "on x");
    let materialized: Vec<bool> = views.iter().map(|v| v.is_materialized).collect();
    assert_eq!(materialized, [false, false, false, true, true]);
    assert_eq!(views[0].check_option.as_deref(), Some("cascaded"));
    assert!(views[0].security_invoker && !views[3].security_invoker);
    assert_eq!(views[3].tablespace.as_deref(), Some("fast"));
    assert_eq!(views[3].owner, "o");
    assert_eq!(views[0].table_relation, ["s.t"]);
}

#[test]
fn comments_of_another_schema_are_not_taken() {
    let mut other = comment("a", "x");
    other.schema = "t".to_string();
    let views = assemble_views(vec![view_row("a")], Vec::new(), vec![other]);
    assert!(views[0].column_comments.is_empty());
}

#[test]
fn check_options_are_lowered() {
    assert_eq!(check_option_to_keep(None), None);
    assert_eq!(check_option_to_keep(Some("nOnE".to_string())), None);
    assert_eq!(
        check_option_to_keep(Some("LOCAL".to_string())).as_deref(),
        Some("local")
    );
    assert_eq!(
        check_option_to_keep(Some("\u{c4}\u{3a3}".to_string())).as_deref(),
        Some("\u{e4}\u{3c2}")
    );
}

#[test]
fn storage_options_leave_out_security_invoker() {
    let options = |list: &[&str]| Some(list.iter().map(|o| o.to_string()).collect::<Vec<String>>());
    assert_eq!(storage_to_keep(None), None);
    assert_eq!(storage_to_keep(options(&[])), None);
    assert_eq!(storage_to_keep(options(&["security_invoker=true"])), None);
    assert_eq!(
        storage_to_keep(options(&["fillfactor=70", "security_invoker=on", "security_invoker"])),
        options(&["fillfactor=70", "security_invoker"])
    );
}

#[test]
fn foreign_tables_get_their_columns() {
    let table = |name: &str| ForeignTableRow {
        schema: "s".to_string(),
        name: name.to_string(),
        server: "srv".to_string(),
        owner: None,
        options: None,
        comment: None,
        acl: Some(vec!["x".to_string()]),
    };
    let column = |table: &str, name: &str, is_not_null: bool| OwnedRow {
        schema: "s".to_string(),
        name: table.to_string(),
        value: ForeignColumnRow {
            name: name.to_string(),
            data_type: "text".to_string(),
            is_not_null,
            column_default: Some("1".to_string()),
            options: None,
        },
    };
    let tables = assemble_foreign_tables(
        vec![table("a"), table("b"), table("a")],
        vec![column("b", "x", true), column("a", "y", false), column("b", "z", false)],
    );
    let names: Vec<Vec<&str>> = tables
        .iter()
        .map(|t| t.columns.iter().map(|c| c.name.as_str()).collect())
        .collect();
    assert_eq!(names, [vec!["y"], vec!["x", "z"], vec![]]);
    assert!(!tables[1].columns[0].is_nullable && tables[1].columns[1].is_nullable);
    assert!(tables[1].columns[0].options.is_empty());
    assert_eq!(tables[0].acl, ["x"]);
    assert_eq!(tables[0].owner, "");
}
