//! The dump itself, its schemas and its texts for people.

use pgdump::config::DumpConfig;
use pgdump::dump::{connection_warning, Collected, Dump};
use pgdump::objects::{Extension, Schema};
use pgdump::schemas::SchemaRow;

fn empty_dump() -> Dump {
    Dump::new(DumpConfig {
        host: "h".to_string(),
        port: "1".to_string(),
        user: "u".to_string(),
        password: "p".to_string(),
        database: "d".to_string(),
        scheme: "%".to_string(),
        ssl: true,
        file: "f".to_string(),
    })
}

fn schema(name: &str) -> Schema {
    Schema::new(name.to_string(), name.to_string(), None)
}

fn row(name: &str, has_usage: bool) -> SchemaRow {
    SchemaRow {
        name: format!("\"{name}\""),
        raw_name: name.to_string(),
        owner: Some("me".to_string()),
        comment: Some("text".to_string()),
        has_usage,
        acl: None,
    }
}

#[test]
fn a_new_dump_is_empty_and_keeps_its_configuration() {
    let dump = empty_dump();
    assert_eq!(dump.configuration.database, "d");
    assert!(dump.configuration.ssl);
    assert!(!dump.has_accessible_schemas());
    assert!(dump.tables.is_empty() && dump.user_mappings.is_empty());
}

#[test]
fn filter_names_the_schemas() {
    let mut dump = empty_dump();
    assert_eq!(dump.accessible_schema_filter(), "(NULL)");
    dump.schemas.push(schema("public"));
    assert_eq!(dump.accessible_schema_filter(), "('public')");
    dump.schemas.push(schema("data"));
    assert_eq!(dump.accessible_schema_filter(), "('public', 'data')");
    assert!(dump.has_accessible_schemas());
}

#[test]
fn filter_doubles_quotes() {
    let mut dump = empty_dump();
    dump.schemas.push(schema("it's"));
    dump.schemas.push(schema("''"));
    dump.schemas.push(schema("', '"));
    assert_eq!(
        dump.accessible_schema_filter(),
        "('it''s', '''''', ''', ''')"
    );
}

#[test]
fn filter_uses_raw_names() {
    let mut dump = empty_dump();
    dump.schemas.push(Schema::new(
        "\"My\"".to_string(),
        "My".to_string(),
        None,
    ));
    assert_eq!(dump.accessible_schema_filter(), "('My')");
}

#[test]
fn info_counts_the_objects() {
    let mut dump = empty_dump();
    for i in 0..12 {
        dump.schemas.push(schema(&format!("s{i}")));
    }
    dump.extensions.push(Extension {
        name: "e".to_string(),
        version: "1".to_string(),
        schema: "s".to_string(),
        owner: String::new(),
    });
    assert_eq!(
        dump.get_info(),
        "\tDump Info:\n\t\t- Schemas: 12\n\t\t- Extensions: 1\n\t\t- Types: 0\n\t\t- Enums: 0\n\t\t- Routines: 0\n\t\t- Tables: 0\n\t\t- Views: 0"
    );
}

#[test]
fn few_connections_give_a_warning() {
    assert_eq!(connection_warning(12), None);
    assert_eq!(connection_warning(u32::MAX), None);
    assert_eq!(
        connection_warning(11).unwrap(),
        "Warning: max_connections (11) is below the number of parallel dump branches (12). Branches will queue for connections and the dump may be significantly slower. Consider raising MAX_CONNECTIONS to at least 12."
    );
    assert!(connection_warning(0).unwrap().starts_with("Warning: max_connections (0) is"));
}

#[test]
fn only_usable_schemas_are_admitted() {
    let mut dump = empty_dump();
    dump.schemas.push(schema("before"));
    let lines = dump.admit_schemas(vec![row("a", true), row("b", false), row("c", true)]);
    assert_eq!(
        lines,
        [
            " - \"a\"",
            " - \"b\" (skipped: no USAGE privilege)",
            " - \"c\""
        ]
    );
    let names: Vec<&str> = dump.schemas.iter().map(|s| s.raw_name.as_str()).collect();
    assert_eq!(names, ["before", "a", "c"]);
    assert_eq!(dump.schemas[1].owner, "me");
    assert_eq!(dump.schemas[1].comment.as_deref(), Some("text"));
    assert!(dump.schemas[1].acl.is_empty());
    assert_eq!(dump.schemas[1].hash, None);
}

#[test]
fn a_schema_without_owner_has_an_empty_one() {
    let mut dump = empty_dump();
    let mut bare = row("a", true);
    bare.owner = None;
    bare.acl = Some(vec!["x=U/me".to_string()]);
    dump.admit_schemas(vec![bare]);
    assert_eq!(dump.schemas[0].owner, "");
    assert_eq!(dump.schemas[0].acl, ["x=U/me"]);
}

#[test]
fn what_was_collected_replaces_what_was_held() {
    let mut dump = empty_dump();
    dump.schemas.push(schema("s"));
    let extension = Extension {
        name: "e".to_string(),
        version: "1".to_string(),
        schema: "s".to_string(),
        owner: String::new(),
    };
    let mut other = extension.clone();
    other.name = "old".to_string();
    dump.extensions.push(other);
    dump.absorb(Collected {
        types: Vec::new(),
        enums: Vec::new(),
        extensions: vec![extension.clone()],
        sequences: Vec::new(),
        routines: Vec::new(),
        tables: Vec::new(),
        views: Vec::new(),
        foreign_tables: Vec::new(),
        statistics: Vec::new(),
        rules: Vec::new(),
        event_triggers: Vec::new(),
        collations: Vec::new(),
        ts_configs: Vec::new(),
        ts_dicts: Vec::new(),
        operators: Vec::new(),
        casts: Vec::new(),
        default_privileges: Vec::new(),
        publications: Vec::new(),
        subscriptions: Vec::new(),
        foreign_data_wrappers: Vec::new(),
        foreign_servers: Vec::new(),
        user_mappings: Vec::new(),
    });
    assert_eq!(dump.extensions, [extension]);
    assert_eq!(dump.schemas.len(), 1);
    assert_eq!(dump.configuration.file, "f");
}
