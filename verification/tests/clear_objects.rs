//! Every kind of object that a dump holds has its drop.

use pgdump::config::DumpConfig;
use pgdump::dump::Dump;
use pgdump::objects::{
    Cast, Collation, EventTrigger, ForeignDataWrapper, ForeignServer, ForeignTable, Operator,
    Publication, Rule, Statistic, Subscription, TextSearchConfig, TextSearchDict, UserMapping,
};

fn text(s: &str) -> String {
    s.to_string()
}

fn empty_dump() -> Dump {
    Dump::new(DumpConfig {
        host: text("localhost"),
        port: text("5432"),
        user: text("test"),
        password: text("test"),
        database: text("testdb"),
        scheme: text("public"),
        ssl: false,
        file: String::new(),
    })
}

fn make_operator(name: &str, left: Option<&str>, right: Option<&str>) -> Operator {
    Operator {
        schema: text("s"),
        name: text(name),
        owner: text("o"),
        left_type: left.map(text),
        right_type: right.map(text),
        result_type: text("boolean"),
        procedure: text("f"),
        commutator: None,
        negator: None,
        restrict: None,
        join: None,
        is_hashes: false,
        is_merges: false,
        comment: None,
        hash: None,
    }
}

fn make_publication(name: &str) -> Publication {
    Publication {
        name: text(name),
        owner: text("o"),
        all_tables: true,
        publish: text("insert"),
        tables: Vec::new(),
        comment: None,
        hash: None,
    }
}

fn make_collation(name: &str) -> Collation {
    Collation {
        schema: text("s"),
        name: text(name),
        owner: text("o"),
        provider: text("icu"),
        locale: None,
        lc_collate: None,
        lc_ctype: None,
        icu_locale: None,
        icu_rules: None,
        deterministic: true,
        comment: None,
        hash: None,
    }
}

/// A dump with one object of each kind that stands outside tables and schemas.
fn full_dump() -> Dump {
    let mut dump = empty_dump();
    dump.event_triggers.push(EventTrigger {
        name: text("et"),
        event: text("ddl_command_start"),
        function_name: text("f"),
        tags: Vec::new(),
        enabled: text("O"),
        owner: None,
        comment: None,
        hash: None,
    });
    dump.subscriptions.push(Subscription {
        name: text("sub"),
        owner: text("o"),
        connection: String::new(),
        publications: Vec::new(),
        enabled: true,
        comment: None,
        hash: None,
    });
    dump.publications.push(make_publication("pub"));
    dump.rules.push(Rule {
        schema: text("s"),
        table_name: text("t"),
        rule_name: text("ru"),
        definition: String::new(),
        comment: None,
        hash: None,
    });
    dump.foreign_tables.push(ForeignTable {
        schema: text("s"),
        name: text("ft"),
        server: text("srv"),
        owner: text("o"),
        options: Vec::new(),
        columns: Vec::new(),
        comment: None,
        acl: Vec::new(),
        hash: None,
    });
    dump.user_mappings.push(UserMapping {
        server_name: text("srv"),
        username: text("public"),
        options: Vec::new(),
        hash: None,
    });
    dump.foreign_servers.push(ForeignServer {
        name: text("srv"),
        owner: text("o"),
        fdw_name: text("fdw"),
        server_type: None,
        server_version: None,
        options: Vec::new(),
        comment: None,
        hash: None,
    });
    dump.foreign_data_wrappers.push(ForeignDataWrapper {
        name: text("fdw"),
        owner: text("o"),
        handler_func: None,
        validator_func: None,
        options: Vec::new(),
        comment: None,
        hash: None,
    });
    dump.statistics.push(Statistic {
        schema: text("s"),
        name: text("st"),
        owner: text("o"),
        table_schema: text("s"),
        table_name: text("t"),
        kinds: Vec::new(),
        columns: Vec::new(),
        definition: String::new(),
        comment: None,
        stxstattarget: None,
        hash: None,
    });
    dump.casts.push(Cast {
        source_type: text("text"),
        target_type: text("s.ty"),
        cast_method: text("f"),
        function_name: None,
        cast_context: text("e"),
        comment: None,
        hash: None,
    });
    dump.operators.push(make_operator("===", Some("integer"), Some("text")));
    dump.ts_configs.push(TextSearchConfig {
        schema: text("s"),
        name: text("cfg"),
        owner: text("o"),
        parser: text("default"),
        mappings: Vec::new(),
        comment: None,
        hash: None,
    });
    dump.ts_dicts.push(TextSearchDict {
        schema: text("s"),
        name: text("dict"),
        owner: text("o"),
        template: text("simple"),
        options: Vec::new(),
        comment: None,
        hash: None,
    });
    dump.collations.push(make_collation("co"));
    dump
}

fn statements(dump: &Dump, cascade: bool) -> Vec<String> {
    dump.generate_clear_script(false, false, cascade)
        .lines()
        .filter(|line| line.starts_with("drop"))
        .map(String::from)
        .collect()
}

#[test]
fn every_kind_is_dropped_in_the_order_of_the_stages() {
    let dump = full_dump();
    assert_eq!(
        statements(&dump, false),
        [
            "drop event trigger if exists et;",
            "drop subscription if exists sub;",
            "drop publication if exists pub;",
            "drop rule if exists ru on s.t;",
            "drop foreign table if exists s.ft;",
            "drop user mapping if exists for public server srv;",
            "drop server if exists srv;",
            "drop foreign data wrapper if exists fdw;",
            "drop statistics if exists s.st;",
            "drop cast if exists (text as s.ty);",
            "drop operator if exists s.=== (integer, text);",
            "drop text search configuration if exists s.cfg;",
            "drop text search dictionary if exists s.dict;",
            "drop collation if exists s.co;",
        ]
    );
    let cascaded = statements(&dump, true);
    assert_eq!(cascaded[3], "drop rule if exists ru on s.t cascade;");
    assert_eq!(cascaded[5], "drop user mapping if exists for public server srv;");
    assert_eq!(cascaded[10], "drop operator if exists s.=== (integer, text) cascade;");
}

#[test]
fn each_kind_has_its_heading() {
    let script = full_dump().generate_clear_script(false, true, false);
    for title in [
        "Event Triggers",
        "Subscriptions",
        "Publications",
        "Rules",
        "Foreign Tables",
        "User Mappings",
        "Foreign Servers",
        "Foreign Data Wrappers",
        "Statistics",
        "Casts",
        "Operators",
        "Text Search Configurations",
        "Text Search Dictionaries",
        "Collations",
    ] {
        let heading = format!("\n/* ---> Drop {title} --------------- */\n");
        assert_eq!(script.matches(&heading).count(), 1, "{title}");
    }
    assert!(script.contains(
        "/* Drop user mapping: for public server srv */\ndrop user mapping if exists for public server srv;\n\n"
    ));
    assert!(script.contains("/* Drop cast: (text as s.ty) */\n"));
}

#[test]
fn an_operator_without_an_operand_names_none() {
    let mut dump = empty_dump();
    dump.operators.push(make_operator("!", None, Some("bigint")));
    dump.operators.push(make_operator("!!", Some("bigint"), None));
    assert_eq!(
        statements(&dump, false),
        [
            "drop operator if exists s.! (none, bigint);",
            "drop operator if exists s.!! (bigint, none);",
        ]
    );
}

#[test]
fn objects_outside_tables_and_schemas_are_not_forgotten() {
    let mut dump = empty_dump();
    let header = dump.generate_clear_script(false, false, false);
    dump.collations.push(make_collation("co"));
    dump.operators.push(make_operator("===", Some("integer"), Some("integer")));
    dump.publications.push(make_publication("pub"));
    assert_eq!(
        dump.generate_clear_script(false, false, false),
        format!(
            "{header}drop publication if exists pub;\n\ndrop operator if exists s.=== (integer, integer);\n\ndrop collation if exists s.co;\n\n"
        )
    );
}
