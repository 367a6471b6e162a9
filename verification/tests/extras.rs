//! Statistics, text search and publications.

use pgdump::dump::Dump;
use pgdump::objects::{Statistic, TextSearchConfig, TextSearchDict};
use pgdump::publications::{assemble_publications, PublicationRow, PublishedTableRow};
use pgdump::statistics::StatisticRow;
use pgdump::text_search::{attach_mappings, ConfigOidRow, DictionaryRow, MappingRow};

#[test]
fn columns_stand_between_on_and_from() {
    assert_eq!(
        Dump::parse_statistics_columns("CREATE STATISTICS s.st (ndistinct) ON a, b  , c FROM s.t"),
        ["a", "b", "c"]
    );
    assert_eq!(
        Dump::parse_statistics_columns("create statistics x on \"From\", lower(B) from t"),
        ["\"From\"", "lower(B)"]
    );
    assert_eq!(
        Dump::parse_statistics_columns("x ON a FROM b ON c FROM d"),
        ["a"]
    );
    assert_eq!(Dump::parse_statistics_columns("x oN a fRoM b"), ["a"]);
}

#[test]
fn no_columns_without_on_or_from() {
    for def in ["", "CREATE STATISTICS x", "x FROM y", "x ON a, b", "x FROM y ON z", "ON a FROM b"] {
        assert!(Dump::parse_statistics_columns(def).is_empty(), "{def}");
    }
}

#[test]
fn letters_whose_capitals_are_longer_stay_in_place() {
    assert_eq!(
        Dump::parse_statistics_columns("CREATE STATISTICS \u{149} ON a, b FROM t"),
        ["a", "b"]
    );
    assert_eq!(
        Dump::parse_statistics_columns("\u{149} ON \u{e9}, c FROM t"),
        ["\u{e9}", "c"]
    );
    assert_eq!(
        Dump::parse_statistics_columns("x ON \u{131}b FROM t"),
        ["\u{131}b"]
    );
    assert_eq!(
        Dump::parse_statistics_columns("\u{df} ON \u{df}, \u{fb01} FROM t"),
        ["\u{df}", "\u{fb01}"]
    );
}

fn statistic_row() -> StatisticRow {
    StatisticRow {
        schema: "s".to_string(),
        name: "st".to_string(),
        owner: None,
        table_schema: "s".to_string(),
        table_name: "t".to_string(),
        kinds: Some(["d", "f", "m", "e", "x"].map(String::from).to_vec()),
        definition: "CREATE STATISTICS s.st ON a, b FROM s.t".to_string(),
        comment: None,
        target: Some(-1),
    }
}

#[test]
fn kinds_of_statistics_have_names() {
    let statistic = Statistic::from_row(statistic_row());
    assert_eq!(
        statistic.kinds,
        ["ndistinct", "dependencies", "mcv", "expressions", "x"]
    );
    assert_eq!(statistic.columns, ["a", "b"]);
    assert_eq!(statistic.definition, "CREATE STATISTICS s.st ON a, b FROM s.t");
    assert_eq!(statistic.stxstattarget, None);
    assert_eq!(statistic.owner, "");
    let mut row = statistic_row();
    row.kinds = None;
    row.target = Some(0);
    row.definition = "def".to_string();
    let statistic = Statistic::from_row(row);
    assert!(statistic.kinds.is_empty());
    assert!(statistic.columns.is_empty());
    assert_eq!(statistic.stxstattarget, Some(0));
}

fn config(schema: &str, name: &str) -> TextSearchConfig {
    TextSearchConfig {
        schema: schema.to_string(),
        name: name.to_string(),
        owner: "o".to_string(),
        parser: "p".to_string(),
        mappings: Vec::new(),
        comment: None,
        hash: None,
    }
}

fn oid(oid: u32, schema: &str, name: &str) -> ConfigOidRow {
    ConfigOidRow {
        oid,
        schema: schema.to_string(),
        name: name.to_string(),
    }
}

fn mapping(config_oid: u32, token_type: &str, dictionaries: &str) -> MappingRow {
    MappingRow {
        config_oid,
        token_type: token_type.to_string(),
        dictionaries: dictionaries.to_string(),
    }
}

#[test]
fn mappings_are_found_by_name_and_number() {
    let mut configs = vec![config("s", "a"), config("s", "b"), config("s", "a"), config("t", "a")];
    configs[1].mappings.push("kept".to_string());
    attach_mappings(
        &mut configs,
        &vec![oid(1, "s", "a"), oid(2, "s", "b"), oid(3, "t", "a"), oid(4, "u", "a")],
        &vec![
            mapping(3, "word", "simple"),
            mapping(1, "asciiword", "s.d1,s.d2"),
            mapping(1, "email", "simple"),
            mapping(4, "lost", "simple"),
        ],
    );
    assert_eq!(configs[0].mappings, ["asciiword:s.d1,s.d2", "email:simple"]);
    assert_eq!(configs[1].mappings, ["kept"]);
    assert!(configs[2].mappings.is_empty());
    assert_eq!(configs[3].mappings, ["word:simple"]);
}

#[test]
fn the_last_number_with_mappings_counts() {
    let mut configs = vec![config("s", "a")];
    attach_mappings(
        &mut configs,
        &vec![oid(1, "s", "a"), oid(2, "s", "a"), oid(3, "s", "a")],
        &vec![mapping(1, "x", "d"), mapping(2, "y", "d")],
    );
    assert_eq!(configs[0].mappings, ["y:d"]);
}

#[test]
fn dictionary_options_are_listed() {
    let row = |options: &str| DictionaryRow {
        schema: "s".to_string(),
        name: "d".to_string(),
        owner: "o".to_string(),
        template: "t".to_string(),
        options: options.to_string(),
        comment: None,
    };
    let dictionary = TextSearchDict::from_row(row("language = 'x', stopwords = 'y' ,"));
    assert_eq!(dictionary.options, ["language = 'x'", "stopwords = 'y'"]);
    assert_eq!(dictionary.template, "t");
    assert!(TextSearchDict::from_row(row("")).options.is_empty());
}

#[test]
fn publications_get_their_tables() {
    let publication = |name: &str| PublicationRow {
        name: name.to_string(),
        owner: "o".to_string(),
        all_tables: false,
        publish: "insert".to_string(),
        comment: None,
    };
    let table = |publication: &str, table: &str| PublishedTableRow {
        publication: publication.to_string(),
        table: table.to_string(),
    };
    let publications = assemble_publications(
        vec![publication("a"), publication("b"), publication("a")],
        vec![table("b", "s.x"), table("a", "s.y"), table("b", "s.z"), table("c", "s.w")],
    );
    assert_eq!(publications[0].tables, ["s.y"]);
    assert_eq!(publications[1].tables, ["s.x", "s.z"]);
    assert!(publications[2].tables.is_empty());
    assert_eq!(publications[1].publish, "insert");
}
