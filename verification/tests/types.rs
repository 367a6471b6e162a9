//! Types, domain constraints and enum labels.

use pgdump::objects::{CompositeAttribute, DomainConstraint, PgEnum, PgType};
use pgdump::types::{
    assemble_types, attach_domain_constraints, attach_enum_labels, RangeMetadata, TypeRow,
};

fn type_row(oid: u32, name: &str) -> TypeRow {
    TypeRow {
        oid,
        schema: "s".to_string(),
        typname: name.to_string(),
        typnamespace: 2200,
        typowner: 10,
        owner: None,
        typlen: -1,
        typbyval: false,
        typtype: b'c' as i8,
        typcategory: b'C' as i8,
        typispreferred: false,
        typisdefined: true,
        typdelim: b',' as i8,
        typrelid: Some(7),
        typsubscript: None,
        typelem: None,
        typarray: None,
        typinput: "record_in".to_string(),
        typoutput: "record_out".to_string(),
        typreceive: None,
        typsend: None,
        typmodin: None,
        typmodout: None,
        typanalyze: None,
        typalign: b'i' as i8,
        typstorage: b'x' as i8,
        typnotnull: false,
        typbasetype: None,
        typtypmod: Some(-1),
        typndims: 0,
        typcollation: None,
        typdefault: None,
        formatted_basetype: None,
        domain_collation_name: None,
        comment: None,
        acl: Vec::new(),
    }
}

fn attribute(name: &str) -> CompositeAttribute {
    CompositeAttribute {
        name: name.to_string(),
        data_type: "text".to_string(),
    }
}

fn range(subtype: &str) -> RangeMetadata {
    RangeMetadata {
        subtype: subtype.to_string(),
        collation: None,
        opclass: "ops".to_string(),
        canonical: None,
        subdiff: Some("diff".to_string()),
        multirange_name: None,
    }
}

fn types_with(oids: &[u32]) -> Vec<PgType> {
    let rows = oids.iter().map(|oid| type_row(*oid, "t")).collect();
    assemble_types(rows, Vec::new(), Vec::new())
}

#[test]
fn attributes_and_ranges_are_found_by_number() {
    let types = assemble_types(
        vec![type_row(1, "one"), type_row(2, "two"), type_row(3, "three")],
        vec![
            (2, attribute("b")),
            (1, attribute("x")),
            (2, attribute("a")),
            (9, attribute("lost")),
        ],
        vec![(3, range("old")), (3, range("new")), (9, range("lost"))],
    );
    let names: Vec<Vec<&str>> = types
        .iter()
        .map(|t| t.composite_attributes.iter().map(|a| a.name.as_str()).collect())
        .collect();
    assert_eq!(names, [vec!["x"], vec!["b", "a"], vec![]]);
    assert_eq!(types[0].range_subtype, None);
    assert_eq!(types[2].range_subtype.as_deref(), Some("new"));
    assert_eq!(types[2].range_opclass.as_deref(), Some("ops"));
    assert_eq!(types[2].range_subdiff.as_deref(), Some("diff"));
    assert_eq!(types[2].range_canonical, None);
    assert_eq!(types[1].typname, "two");
    assert_eq!(types[1].owner, "");
    assert_eq!(types[1].typrelid, Some(7));
    assert_eq!(types[1].hash, None);
}

#[test]
fn the_first_of_two_types_with_one_number_takes_the_rows() {
    let types = assemble_types(
        vec![type_row(1, "first"), type_row(1, "second")],
        vec![(1, attribute("a"))],
        vec![(1, range("r"))],
    );
    assert_eq!(types[0].composite_attributes.len(), 1);
    assert!(types[0].range_subtype.is_some());
    assert!(types[1].composite_attributes.is_empty());
    assert!(types[1].range_subtype.is_none());
}

#[test]
fn domain_constraints_are_sorted_by_name() {
    let constraint = |name: &str, definition: &str| DomainConstraint {
        name: name.to_string(),
        definition: definition.to_string(),
    };
    let mut types = types_with(&[1, 2, 1]);
    types[1].domain_constraints.push(constraint("kept", ""));
    attach_domain_constraints(
        &mut types,
        vec![
            (1, constraint("b", "1")),
            (1, constraint("a", "2")),
            (1, constraint("b", "3")),
            (5, constraint("lost", "")),
        ],
    );
    assert_eq!(
        types[0].domain_constraints,
        [constraint("a", "2"), constraint("b", "1"), constraint("b", "3")]
    );
    assert_eq!(types[1].domain_constraints, [constraint("kept", "")]);
    assert!(types[2].domain_constraints.is_empty());
}

fn label(enumtypid: u32, order: f32, text: &str) -> PgEnum {
    PgEnum {
        oid: 0,
        enumtypid,
        enumsortorder_bits: order.to_bits(),
        enumlabel: text.to_string(),
    }
}

#[test]
fn enum_labels_are_sorted_by_their_order() {
    let mut types = types_with(&[1, 2]);
    let enums = vec![
        label(1, 2.0, "two"),
        label(1, -1.5, "minus"),
        label(2, 1.0, "other"),
        label(1, 0.0, "zero"),
        label(1, -0.0, "also zero"),
        label(1, 1.25, "between"),
        label(1, -3.0, "least"),
        label(7, 1.0, "lost"),
    ];
    attach_enum_labels(&mut types, &enums);
    assert_eq!(
        types[0].enum_labels,
        ["least", "minus", "zero", "also zero", "between", "two"]
    );
    assert_eq!(types[1].enum_labels, ["other"]);
}

#[test]
fn the_last_of_two_types_with_one_number_takes_the_labels() {
    let mut types = types_with(&[1, 1, 2]);
    types[0].enum_labels.push("kept".to_string());
    attach_enum_labels(&mut types, &vec![label(1, 1.0, "x")]);
    assert_eq!(types[0].enum_labels, ["kept"]);
    assert_eq!(types[1].enum_labels, ["x"]);
    assert!(types[2].enum_labels.is_empty());
}
