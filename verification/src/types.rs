//! User-defined types: their attributes, ranges, domain constraints and enum labels.

use crate::defaults::{is_text_or_empty, text_or_empty};
use crate::grouping::{
    first_gets, group_rows, groups_rows, holds_last_rows, last_rows, last_value_of,
    law_last_row_of_a_key, law_values_are_those_of_the_rows, law_values_of_the_rows_of_a_key,
    lemma_seen_next, seen_before, take_group, values_of,
};
use crate::objects::{CompositeAttribute, DomainConstraint, PgEnum, PgType};
use crate::order::{
    equals_of, is_ordering, is_sorted, law_stable_sort, law_text_order, sort_stably, stably_sorted, text_at_most,
    text_le,
};
use vstd::prelude::*;

verus! {

broadcast use {vstd::string::group_string_axioms, vstd::std_specs::hash::group_hash_axioms};

/// A type as the catalog describes it.
#[derive(Debug, Clone, PartialEq, Eq)]
pub struct TypeRow {
    pub oid: u32,
    pub schema: String,
    pub typname: String,
    pub typnamespace: u32,
    pub typowner: u32,
    pub owner: Option<String>,
    pub typlen: i16,
    pub typbyval: bool,
    pub typtype: i8,
    pub typcategory: i8,
    pub typispreferred: bool,
    pub typisdefined: bool,
    pub typdelim: i8,
    pub typrelid: Option<u32>,
    pub typsubscript: Option<String>,
    pub typelem: Option<u32>,
    pub typarray: Option<u32>,
    pub typinput: String,
    pub typoutput: String,
    pub typreceive: Option<String>,
    pub typsend: Option<String>,
    pub typmodin: Option<String>,
    pub typmodout: Option<String>,
    pub typanalyze: Option<String>,
    pub typalign: i8,
    pub typstorage: i8,
    pub typnotnull: bool,
    pub typbasetype: Option<u32>,
    pub typtypmod: Option<i32>,
    pub typndims: i32,
    pub typcollation: Option<u32>,
    pub typdefault: Option<String>,
    pub formatted_basetype: Option<String>,
    pub domain_collation_name: Option<String>,
    pub comment: Option<String>,
    pub acl: Vec<String>,
}

/// What a range type is made of.
#[derive(Debug, Clone, PartialEq, Eq)]
pub struct RangeMetadata {
    pub subtype: String,
    pub collation: Option<String>,
    pub opclass: String,
    pub canonical: Option<String>,
    pub subdiff: Option<String>,
    pub multirange_name: Option<String>,
}

/// `t` has what `row` says of it.
pub open spec fn has_row(t: PgType, row: TypeRow) -> bool {
    &&& t.oid == row.oid
    &&& t.schema == row.schema
    &&& t.typname == row.typname
    &&& t.typnamespace == row.typnamespace
    &&& t.typowner == row.typowner
    &&& is_text_or_empty(t.owner, row.owner)
    &&& t.typlen == row.typlen
    &&& t.typbyval == row.typbyval
    &&& t.typtype == row.typtype
    &&& t.typcategory == row.typcategory
    &&& t.typispreferred == row.typispreferred
    &&& t.typisdefined == row.typisdefined
    &&& t.typdelim == row.typdelim
    &&& t.typrelid == row.typrelid
    &&& t.typsubscript == row.typsubscript
    &&& t.typelem == row.typelem
    &&& t.typarray == row.typarray
    &&& t.typinput == row.typinput
    &&& t.typoutput == row.typoutput
    &&& t.typreceive == row.typreceive
    &&& t.typsend == row.typsend
    &&& t.typmodin == row.typmodin
    &&& t.typmodout == row.typmodout
    &&& t.typanalyze == row.typanalyze
    &&& t.typalign == row.typalign
    &&& t.typstorage == row.typstorage
    &&& t.typnotnull == row.typnotnull
    &&& t.typbasetype == row.typbasetype
    &&& t.typtypmod == row.typtypmod
    &&& t.typndims == row.typndims
    &&& t.typcollation == row.typcollation
    &&& t.typdefault == row.typdefault
    &&& t.formatted_basetype == row.formatted_basetype
    &&& t.domain_collation_name == row.domain_collation_name
    &&& t.comment == row.comment
    &&& t.acl == row.acl
}

/// `t` is made of what `range` says; of nothing where there is no range.
pub open spec fn has_range(t: PgType, range: Option<RangeMetadata>) -> bool {
    match range {
        Some(range) => {
            &&& t.range_subtype == Some(range.subtype)
            &&& t.range_collation == range.collation
            &&& t.range_opclass == Some(range.opclass)
            &&& t.range_canonical == range.canonical
            &&& t.range_subdiff == range.subdiff
            &&& t.multirange_name == range.multirange_name
        },
        None => {
            &&& t.range_subtype is None
            &&& t.range_collation is None
            &&& t.range_opclass is None
            &&& t.range_canonical is None
            &&& t.range_subdiff is None
            &&& t.multirange_name is None
        },
    }
}

/// The numbers of the types.
pub open spec fn row_oids(rows: Seq<TypeRow>) -> Seq<u32> {
    rows.map_values(|row: TypeRow| row.oid)
}

/// The type at `i`, put together from its row, its attributes and its range.
pub open spec fn is_assembled(
    t: PgType,
    rows: Seq<TypeRow>,
    i: int,
    attributes: Seq<(u32, CompositeAttribute)>,
    ranges: Seq<(u32, RangeMetadata)>,
) -> bool {
    &&& has_row(t, rows[i])
    &&& t.composite_attributes@ == first_gets(
        row_oids(rows),
        i,
        values_of(attributes, rows[i].oid),
    )
    &&& has_range(
        t,
        if seen_before(row_oids(rows), i, rows[i].oid) {
            None
        } else {
            last_value_of(ranges, rows[i].oid)
        },
    )
    &&& t.enum_labels@ == Seq::<String>::empty()
    &&& t.domain_constraints@ == Seq::<DomainConstraint>::empty()
    &&& t.hash is None
}

/// The type of a row with its attributes, of no range yet.
fn type_of(row: TypeRow, attributes: Vec<CompositeAttribute>) -> (r: PgType)
    ensures
        has_row(r, row),
        has_range(r, None),
        r.composite_attributes == attributes,
        r.enum_labels@ == Seq::<String>::empty(),
        r.domain_constraints@ == Seq::<DomainConstraint>::empty(),
        r.hash is None,
{
    PgType {
        oid: row.oid,
        schema: row.schema,
        typname: row.typname,
        typnamespace: row.typnamespace,
        typowner: row.typowner,
        owner: text_or_empty(row.owner),
        typlen: row.typlen,
        typbyval: row.typbyval,
        typtype: row.typtype,
        typcategory: row.typcategory,
        typispreferred: row.typispreferred,
        typisdefined: row.typisdefined,
        typdelim: row.typdelim,
        typrelid: row.typrelid,
        typsubscript: row.typsubscript,
        typelem: row.typelem,
        typarray: row.typarray,
        typinput: row.typinput,
        typoutput: row.typoutput,
        typreceive: row.typreceive,
        typsend: row.typsend,
        typmodin: row.typmodin,
        typmodout: row.typmodout,
        typanalyze: row.typanalyze,
        typalign: row.typalign,
        typstorage: row.typstorage,
        typnotnull: row.typnotnull,
        typbasetype: row.typbasetype,
        typtypmod: row.typtypmod,
        typndims: row.typndims,
        typcollation: row.typcollation,
        typdefault: row.typdefault,
        formatted_basetype: row.formatted_basetype,
        domain_collation_name: row.domain_collation_name,
        comment: row.comment,
        acl: row.acl,
        enum_labels: Vec::new(),
        domain_constraints: Vec::new(),
        composite_attributes: attributes,
        range_subtype: None,
        range_collation: None,
        range_opclass: None,
        range_canonical: None,
        range_subdiff: None,
        multirange_name: None,
        hash: None,
    }
}

/// One type per row. Attributes and ranges are found by the number of the type,
/// attributes in the order they come; of several ranges the last counts. Where
/// rows share a number, the first of them takes both.
pub fn assemble_types(
    rows: Vec<TypeRow>,
    attributes: Vec<(u32, CompositeAttribute)>,
    ranges: Vec<(u32, RangeMetadata)>,
) -> (r: Vec<PgType>)
    ensures
        r@.len() == rows@.len(),
        forall|i: int|
            0 <= i < rows@.len() ==> is_assembled(
                #[trigger] r@[i],
                rows@,
                i,
                attributes@,
                ranges@,
            ),
{
    let ghost all = rows@;
    let ghost keys = row_oids(all);
    let mut groups = group_rows(attributes);
    let mut found = last_rows(ranges);
    let mut types: Vec<PgType> = Vec::new();
    assert(groups_rows(groups@, attributes@));
    assert(holds_last_rows(found@, ranges@));
    for row in it: rows
        invariant
            it.seq() == all,
            keys == row_oids(all),
            types@.len() == it.index(),
            forall|k: u32|
                #![trigger groups@.contains_key(k)]
                groups@.contains_key(k) == (values_of(attributes@, k).len() > 0 && !seen_before(
                    keys,
                    it.index() as int,
                    k,
                )) && (groups@.contains_key(k) ==> groups@[k]@ == values_of(attributes@, k)),
            forall|k: u32|
                #![trigger found@.contains_key(k)]
                found@.contains_key(k) == (last_value_of(ranges@, k) is Some && !seen_before(
                    keys,
                    it.index() as int,
                    k,
                )) && (found@.contains_key(k) ==> Some(found@[k]) == last_value_of(ranges@, k)),
            forall|i: int|
                0 <= i < types@.len() ==> is_assembled(
                    #[trigger] types@[i],
                    all,
                    i,
                    attributes@,
                    ranges@,
                ),
    {
        let ghost i = it.index() as int;
        let ghost groups_before = groups@;
        let ghost found_before = found@;
        let oid: u32 = row.oid;
        assert(keys[i] == oid);
        assert(groups_before.contains_key(oid) == (values_of(attributes@, oid).len() > 0
            && !seen_before(keys, i, oid)));
        let own = take_group(&mut groups, oid);
        assert(own@ =~= first_gets(keys, i, values_of(attributes@, oid)));
        let mut t = type_of(row, own);
        match found.remove(&oid) {
            Some(range) => {
                t.range_subtype = Some(range.subtype);
                t.range_collation = range.collation;
                t.range_opclass = Some(range.opclass);
                t.range_canonical = range.canonical;
                t.range_subdiff = range.subdiff;
                t.multirange_name = range.multirange_name;
            },
            None => {},
        }
        assert(found_before.contains_key(oid) == (last_value_of(ranges@, oid) is Some
            && !seen_before(keys, i, oid)));
        assert(is_assembled(t, all, i, attributes@, ranges@));
        types.push(t);
        proof {
            lemma_seen_next(keys, i);
            assert forall|k: u32| #![trigger groups@.contains_key(k)]
                groups@.contains_key(k) == (values_of(attributes@, k).len() > 0 && !seen_before(
                    keys,
                    i + 1,
                    k,
                )) && (groups@.contains_key(k) ==> groups@[k]@ == values_of(attributes@, k)) by {
                assert(groups_before.contains_key(k) == (values_of(attributes@, k).len() > 0
                    && !seen_before(keys, i, k)));
            }
            assert forall|k: u32| #![trigger found@.contains_key(k)]
                found@.contains_key(k) == (last_value_of(ranges@, k) is Some && !seen_before(
                    keys,
                    i + 1,
                    k,
                )) && (found@.contains_key(k) ==> Some(found@[k]) == last_value_of(ranges@, k)) by {
                assert(found_before.contains_key(k) == (last_value_of(ranges@, k) is Some
                    && !seen_before(keys, i, k)));
            }
        }
    }
    types
}

/// The name of `a` comes no later than that of `b`.
pub open spec fn named_no_later(a: DomainConstraint, b: DomainConstraint) -> bool {
    text_le(a.name@, b.name@)
}

/// Domain constraints in the alphabetical order of their names.
pub open spec fn by_constraint_name() -> spec_fn(DomainConstraint, DomainConstraint) -> bool {
    |a: DomainConstraint, b: DomainConstraint| named_no_later(a, b)
}

/// The numbers of the types.
pub open spec fn type_oids(types: Seq<PgType>) -> Seq<u32> {
    types.map_values(|t: PgType| t.oid)
}

/// The constraints of the type at `i` once `rows` were attached: its own rows
/// by name, or what it had where it gets none.
pub open spec fn constraints_attached(
    types: Seq<PgType>,
    i: int,
    rows: Seq<(u32, DomainConstraint)>,
) -> Seq<DomainConstraint> {
    let own = first_gets(type_oids(types), i, values_of(rows, types[i].oid));
    if own.len() > 0 {
        stably_sorted(own, by_constraint_name())
    } else {
        types[i].domain_constraints@
    }
}

/// Gives each domain its check constraints, by name. Nothing else of the types
/// changes. Where types share a number, the first of them takes the constraints.
pub fn attach_domain_constraints(types: &mut Vec<PgType>, rows: Vec<(u32, DomainConstraint)>)
    ensures
        final(types)@.len() == old(types)@.len(),
        forall|i: int|
            0 <= i < old(types)@.len() ==> {
                &&& (#[trigger] final(types)@[i]).domain_constraints@ == constraints_attached(
                    old(types)@,
                    i,
                    rows@,
                )
                &&& final(types)@[i] == (PgType {
                    domain_constraints: final(types)@[i].domain_constraints,
                    ..old(types)@[i]
                })
            },
{
    let ghost all = types@;
    let ghost keys = type_oids(all);
    let mut groups = group_rows(rows);
    assert(groups_rows(groups@, rows@));
    let mut n: usize = 0;
    while n < types.len()
        invariant
            n <= types@.len() == all.len(),
            keys == type_oids(all),
            forall|k: u32|
                #![trigger groups@.contains_key(k)]
                groups@.contains_key(k) == (values_of(rows@, k).len() > 0 && !seen_before(
                    keys,
                    n as int,
                    k,
                )) && (groups@.contains_key(k) ==> groups@[k]@ == values_of(rows@, k)),
            forall|i: int| n <= i < all.len() ==> #[trigger] types@[i] == all[i],
            forall|i: int|
                0 <= i < n ==> {
                    &&& (#[trigger] types@[i]).domain_constraints@ == constraints_attached(
                        all,
                        i,
                        rows@,
                    )
                    &&& types@[i] == (PgType {
                        domain_constraints: types@[i].domain_constraints,
                        ..all[i]
                    })
                },
        decreases types@.len() - n,
    {
        let ghost groups_before = groups@;
        let oid: u32 = types[n].oid;
        assert(keys[n as int] == oid);
        assert(groups_before.contains_key(oid) == (values_of(rows@, oid).len() > 0 && !seen_before(
            keys,
            n as int,
            oid,
        )));
        let own = take_group(&mut groups, oid);
        assert(own@ =~= first_gets(keys, n as int, values_of(rows@, oid)));
        if !own.is_empty() {
            let in_order = |a: &DomainConstraint, b: &DomainConstraint| -> (r: bool)
                ensures
                    r == named_no_later(*a, *b),
                { text_at_most(a.name.as_str(), b.name.as_str()) };
            let sorted = sort_stably(own, in_order, Ghost(by_constraint_name()));
            types[n].domain_constraints = sorted;
        }
        proof {
            lemma_seen_next(keys, n as int);
            assert forall|k: u32| #![trigger groups@.contains_key(k)]
                groups@.contains_key(k) == (values_of(rows@, k).len() > 0 && !seen_before(
                    keys,
                    n + 1,
                    k,
                )) && (groups@.contains_key(k) ==> groups@[k]@ == values_of(rows@, k)) by {
                assert(groups_before.contains_key(k) == (values_of(rows@, k).len() > 0
                    && !seen_before(keys, n as int, k)));
            }
        }
        n += 1;
    }
}

/// The place of a single-precision number, given by its bits, among the others:
/// a smaller number has a smaller place, and both zeros have the same.
pub open spec fn sort_place(bits: u32) -> int {
    if bits < 0x8000_0000 {
        bits as int
    } else {
        0x8000_0000 - bits
    }
}

/// The sort order of `a` is no larger than that of `b`.
pub open spec fn sorts_no_later(a: PgEnum, b: PgEnum) -> bool {
    sort_place(a.enumsortorder_bits) <= sort_place(b.enumsortorder_bits)
}

/// Enum labels by their sort order.
pub open spec fn by_sort_order() -> spec_fn(PgEnum, PgEnum) -> bool {
    |a: PgEnum, b: PgEnum| sorts_no_later(a, b)
}

/// The labels with the number of the type that they belong to.
pub open spec fn labels_by_type(enums: Seq<PgEnum>) -> Seq<(u32, PgEnum)> {
    enums.map_values(|e: PgEnum| (e.enumtypid, e))
}

/// The texts of labels, in order.
pub open spec fn label_texts(enums: Seq<PgEnum>) -> Seq<String> {
    enums.map_values(|e: PgEnum| e.enumlabel)
}

/// `x` stands in `s` behind position `i`.
pub open spec fn seen_after<K>(s: Seq<K>, i: int, x: K) -> bool {
    exists|j: int| i < j < s.len() && #[trigger] s[j] == x
}

/// The labels of the type at `i` once `enums` were attached: its own by their
/// sort order, or what it had where there are none.
pub open spec fn labels_attached(types: Seq<PgType>, i: int, enums: Seq<PgEnum>) -> Seq<String> {
    let own = values_of(labels_by_type(enums), types[i].oid);
    if own.len() > 0 && !seen_after(type_oids(types), i, types[i].oid) {
        label_texts(stably_sorted(own, by_sort_order()))
    } else {
        types[i].enum_labels@
    }
}

/// The place of a single-precision number among the others.
fn sort_place_of(bits: u32) -> (r: i64)
    ensures
        r == sort_place(bits),
{
    if bits < 0x8000_0000 {
        bits as i64
    } else {
        0x8000_0000 - bits as i64
    }
}

/// The labels with the number of the type that they belong to.
fn keyed_by_type(enums: &Vec<PgEnum>) -> (r: Vec<(u32, PgEnum)>)
    ensures
        r@ == labels_by_type(enums@),
{
    let mut keyed: Vec<(u32, PgEnum)> = Vec::new();
    let mut i: usize = 0;
    while i < enums.len()
        invariant
            i <= enums@.len(),
            keyed@ == labels_by_type(enums@.take(i as int)),
        decreases enums@.len() - i,
    {
        let e = &enums[i];
        let copy = PgEnum {
            oid: e.oid,
            enumtypid: e.enumtypid,
            enumsortorder_bits: e.enumsortorder_bits,
            enumlabel: e.enumlabel.clone(),
        };
        keyed.push((e.enumtypid, copy));
        i += 1;
        assert(keyed@ =~= labels_by_type(enums@.take(i as int)));
    }
    assert(enums@.take(i as int) =~= enums@);
    keyed
}

/// The texts of labels, in order.
fn into_texts(enums: Vec<PgEnum>) -> (r: Vec<String>)
    ensures
        r@ == label_texts(enums@),
{
    let ghost all = enums@;
    let mut texts: Vec<String> = Vec::new();
    for e in it: enums
        invariant
            it.seq() == all,
            texts@ == label_texts(all.take(it.index() as int)),
    {
        texts.push(e.enumlabel);
        assert(texts@ =~= label_texts(all.take(it.index() + 1)));
    }
    assert(all.take(all.len() as int) =~= all);
    texts
}

/// Gives each enum type its labels, by their sort order. Nothing else of the
/// types changes. Where types share a number, the last of them takes the labels.
pub fn attach_enum_labels(types: &mut Vec<PgType>, enums: &Vec<PgEnum>)
    ensures
        final(types)@.len() == old(types)@.len(),
        forall|i: int|
            0 <= i < old(types)@.len() ==> {
                &&& (#[trigger] final(types)@[i]).enum_labels@ == labels_attached(
                    old(types)@,
                    i,
                    enums@,
                )
                &&& final(types)@[i] == (PgType {
                    enum_labels: final(types)@[i].enum_labels,
                    ..old(types)@[i]
                })
            },
{
    let ghost all = types@;
    let ghost keys = type_oids(all);
    let ghost rows = labels_by_type(enums@);
    let mut groups = group_rows(keyed_by_type(enums));
    assert(groups_rows(groups@, rows));
    let mut n: usize = types.len();
    while n > 0
        invariant
            n <= types@.len() == all.len(),
            keys == type_oids(all),
            rows == labels_by_type(enums@),
            forall|k: u32|
                #![trigger groups@.contains_key(k)]
                groups@.contains_key(k) == (values_of(rows, k).len() > 0 && !seen_after(
                    keys,
                    n - 1,
                    k,
                )) && (groups@.contains_key(k) ==> groups@[k]@ == values_of(rows, k)),
            forall|i: int| 0 <= i < n ==> #[trigger] types@[i] == all[i],
            forall|i: int|
                n <= i < all.len() ==> {
                    &&& (#[trigger] types@[i]).enum_labels@ == labels_attached(all, i, enums@)
                    &&& types@[i] == (PgType { enum_labels: types@[i].enum_labels, ..all[i] })
                },
        decreases n,
    {
        n -= 1;
        let ghost groups_before = groups@;
        let oid: u32 = types[n].oid;
        assert(keys[n as int] == oid);
        assert(groups_before.contains_key(oid) == (values_of(rows, oid).len() > 0 && !seen_after(
            keys,
            n as int,
            oid,
        )));
        let own = take_group(&mut groups, oid);
        if !own.is_empty() {
            let in_order = |a: &PgEnum, b: &PgEnum| -> (r: bool)
                ensures
                    r == sorts_no_later(*a, *b),
                { sort_place_of(a.enumsortorder_bits) <= sort_place_of(b.enumsortorder_bits) };
            let sorted = sort_stably(own, in_order, Ghost(by_sort_order()));
            types[n].enum_labels = into_texts(sorted);
        }
        proof {
            assert forall|k: u32| #[trigger]
                seen_after(keys, n - 1, k) == (seen_after(keys, n as int, k) || keys[n as int] == k) by {
                if keys[n as int] == k {
                    assert(n - 1 < n < keys.len() && keys[n as int] == k);
                }
            }
            assert forall|k: u32| #![trigger groups@.contains_key(k)]
                groups@.contains_key(k) == (values_of(rows, k).len() > 0 && !seen_after(
                    keys,
                    n - 1,
                    k,
                )) && (groups@.contains_key(k) ==> groups@[k]@ == values_of(rows, k)) by {
                assert(groups_before.contains_key(k) == (values_of(rows, k).len() > 0
                    && !seen_after(keys, n as int, k)));
            }
        }
    }
}

/// Both orders compare any two items, and are transitive.
proof fn lemma_orderings()
    ensures
        is_ordering(by_constraint_name()),
        is_ordering(by_sort_order()),
{
    let le = by_constraint_name();
    assert forall|x: DomainConstraint, y: DomainConstraint| #[trigger] le(x, y) || le(y, x) by {
        law_text_order(x.name@, y.name@, y.name@);
    }
    assert forall|x: DomainConstraint, y: DomainConstraint, z: DomainConstraint| #[trigger]
        le(x, y) && #[trigger] le(y, z) implies le(x, z) by {
        law_text_order(x.name@, y.name@, z.name@);
    }
}

/// A domain that gets constraints gets each of them once, in the alphabetical
/// order of their names.
pub proof fn law_constraints_in_order(
    types: Seq<PgType>,
    i: int,
    rows: Seq<(u32, DomainConstraint)>,
)
    requires
        0 <= i < types.len(),
        values_of(rows, types[i].oid).len() > 0,
        !seen_before(type_oids(types), i, types[i].oid),
    ensures
        is_sorted(constraints_attached(types, i, rows), by_constraint_name()),
        constraints_attached(types, i, rows).to_multiset() == values_of(
            rows,
            types[i].oid,
        ).to_multiset(),
{
    lemma_orderings();
    law_stable_sort(values_of(rows, types[i].oid), by_constraint_name());
}

/// An enum type that gets labels gets each of them once, by their sort order.
pub proof fn law_labels_in_order(types: Seq<PgType>, i: int, enums: Seq<PgEnum>) -> (sorted: Seq<
    PgEnum,
>)
    requires
        0 <= i < types.len(),
        values_of(labels_by_type(enums), types[i].oid).len() > 0,
        !seen_after(type_oids(types), i, types[i].oid),
    ensures
        labels_attached(types, i, enums) == label_texts(sorted),
        is_sorted(sorted, by_sort_order()),
        sorted.to_multiset() == values_of(labels_by_type(enums), types[i].oid).to_multiset(),
{
    lemma_orderings();
    let own = values_of(labels_by_type(enums), types[i].oid);
    law_stable_sort(own, by_sort_order());
    stably_sorted(own, by_sort_order())
}

/// A single-precision number, given by its bits, is no larger than another: a
/// negative one is no larger than one that is not, of two that are not negative
/// the one with the smaller bits is smaller, of two negative ones the one with
/// the larger bits, and both zeros are the same.
pub open spec fn no_larger(a: u32, b: u32) -> bool {
    ||| a < 0x8000_0000 && b < 0x8000_0000 && a <= b
    ||| a >= 0x8000_0000 && b >= 0x8000_0000 && a >= b
    ||| a >= 0x8000_0000 && b < 0x8000_0000
    ||| a == 0 && b == 0x8000_0000
}

proof fn lemma_labels_of_type(enums: Seq<PgEnum>, oid: u32)
    ensures
        values_of(labels_by_type(enums), oid) == enums.filter(|e: PgEnum| e.enumtypid == oid),
    decreases enums.len(),
{
    let own = |e: PgEnum| e.enumtypid == oid;
    reveal(Seq::filter);
    let rows = labels_by_type(enums);
    if enums.len() == 0 {
        assert(values_of(rows, oid) =~= enums.filter(own));
    } else {
        let rest = enums.drop_last();
        lemma_labels_of_type(rest, oid);
        assert(rows.drop_last() =~= labels_by_type(rest));
        assert(enums =~= rest.push(enums.last()));
        rest.lemma_filter_push(enums.last(), own);
    }
}

/// An enum type gets the labels with its number, each once, by the values of
/// their sort orders; labels with the same sort order stay as they came. Gives
/// back the labels in their order.
pub proof fn law_labels_by_the_value_of_their_sort_order(
    types: Seq<PgType>,
    i: int,
    enums: Seq<PgEnum>,
) -> (sorted: Seq<PgEnum>)
    requires
        0 <= i < types.len(),
        exists|k: int| 0 <= k < enums.len() && (#[trigger] enums[k]).enumtypid == types[i].oid,
        forall|j: int| i < j < types.len() ==> (#[trigger] types[j]).oid != types[i].oid,
    ensures
        labels_attached(types, i, enums) == sorted.map_values(|e: PgEnum| e.enumlabel),
        sorted.to_multiset() == enums.filter(
            |e: PgEnum| e.enumtypid == types[i].oid,
        ).to_multiset(),
        forall|p: int, q: int|
            0 <= p < q < sorted.len() ==> no_larger(
                (#[trigger] sorted[p]).enumsortorder_bits,
                (#[trigger] sorted[q]).enumsortorder_bits,
            ),
        forall|x: PgEnum| #[trigger]
            of_the_value(sorted, x) == of_the_value(
                enums.filter(|e: PgEnum| e.enumtypid == types[i].oid),
                x,
            ),
{
    let oid = types[i].oid;
    let own = values_of(labels_by_type(enums), oid);
    let mine = |e: PgEnum| e.enumtypid == oid;
    lemma_labels_of_type(enums, oid);
    let k = choose|k: int| 0 <= k < enums.len() && (#[trigger] enums[k]).enumtypid == oid;
    enums.lemma_filter_contains(mine, k);
    assert(own.len() > 0);
    assert forall|j: int| i < j < types.len() implies #[trigger] type_oids(types)[j] != oid by {
        assert(types[j].oid != oid);
    }
    assert(!seen_after(type_oids(types), i, oid));
    let le = by_sort_order();
    lemma_orderings();
    law_stable_sort(own, le);
    let sorted = stably_sorted(own, le);
    assert forall|p: int, q: int| 0 <= p < q < sorted.len() implies no_larger(
        (#[trigger] sorted[p]).enumsortorder_bits,
        (#[trigger] sorted[q]).enumsortorder_bits,
    ) by {
        assert(le(sorted[p], sorted[q]));
    }
    assert forall|x: PgEnum| #[trigger] of_the_value(sorted, x) == of_the_value(own, x) by {
        let same = |y: PgEnum|
            no_larger(x.enumsortorder_bits, y.enumsortorder_bits) && no_larger(
                y.enumsortorder_bits,
                x.enumsortorder_bits,
            );
        assert(same =~= (|y: PgEnum| le(x, y) && le(y, x)));
        assert(equals_of(sorted, x, le) == equals_of(own, x, le));
    }
    assert(label_texts(sorted) =~= sorted.map_values(|e: PgEnum| e.enumlabel));
    sorted
}

/// The labels whose sort order is the same number as that of `x`.
pub open spec fn of_the_value(enums: Seq<PgEnum>, x: PgEnum) -> Seq<PgEnum> {
    enums.filter(
        |y: PgEnum|
            no_larger(x.enumsortorder_bits, y.enumsortorder_bits) && no_larger(
                y.enumsortorder_bits,
                x.enumsortorder_bits,
            ),
    )
}

/// A type keeps its labels where there are none for it, or where a later type
/// has its number.
pub proof fn law_labels_of_other_types_stay(types: Seq<PgType>, i: int, enums: Seq<PgEnum>)
    requires
        0 <= i < types.len(),
        (forall|k: int| 0 <= k < enums.len() ==> (#[trigger] enums[k]).enumtypid != types[i].oid)
            || (exists|j: int| i < j < types.len() && (#[trigger] types[j]).oid == types[i].oid),
    ensures
        labels_attached(types, i, enums) == types[i].enum_labels@,
{
    let oid = types[i].oid;
    if exists|j: int| i < j < types.len() && (#[trigger] types[j]).oid == oid {
        let j = choose|j: int| i < j < types.len() && (#[trigger] types[j]).oid == oid;
        assert(type_oids(types)[j] == oid);
        assert(seen_after(type_oids(types), i, oid));
    } else {
        let own = values_of(labels_by_type(enums), oid);
        if own.len() > 0 {
            law_values_are_those_of_the_rows(labels_by_type(enums), oid, own[0]);
            assert(own.contains(own[0]));
            let k = choose|k: int|
                0 <= k < enums.len() && labels_by_type(enums)[k] == (oid, own[0]);
            assert(enums[k].enumtypid == oid);
        }
    }
}

/// A domain gets the constraints with its number, each once, in the alphabetical
/// order of their names; a later domain with the same number gets none of them.
pub proof fn law_constraints_of_a_domain(
    types: Seq<PgType>,
    i: int,
    rows: Seq<(u32, DomainConstraint)>,
)
    requires
        0 <= i < types.len(),
    ensures
        (exists|k: int| 0 <= k < rows.len() && (#[trigger] rows[k]).0 == types[i].oid) && (forall|
            j: int,
        |
            0 <= j < i ==> (#[trigger] types[j]).oid != types[i].oid) ==> {
            &&& constraints_attached(types, i, rows).to_multiset() == rows.filter(
                |row: (u32, DomainConstraint)| row.0 == types[i].oid,
            ).map_values(|row: (u32, DomainConstraint)| row.1).to_multiset()
            &&& forall|p: int, q: int|
                0 <= p < q < constraints_attached(types, i, rows).len() ==> text_le(
                    (#[trigger] constraints_attached(types, i, rows)[p]).name@,
                    (#[trigger] constraints_attached(types, i, rows)[q]).name@,
                )
        },
        (forall|k: int| 0 <= k < rows.len() ==> (#[trigger] rows[k]).0 != types[i].oid)
            ==> constraints_attached(types, i, rows) == types[i].domain_constraints@,
        (exists|j: int| 0 <= j < i && (#[trigger] types[j]).oid == types[i].oid)
            ==> constraints_attached(types, i, rows) == types[i].domain_constraints@,
{
    let oid = types[i].oid;
    let own = values_of(rows, oid);
    law_values_of_the_rows_of_a_key(rows, oid);
    if exists|k: int| 0 <= k < rows.len() && (#[trigger] rows[k]).0 == oid {
        let k = choose|k: int| 0 <= k < rows.len() && (#[trigger] rows[k]).0 == oid;
        law_values_are_those_of_the_rows(rows, oid, rows[k].1);
        assert(rows[k] == (oid, rows[k].1));
        assert(own.contains(rows[k].1));
    } else if own.len() > 0 {
        law_values_are_those_of_the_rows(rows, oid, own[0]);
        assert(own.contains(own[0]));
        let k = choose|k: int| 0 <= k < rows.len() && rows[k] == (oid, own[0]);
        assert(rows[k].0 == oid);
    }
    if exists|j: int| 0 <= j < i && (#[trigger] types[j]).oid == oid {
        let j = choose|j: int| 0 <= j < i && (#[trigger] types[j]).oid == oid;
        assert(type_oids(types)[j] == oid);
        assert(seen_before(type_oids(types), i, oid));
    } else {
        assert forall|j: int| 0 <= j < i implies #[trigger] type_oids(types)[j] != oid by {
            assert(types[j].oid != oid);
        }
        assert(!seen_before(type_oids(types), i, oid));
    }
    let le = by_constraint_name();
    lemma_orderings();
    law_stable_sort(own, le);
    let sorted = stably_sorted(own, le);
    assert forall|p: int, q: int| 0 <= p < q < sorted.len() implies text_le(
        (#[trigger] sorted[p]).name@,
        (#[trigger] sorted[q]).name@,
    ) by {
        assert(le(sorted[p], sorted[q]));
    }
}

/// The constraints that are called `name`.
pub open spec fn is_called(name: Seq<char>) -> spec_fn(DomainConstraint) -> bool {
    |c: DomainConstraint| c.name@ == name
}

/// The constraints with a name, in their order.
pub open spec fn of_the_name(constraints: Seq<DomainConstraint>, name: Seq<char>) -> Seq<
    DomainConstraint,
> {
    constraints.filter(is_called(name))
}

/// Constraints of one name stay in the order of their rows.
pub proof fn law_constraints_of_one_name_stay(
    types: Seq<PgType>,
    i: int,
    rows: Seq<(u32, DomainConstraint)>,
    x: DomainConstraint,
)
    requires
        0 <= i < types.len(),
        exists|k: int| 0 <= k < rows.len() && (#[trigger] rows[k]).0 == types[i].oid,
        forall|j: int| 0 <= j < i ==> (#[trigger] types[j]).oid != types[i].oid,
    ensures
        of_the_name(constraints_attached(types, i, rows), x.name@) == of_the_name(
            rows.filter(|row: (u32, DomainConstraint)| row.0 == types[i].oid).map_values(
                |row: (u32, DomainConstraint)| row.1,
            ),
            x.name@,
        ),
{
    let oid = types[i].oid;
    let own = values_of(rows, oid);
    let le = by_constraint_name();
    law_values_of_the_rows_of_a_key(rows, oid);
    let k = choose|k: int| 0 <= k < rows.len() && (#[trigger] rows[k]).0 == oid;
    law_values_are_those_of_the_rows(rows, oid, rows[k].1);
    assert(rows[k] == (oid, rows[k].1));
    assert(own.contains(rows[k].1));
    assert forall|j: int| 0 <= j < i implies #[trigger] type_oids(types)[j] != oid by {
        assert(types[j].oid != oid);
    }
    assert(!seen_before(type_oids(types), i, oid));
    assert(type_oids(types)[i] == oid);
    lemma_orderings();
    law_stable_sort(own, le);
    assert(constraints_attached(types, i, rows) == stably_sorted(own, le));
    let name = x.name@;
    let same = is_called(name);
    assert((|row: (u32, DomainConstraint)| row.0 == oid) =~= (|row: (u32, DomainConstraint)|
        row.0 == types[i].oid));
    assert forall|c: DomainConstraint| #[trigger] same(c) == (le(x, c) && le(c, x)) by {
        law_text_order(x.name@, c.name@, x.name@);
        law_text_order(c.name@, x.name@, c.name@);
    }
    assert(same =~= (|y: DomainConstraint| le(x, y) && le(y, x)));
    assert(equals_of(stably_sorted(own, le), x, le) == equals_of(own, x, le));
    assert(own == rows.filter(|row: (u32, DomainConstraint)| row.0 == types[i].oid).map_values(
        |row: (u32, DomainConstraint)| row.1,
    ));
}

/// A type has the attributes with its number, in their order, and the last range
/// with its number, unless a type before it has the same number.
pub proof fn law_parts_of_a_type(
    t: PgType,
    rows: Seq<TypeRow>,
    i: int,
    attributes: Seq<(u32, CompositeAttribute)>,
    ranges: Seq<(u32, RangeMetadata)>,
    k: int,
)
    requires
        0 <= i < rows.len(),
        is_assembled(t, rows, i, attributes, ranges),
        forall|j: int| 0 <= j < i ==> (#[trigger] rows[j]).oid != rows[i].oid,
        -1 <= k < ranges.len(),
        k >= 0 ==> ranges[k].0 == rows[i].oid,
        forall|l: int| k < l < ranges.len() ==> (#[trigger] ranges[l]).0 != rows[i].oid,
    ensures
        t.composite_attributes@ == attributes.filter(
            |row: (u32, CompositeAttribute)| row.0 == rows[i].oid,
        ).map_values(|row: (u32, CompositeAttribute)| row.1),
        k >= 0 ==> {
            &&& t.range_subtype == Some(ranges[k].1.subtype)
            &&& t.range_collation == ranges[k].1.collation
            &&& t.range_opclass == Some(ranges[k].1.opclass)
            &&& t.range_canonical == ranges[k].1.canonical
            &&& t.range_subdiff == ranges[k].1.subdiff
            &&& t.multirange_name == ranges[k].1.multirange_name
        },
        k < 0 ==> t.range_subtype is None && t.range_collation is None && t.range_opclass is None
            && t.range_canonical is None && t.range_subdiff is None && t.multirange_name is None,
        t.enum_labels@.len() == 0,
        t.domain_constraints@.len() == 0,
        t.hash is None,
{
    assert forall|j: int| 0 <= j < i implies #[trigger] row_oids(rows)[j] != rows[i].oid by {
        assert(rows[j].oid != rows[i].oid);
    }
    assert(row_oids(rows)[i] == rows[i].oid);
    law_values_of_the_rows_of_a_key(attributes, rows[i].oid);
    law_last_row_of_a_key(ranges, rows[i].oid, k);
}

/// A type with the number of a type before it gets neither attributes nor a range.
pub proof fn law_parts_go_to_the_first_type(
    t: PgType,
    rows: Seq<TypeRow>,
    i: int,
    attributes: Seq<(u32, CompositeAttribute)>,
    ranges: Seq<(u32, RangeMetadata)>,
)
    requires
        0 <= i < rows.len(),
        is_assembled(t, rows, i, attributes, ranges),
        exists|j: int| 0 <= j < i && (#[trigger] rows[j]).oid == rows[i].oid,
    ensures
        t.composite_attributes@.len() == 0,
        t.range_subtype is None && t.range_collation is None && t.range_opclass is None
            && t.range_canonical is None && t.range_subdiff is None && t.multirange_name is None,
{
    let j = choose|j: int| 0 <= j < i && (#[trigger] rows[j]).oid == rows[i].oid;
    assert(row_oids(rows)[j] == rows[i].oid);
    assert(row_oids(rows)[i] == rows[i].oid);
    assert(seen_before(row_oids(rows), i, rows[i].oid));
}

/// A type has what its own row says of it, field by field.
pub proof fn law_fields_of_a_type(
    t: PgType,
    rows: Seq<TypeRow>,
    i: int,
    attributes: Seq<(u32, CompositeAttribute)>,
    ranges: Seq<(u32, RangeMetadata)>,
)
    requires
        is_assembled(t, rows, i, attributes, ranges),
    ensures
        t.oid == rows[i].oid,
        t.schema == rows[i].schema,
        t.typname == rows[i].typname,
        t.typnamespace == rows[i].typnamespace,
        t.typowner == rows[i].typowner,
        t.typlen == rows[i].typlen,
        t.typbyval == rows[i].typbyval,
        t.typtype == rows[i].typtype,
        t.typcategory == rows[i].typcategory,
        t.typispreferred == rows[i].typispreferred,
        t.typisdefined == rows[i].typisdefined,
        t.typdelim == rows[i].typdelim,
        t.typrelid == rows[i].typrelid,
        t.typsubscript == rows[i].typsubscript,
        t.typelem == rows[i].typelem,
        t.typarray == rows[i].typarray,
        t.typinput == rows[i].typinput,
        t.typoutput == rows[i].typoutput,
        t.typreceive == rows[i].typreceive,
        t.typsend == rows[i].typsend,
        t.typmodin == rows[i].typmodin,
        t.typmodout == rows[i].typmodout,
        t.typanalyze == rows[i].typanalyze,
        t.typalign == rows[i].typalign,
        t.typstorage == rows[i].typstorage,
        t.typnotnull == rows[i].typnotnull,
        t.typbasetype == rows[i].typbasetype,
        t.typtypmod == rows[i].typtypmod,
        t.typndims == rows[i].typndims,
        t.typcollation == rows[i].typcollation,
        t.typdefault == rows[i].typdefault,
        t.formatted_basetype == rows[i].formatted_basetype,
        t.domain_collation_name == rows[i].domain_collation_name,
        t.comment == rows[i].comment,
        t.acl == rows[i].acl,
        rows[i].owner is Some ==> t.owner == rows[i].owner->0,
        rows[i].owner is None ==> t.owner@.len() == 0,
{
}

} // verus!
