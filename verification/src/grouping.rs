//! Rows that belong to objects: found by the object's number or name, and
//! given to the first object that asks for them.

use crate::text::same_text;
use std::collections::HashMap;
use vstd::prelude::*;

verus! {

broadcast use {vstd::string::group_string_axioms, vstd::std_specs::hash::group_hash_axioms};

/// The values of the rows under `key`, in order.
pub open spec fn values_of<T>(rows: Seq<(u32, T)>, key: u32) -> Seq<T>
    decreases rows.len(),
{
    if rows.len() == 0 {
        Seq::empty()
    } else if rows.last().0 == key {
        values_of(rows.drop_last(), key).push(rows.last().1)
    } else {
        values_of(rows.drop_last(), key)
    }
}

/// The value of the last row under `key`, if there is one.
pub open spec fn last_value_of<T>(rows: Seq<(u32, T)>, key: u32) -> Option<T>
    decreases rows.len(),
{
    if rows.len() == 0 {
        None
    } else if rows.last().0 == key {
        Some(rows.last().1)
    } else {
        last_value_of(rows.drop_last(), key)
    }
}

/// No row is lost and none is added: the values under a key are exactly those
/// of its rows.
pub proof fn law_values_are_those_of_the_rows<T>(rows: Seq<(u32, T)>, key: u32, value: T)
    ensures
        values_of(rows, key).contains(value) <==> rows.contains((key, value)),
        last_value_of(rows, key) is Some <==> values_of(rows, key).len() > 0,
        last_value_of(rows, key) matches Some(last) ==> last == values_of(rows, key).last(),
    decreases rows.len(),
{
    if rows.len() > 0 {
        let rest = rows.drop_last();
        let row = rows.last();
        law_values_are_those_of_the_rows(rest, key, value);
        assert(rows =~= rest.push(row));
        lemma_push_contains(rest, row, (key, value));
        lemma_push_contains(values_of(rest, key), row.1, value);
    }
}

proof fn lemma_push_contains<T>(s: Seq<T>, last: T, x: T)
    ensures
        s.push(last).contains(x) <==> s.contains(x) || last == x,
{
    if s.contains(x) {
        let i = s.index_of(x);
        assert(s.push(last)[i] == x);
    }
    if last == x {
        assert(s.push(last)[s.len() as int] == x);
    }
    if s.push(last).contains(x) && last != x {
        let i = s.push(last).index_of(x);
        assert(s[i] == x);
    }
}

/// `x` stands in `s` before position `i`.
pub open spec fn seen_before<K>(s: Seq<K>, i: int, x: K) -> bool {
    exists|j: int| 0 <= j < i && #[trigger] s[j] == x
}

/// What falls to an object under `key`: everything, or nothing where an object
/// before it had the same key.
pub open spec fn first_gets<K, T>(keys: Seq<K>, i: int, values: Seq<T>) -> Seq<T> {
    if seen_before(keys, i, keys[i]) {
        Seq::empty()
    } else {
        values
    }
}

/// What has been seen one position further on.
pub(crate) proof fn lemma_seen_next<K>(s: Seq<K>, i: int)
    requires
        0 <= i < s.len(),
    ensures
        forall|x: K| #[trigger] seen_before(s, i + 1, x) == (seen_before(s, i, x) || s[i] == x),
{
    assert forall|x: K| #[trigger] seen_before(s, i + 1, x) == (seen_before(s, i, x) || s[i] == x) by {
        if s[i] == x {
            assert(0 <= i < i + 1 && s[i] == x);
        }
    }
}

/// Holds, for each key with rows, the values of these rows.
pub open spec fn groups_rows<T>(m: Map<u32, Vec<T>>, rows: Seq<(u32, T)>) -> bool {
    forall|k: u32|
        #![trigger m.contains_key(k)]
        m.contains_key(k) == (values_of(rows, k).len() > 0) && (m.contains_key(k) ==> m[k]@
            == values_of(rows, k))
}

/// Holds, for each key with rows, the value of the last of these rows.
pub open spec fn holds_last_rows<T>(m: Map<u32, T>, rows: Seq<(u32, T)>) -> bool {
    forall|k: u32|
        #![trigger m.contains_key(k)]
        m.contains_key(k) == (last_value_of(rows, k) is Some) && (m.contains_key(k) ==> Some(m[k])
            == last_value_of(rows, k))
}

/// The rows by key; under each key the values in the order of the rows.
pub fn group_rows<T>(rows: Vec<(u32, T)>) -> (r: HashMap<u32, Vec<T>>)
    ensures
        groups_rows(r@, rows@),
{
    let ghost all = rows@;
    let mut groups: HashMap<u32, Vec<T>> = HashMap::new();
    for row in it: rows
        invariant
            it.seq() == all,
            groups_rows(groups@, all.take(it.index() as int)),
    {
        let ghost i = it.index() as int;
        let ghost before = groups@;
        let (key, value) = row;
        let mut values: Vec<T> = take_group(&mut groups, key);
        values.push(value);
        groups.insert(key, values);
        proof {
            let some = all.take(i + 1);
            assert(some.drop_last() =~= all.take(i));
            assert(some.last() == (key, value));
            assert forall|k: u32| #![trigger groups@.contains_key(k)]
                groups@.contains_key(k) == (values_of(some, k).len() > 0) && (groups@.contains_key(k)
                    ==> groups@[k]@ == values_of(some, k)) by {
                assert(before.contains_key(k) == (values_of(all.take(i), k).len() > 0));
                if k == key {
                    assert(values@ =~= values_of(some, k));
                }
            }
        }
    }
    assert(all.take(all.len() as int) =~= all);
    groups
}

/// Takes the values under `key` out of the map; an empty list where there are none.
pub fn take_group<T>(groups: &mut HashMap<u32, Vec<T>>, key: u32) -> (r: Vec<T>)
    ensures
        final(groups)@ == old(groups)@.remove(key),
        old(groups)@.contains_key(key) ==> r == old(groups)@[key],
        !old(groups)@.contains_key(key) ==> r@ == Seq::<T>::empty(),
{
    match groups.remove(&key) {
        Some(values) => values,
        None => {
            assert(groups@ =~= old(groups)@.remove(key));
            Vec::new()
        },
    }
}

/// The value of the last row under each key.
pub fn last_rows<T>(rows: Vec<(u32, T)>) -> (r: HashMap<u32, T>)
    ensures
        holds_last_rows(r@, rows@),
{
    let ghost all = rows@;
    let mut found: HashMap<u32, T> = HashMap::new();
    for row in it: rows
        invariant
            it.seq() == all,
            holds_last_rows(found@, all.take(it.index() as int)),
    {
        let ghost i = it.index() as int;
        let ghost before = found@;
        let (key, value) = row;
        found.insert(key, value);
        proof {
            let some = all.take(i + 1);
            assert(some.drop_last() =~= all.take(i));
            assert(some.last() == (key, value));
            assert forall|k: u32| #![trigger found@.contains_key(k)]
                found@.contains_key(k) == (last_value_of(some, k) is Some) && (found@.contains_key(k)
                    ==> Some(found@[k]) == last_value_of(some, k)) by {
                assert(before.contains_key(k) == (last_value_of(all.take(i), k) is Some));
            }
        }
    }
    assert(all.take(all.len() as int) =~= all);
    found
}

/// A schema and a name in it.
pub type QualifiedText = (Seq<char>, Seq<char>);

/// A row that belongs to the object of a name in a schema.
#[derive(Debug, Clone, PartialEq, Eq)]
pub struct OwnedRow<T> {
    pub schema: String,
    pub name: String,
    pub value: T,
}

/// The schema and the name of the object that the row belongs to.
pub open spec fn owner_of<T>(row: OwnedRow<T>) -> QualifiedText {
    (row.schema@, row.name@)
}

/// The values of the rows that belong to an object, in order.
pub open spec fn values_owned<T>(rows: Seq<OwnedRow<T>>, owner: QualifiedText) -> Seq<T>
    decreases rows.len(),
{
    if rows.len() == 0 {
        Seq::empty()
    } else if owner_of(rows.last()) == owner {
        values_owned(rows.drop_last(), owner).push(rows.last().value)
    } else {
        values_owned(rows.drop_last(), owner)
    }
}

/// The rows that belong to other objects, in order.
pub open spec fn rows_of_others<T>(rows: Seq<OwnedRow<T>>, owner: QualifiedText) -> Seq<OwnedRow<T>>
    decreases rows.len(),
{
    if rows.len() == 0 {
        Seq::empty()
    } else if owner_of(rows.last()) == owner {
        rows_of_others(rows.drop_last(), owner)
    } else {
        rows_of_others(rows.drop_last(), owner).push(rows.last())
    }
}

/// Taking the rows of one object leaves those of every other object.
pub proof fn law_taken_rows<T>(rows: Seq<OwnedRow<T>>, taken: QualifiedText, other: QualifiedText)
    ensures
        values_owned(rows_of_others(rows, taken), other) == if other == taken {
            Seq::<T>::empty()
        } else {
            values_owned(rows, other)
        },
    decreases rows.len(),
{
    if rows.len() > 0 {
        law_taken_rows(rows.drop_last(), taken, other);
        let rest = rows_of_others(rows.drop_last(), taken);
        assert(rest.push(rows.last()).drop_last() =~= rest);
    }
}

/// Takes the rows of an object out of `rows` and gives their values.
pub fn take_owned<T>(rows: &mut Vec<OwnedRow<T>>, schema: &str, name: &str) -> (r: Vec<T>)
    ensures
        r@ == values_owned(old(rows)@, (schema@, name@)),
        final(rows)@ == rows_of_others(old(rows)@, (schema@, name@)),
{
    let ghost all = rows@;
    let ghost owner = (schema@, name@);
    let mut given: Vec<OwnedRow<T>> = Vec::new();
    given.append(rows);
    let mut values: Vec<T> = Vec::new();
    let mut others: Vec<OwnedRow<T>> = Vec::new();
    assert(given@ =~= all);
    for row in it: given
        invariant
            it.seq() == all,
            owner == (schema@, name@),
            values@ == values_owned(all.take(it.index() as int), owner),
            others@ == rows_of_others(all.take(it.index() as int), owner),
    {
        proof {
            let some = all.take(it.index() + 1);
            assert(some.drop_last() =~= all.take(it.index() as int));
            assert(some.last() == row);
        }
        if same_text(row.schema.as_str(), schema) && same_text(row.name.as_str(), name) {
            values.push(row.value);
        } else {
            others.push(row);
        }
    }
    assert(all.take(all.len() as int) =~= all);
    *rows = others;
    values
}

/// What is left of the rows of `all` once the first `i` names have taken theirs.
pub open spec fn left_by<T>(
    left: Seq<OwnedRow<T>>,
    all: Seq<OwnedRow<T>>,
    names: Seq<QualifiedText>,
    i: int,
) -> bool {
    forall|owner: QualifiedText| #[trigger]
        values_owned(left, owner) == if seen_before(names, i, owner) {
            Seq::<T>::empty()
        } else {
            values_owned(all, owner)
        }
}

/// Once the object at `i` has taken its rows.
pub(crate) proof fn lemma_left_next<T>(
    left: Seq<OwnedRow<T>>,
    all: Seq<OwnedRow<T>>,
    names: Seq<QualifiedText>,
    i: int,
)
    requires
        0 <= i < names.len(),
        left_by(left, all, names, i),
    ensures
        left_by(rows_of_others(left, names[i]), all, names, i + 1),
{
    lemma_seen_next(names, i);
    assert forall|owner: QualifiedText| #[trigger]
        values_owned(rows_of_others(left, names[i]), owner) == if seen_before(
            names,
            i + 1,
            owner,
        ) {
            Seq::<T>::empty()
        } else {
            values_owned(all, owner)
        } by {
        law_taken_rows(left, names[i], owner);
        assert(values_owned(left, owner) == if seen_before(names, i, owner) {
            Seq::<T>::empty()
        } else {
            values_owned(all, owner)
        });
    }
}

/// The values under a key are those of the rows with that key, in their order.
pub proof fn law_values_of_the_rows_of_a_key<T>(rows: Seq<(u32, T)>, key: u32)
    ensures
        values_of(rows, key) == rows.filter(|row: (u32, T)| row.0 == key).map_values(
            |row: (u32, T)| row.1,
        ),
    decreases rows.len(),
{
    let (own, value) = (|row: (u32, T)| row.0 == key, |row: (u32, T)| row.1);
    reveal(Seq::filter);
    if rows.len() == 0 {
        assert(values_of(rows, key) =~= rows.filter(own).map_values(value));
    } else {
        let rest = rows.drop_last();
        law_values_of_the_rows_of_a_key(rest, key);
        assert(rows =~= rest.push(rows.last()));
        rest.lemma_filter_push(rows.last(), own);
        assert(values_of(rows, key) =~= rows.filter(own).map_values(value));
    }
}

/// Of the rows with a key the last one counts.
pub proof fn law_last_row_of_a_key<T>(rows: Seq<(u32, T)>, key: u32, k: int)
    requires
        -1 <= k < rows.len(),
        k >= 0 ==> rows[k].0 == key,
        forall|l: int| k < l < rows.len() ==> (#[trigger] rows[l]).0 != key,
    ensures
        k >= 0 ==> last_value_of(rows, key) == Some(rows[k].1),
        k < 0 ==> last_value_of(rows, key) is None,
    decreases rows.len(),
{
    if rows.len() > 0 && k < rows.len() - 1 {
        assert(rows[rows.len() - 1].0 != key);
        law_last_row_of_a_key(rows.drop_last(), key, k);
    }
}

/// The rows of an object are those with its schema and its name, in their order.
pub proof fn law_values_of_the_rows_of_an_object<T>(
    rows: Seq<OwnedRow<T>>,
    schema: Seq<char>,
    name: Seq<char>,
)
    ensures
        values_owned(rows, (schema, name)) == rows.filter(
            |row: OwnedRow<T>| row.schema@ == schema && row.name@ == name,
        ).map_values(|row: OwnedRow<T>| row.value),
    decreases rows.len(),
{
    let own = |row: OwnedRow<T>| row.schema@ == schema && row.name@ == name;
    let value = |row: OwnedRow<T>| row.value;
    reveal(Seq::filter);
    if rows.len() == 0 {
        assert(values_owned(rows, (schema, name)) =~= rows.filter(own).map_values(value));
    } else {
        let rest = rows.drop_last();
        law_values_of_the_rows_of_an_object(rest, schema, name);
        assert(rows =~= rest.push(rows.last()));
        rest.lemma_filter_push(rows.last(), own);
        assert(values_owned(rows, (schema, name)) =~= rows.filter(own).map_values(value));
    }
}

/// An object gets its values unless an object before it has the same key.
pub proof fn law_first_of_a_key_gets_the_values<K, T>(keys: Seq<K>, i: int, values: Seq<T>)
    requires
        0 <= i < keys.len(),
    ensures
        (forall|j: int| 0 <= j < i ==> #[trigger] keys[j] != keys[i]) ==> first_gets(keys, i, values)
            == values,
        (exists|j: int| 0 <= j < i && #[trigger] keys[j] == keys[i]) ==> first_gets(keys, i, values)
            == Seq::<T>::empty(),
{
}

} // verus!
