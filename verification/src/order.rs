//! The alphabetical order of texts, and sorting that keeps equal items in the
//! order they came in.

use vstd::prelude::*;
use vstd::std_specs::iter::IteratorSpec;

verus! {

broadcast use vstd::string::group_string_axioms;

/// Alphabetical order: by the code points of the first characters that differ;
/// a text comes after each of its own beginnings.
pub open spec fn text_le(a: Seq<char>, b: Seq<char>) -> bool
    decreases a.len(),
{
    if a.len() == 0 {
        true
    } else if b.len() == 0 {
        false
    } else if a[0] != b[0] {
        a[0] < b[0]
    } else {
        text_le(a.drop_first(), b.drop_first())
    }
}

/// Whether `a` comes no later than `b` in alphabetical order.
pub fn text_at_most(a: &str, b: &str) -> (r: bool)
    ensures
        r == text_le(a@, b@),
{
    let mut left = a.chars();
    let mut right = b.chars();
    loop
        invariant
            left.obeys_prophetic_iter_laws(),
            right.obeys_prophetic_iter_laws(),
            left.decrease() is Some,
            text_le(a@, b@) == text_le(left.remaining(), right.remaining()),
        decreases left.decrease()->0,
    {
        let x = left.next();
        let y = right.next();
        match (x, y) {
            (None, _) => {
                return true;
            },
            (Some(_), None) => {
                return false;
            },
            (Some(c), Some(d)) => {
                if c != d {
                    return c < d;
                }
            },
        }
    }
}

/// Alphabetical order is total, antisymmetric and transitive.
pub proof fn law_text_order(a: Seq<char>, b: Seq<char>, c: Seq<char>)
    ensures
        text_le(a, a),
        text_le(a, b) || text_le(b, a),
        text_le(a, b) && text_le(b, a) ==> a == b,
        text_le(a, b) && text_le(b, c) ==> text_le(a, c),
    decreases a.len() + b.len() + c.len(),
{
    if a.len() > 0 {
        if b.len() > 0 && c.len() > 0 {
            law_text_order(a.drop_first(), b.drop_first(), c.drop_first());
            assert(a =~= seq![a[0]] + a.drop_first());
            assert(b =~= seq![b[0]] + b.drop_first());
        } else if b.len() > 0 {
            law_text_order(a.drop_first(), b.drop_first(), c);
            assert(a =~= seq![a[0]] + a.drop_first());
            assert(b =~= seq![b[0]] + b.drop_first());
        } else {
            law_text_order(a.drop_first(), b, c);
        }
    } else if text_le(b, a) {
        assert(a =~= b);
    }
}

/// The first characters that differ decide, by their code points; where there
/// are none, the shorter text comes first.
pub proof fn law_first_difference_decides(a: Seq<char>, b: Seq<char>, k: int)
    requires
        0 <= k <= a.len(),
        k <= b.len(),
        forall|m: int| 0 <= m < k ==> a[m] == b[m],
    ensures
        k == a.len() ==> text_le(a, b),
        k == b.len() && k < a.len() ==> !text_le(a, b),
        k < a.len() && k < b.len() && a[k] != b[k] ==> text_le(a, b) == (a[k] < b[k]),
    decreases k,
{
    if k > 0 {
        let (x, y) = (a.drop_first(), b.drop_first());
        assert forall|m: int| 0 <= m < k - 1 implies x[m] == y[m] by {
            assert(a[m + 1] == b[m + 1]);
        }
        assert(a[0] == b[0]);
        law_first_difference_decides(x, y, k - 1);
        if k < a.len() && k < b.len() {
            assert(x[k - 1] == a[k] && y[k - 1] == b[k]);
        }
    }
}

/// A comparison under which any two items can be ordered: total and transitive.
/// Different items may be equal under it.
pub open spec fn is_ordering<T>(le: spec_fn(T, T) -> bool) -> bool {
    &&& forall|x: T, y: T| #[trigger] le(x, y) || le(y, x)
    &&& forall|x: T, y: T, z: T| #[trigger] le(x, y) && #[trigger] le(y, z) ==> le(x, z)
}

/// No item comes before an item that precedes it.
pub open spec fn is_sorted<T>(s: Seq<T>, le: spec_fn(T, T) -> bool) -> bool {
    forall|i: int, j: int| 0 <= i < j < s.len() ==> le(#[trigger] s[i], #[trigger] s[j])
}

/// `x` put into a sorted sequence, behind every item that comes no later.
pub open spec fn inserted<T>(s: Seq<T>, x: T, le: spec_fn(T, T) -> bool) -> Seq<T>
    decreases s.len(),
{
    if s.len() == 0 || le(s.last(), x) {
        s.push(x)
    } else {
        inserted(s.drop_last(), x, le).push(s.last())
    }
}

/// The items in order, equal ones as they came.
pub open spec fn stably_sorted<T>(s: Seq<T>, le: spec_fn(T, T) -> bool) -> Seq<T>
    decreases s.len(),
{
    if s.len() == 0 {
        s
    } else {
        inserted(stably_sorted(s.drop_last(), le), s.last(), le)
    }
}

/// Puts `x` behind every item of `v` that comes no later.
pub(crate) fn insert_ordered<T, F: Fn(&T, &T) -> bool>(
    v: &mut Vec<T>,
    x: T,
    at_most: F,
    Ghost(le): Ghost<spec_fn(T, T) -> bool>,
)
    requires
        forall|i: int| 0 <= i < old(v)@.len() ==> call_requires(at_most, (&#[trigger] old(v)@[i], &x)),
        forall|a: T, b: T, r: bool| call_ensures(at_most, (&a, &b), r) ==> r == le(a, b),
    ensures
        final(v)@ == inserted(old(v)@, x, le),
{
    let ghost s = v@;
    let mut i: usize = v.len();
    assert(s.subrange(i as int, s.len() as int) =~= Seq::empty());
    assert(s.take(i as int) =~= s);
    assert(inserted(s, x, le) =~= inserted(s, x, le) + Seq::empty());
    while i > 0
        invariant_except_break
            i <= v@.len(),
            inserted(s, x, le) == inserted(s.take(i as int), x, le) + s.subrange(
                i as int,
                s.len() as int,
            ),
        invariant
            v@ == s,
            s == old(v)@,
            forall|k: int| 0 <= k < s.len() ==> call_requires(at_most, (&#[trigger] s[k], &x)),
            forall|a: T, b: T, r: bool| call_ensures(at_most, (&a, &b), r) ==> r == le(a, b),
        ensures
            i <= v@.len(),
            inserted(s, x, le) == s.take(i as int).push(x) + s.subrange(i as int, s.len() as int),
        decreases i,
    {
        assert(s.take(i as int).last() == s[i - 1]);
        let stop = at_most(&v[i - 1], &x);
        if stop {
            break;
        }
        proof {
            assert(s.take(i as int).drop_last() =~= s.take(i - 1));
            assert(s.subrange(i - 1, s.len() as int) =~= seq![s[i - 1]] + s.subrange(
                i as int,
                s.len() as int,
            ));
            assert(inserted(s.take(i - 1), x, le).push(s[i - 1]) + s.subrange(
                i as int,
                s.len() as int,
            ) =~= inserted(s.take(i - 1), x, le) + s.subrange(i - 1, s.len() as int));
        }
        i -= 1;
    }
    v.insert(i, x);
    assert(v@ =~= s.take(i as int).push(x) + s.subrange(i as int, s.len() as int));
}

/// The items in order, equal ones as they came.
pub(crate) fn sort_stably<T, F: Fn(&T, &T) -> bool>(
    items: Vec<T>,
    at_most: F,
    Ghost(le): Ghost<spec_fn(T, T) -> bool>,
) -> (r: Vec<T>)
    requires
        forall|a: T, b: T| #[trigger] call_requires(at_most, (&a, &b)),
        forall|a: T, b: T, r: bool| call_ensures(at_most, (&a, &b), r) ==> r == le(a, b),
    ensures
        r@ == stably_sorted(items@, le),
{
    let ghost all = items@;
    let mut sorted: Vec<T> = Vec::new();
    for x in it: items
        invariant
            it.seq() == all,
            sorted@ == stably_sorted(all.take(it.index() as int), le),
            forall|a: T, b: T| #[trigger] call_requires(at_most, (&a, &b)),
            forall|a: T, b: T, r: bool| call_ensures(at_most, (&a, &b), r) ==> r == le(a, b),
    {
        assert(all.take(it.index() + 1).drop_last() =~= all.take(it.index() as int));
        insert_ordered(&mut sorted, x, &at_most, Ghost(le));
    }
    assert(all.take(all.len() as int) =~= all);
    sorted
}

/// The items of `s` that are equal to `x` under the comparison.
pub open spec fn equals_of<T>(s: Seq<T>, x: T, le: spec_fn(T, T) -> bool) -> Seq<T> {
    s.filter(|y: T| le(x, y) && le(y, x))
}

pub(crate) proof fn lemma_inserted<T>(s: Seq<T>, x: T, le: spec_fn(T, T) -> bool)
    ensures
        inserted(s, x, le).len() == s.len() + 1,
        inserted(s, x, le).to_multiset() == s.to_multiset().insert(x),
    decreases s.len(),
{
    broadcast use vstd::seq_lib::group_to_multiset_ensures;

    if s.len() == 0 || le(s.last(), x) {
    } else {
        lemma_inserted(s.drop_last(), x, le);
        assert(s =~= s.drop_last().push(s.last()));
        assert(s.to_multiset() =~= s.drop_last().to_multiset().insert(s.last()));
        assert(inserted(s, x, le).to_multiset() =~= s.to_multiset().insert(x));
    }
}

pub(crate) proof fn lemma_inserted_sorted<T>(s: Seq<T>, x: T, le: spec_fn(T, T) -> bool)
    requires
        is_ordering(le),
        is_sorted(s, le),
    ensures
        is_sorted(inserted(s, x, le), le),
        forall|i: int| 0 <= i < inserted(s, x, le).len() ==> #[trigger] inserted(s, x, le)[i] == x
            || s.contains(inserted(s, x, le)[i]),
    decreases s.len(),
{
    if s.len() == 0 {
    } else if le(s.last(), x) {
        let r = inserted(s, x, le);
        assert forall|i: int, j: int| 0 <= i < j < r.len() implies le(#[trigger] r[i], #[trigger] r[j]) by {
            if j == s.len() && i < s.len() - 1 {
                assert(le(s[i], s[s.len() - 1]));
            }
        }
        assert forall|i: int| 0 <= i < r.len() implies #[trigger] r[i] == x || s.contains(r[i]) by {
            if i < s.len() {
                assert(s[i] == r[i]);
            }
        }
    } else {
        let rest = s.drop_last();
        lemma_inserted_sorted(rest, x, le);
        let r = inserted(s, x, le);
        let inner = inserted(rest, x, le);
        lemma_inserted(rest, x, le);
        assert(le(x, s.last()));
        assert forall|i: int| 0 <= i < r.len() implies #[trigger] r[i] == x || s.contains(r[i]) by {
            if i < inner.len() {
                assert(r[i] == inner[i]);
                if inner[i] != x {
                    let k = choose|k: int| 0 <= k < rest.len() && rest[k] == inner[i];
                    assert(s[k] == r[i]);
                }
            } else {
                assert(s[s.len() - 1] == r[i]);
            }
        }
        assert forall|i: int, j: int| 0 <= i < j < r.len() implies le(#[trigger] r[i], #[trigger] r[j]) by {
            if j == inner.len() {
                assert(r[i] == inner[i]);
                if inner[i] != x {
                    let k = choose|k: int| 0 <= k < rest.len() && rest[k] == inner[i];
                    assert(le(s[k], s[s.len() - 1]));
                }
            } else {
                assert(r[i] == inner[i] && r[j] == inner[j]);
            }
        }
    }
}

proof fn lemma_inserted_stable<T>(s: Seq<T>, x: T, le: spec_fn(T, T) -> bool, e: T)
    requires
        is_ordering(le),
        is_sorted(s, le),
    ensures
        equals_of(inserted(s, x, le), e, le) == equals_of(s.push(x), e, le),
    decreases s.len(),
{
    let same = |y: T| le(e, y) && le(y, e);
    if s.len() == 0 || le(s.last(), x) {
    } else {
        let rest = s.drop_last();
        lemma_inserted_stable(rest, x, le, e);
        assert(s =~= rest.push(s.last()));
        inserted(rest, x, le).lemma_filter_push(s.last(), same);
        rest.lemma_filter_push(s.last(), same);
        rest.lemma_filter_push(x, same);
        s.lemma_filter_push(x, same);
        // `x` and the last item are not both equal to `e`: they are not equal to each other.
        assert(!(same(x) && same(s.last()))) by {
            if same(x) && same(s.last()) {
                assert(le(s.last(), e) && le(e, x));
            }
        }
    }
}

/// A stable sort holds the same items, in order, and items that are equal
/// under the comparison follow each other as they did before.
pub proof fn law_stable_sort<T>(s: Seq<T>, le: spec_fn(T, T) -> bool)
    requires
        is_ordering(le),
    ensures
        stably_sorted(s, le).to_multiset() == s.to_multiset(),
        is_sorted(stably_sorted(s, le), le),
        forall|e: T| #[trigger] equals_of(stably_sorted(s, le), e, le) == equals_of(s, e, le),
    decreases s.len(),
{
    broadcast use vstd::seq_lib::group_to_multiset_ensures;

    if s.len() > 0 {
        let rest = s.drop_last();
        law_stable_sort(rest, le);
        let sorted = stably_sorted(rest, le);
        lemma_inserted(sorted, s.last(), le);
        lemma_inserted_sorted(sorted, s.last(), le);
        assert(s =~= rest.push(s.last()));
        assert forall|e: T| #[trigger]
            equals_of(stably_sorted(s, le), e, le) == equals_of(s, e, le) by {
            let same = |y: T| le(e, y) && le(y, e);
            lemma_inserted_stable(sorted, s.last(), le, e);
            sorted.lemma_filter_push(s.last(), same);
            rest.lemma_filter_push(s.last(), same);
            assert(equals_of(sorted, e, le) == equals_of(rest, e, le));
        }
    }
}

/// Inserting adds one item and keeps the others.
pub(crate) proof fn lemma_inserted_members<T>(s: Seq<T>, x: T, le: spec_fn(T, T) -> bool)
    ensures
        forall|y: T| #[trigger] inserted(s, x, le).contains(y) <==> y == x || s.contains(y),
        s.no_duplicates() && !s.contains(x) ==> inserted(s, x, le).no_duplicates(),
    decreases s.len(),
{
    broadcast use vstd::seq_lib::group_seq_properties;

    if s.len() == 0 || le(s.last(), x) {
    } else {
        let rest = s.drop_last();
        lemma_inserted_members(rest, x, le);
        assert(s =~= rest.push(s.last()));
        let inner = inserted(rest, x, le);
        assert forall|y: T| #[trigger] inserted(s, x, le).contains(y) <==> y == x || s.contains(y) by {
            assert(inserted(s, x, le).contains(y) <==> inner.contains(y) || y == s.last());
            assert(s.contains(y) <==> rest.contains(y) || y == s.last());
        }
        if s.no_duplicates() && !s.contains(x) {
            assert(!rest.contains(x)) by {
                if rest.contains(x) {
                    assert(s.contains(x));
                }
            }
            assert(!rest.contains(s.last()));
            assert(s.contains(s.last()));
            assert(!inner.contains(s.last()));
        }
    }
}

/// Sorting keeps the members, and a sequence without repetitions stays one.
pub(crate) proof fn lemma_sorted_members<T>(s: Seq<T>, le: spec_fn(T, T) -> bool)
    ensures
        stably_sorted(s, le).len() == s.len(),
        forall|y: T| #[trigger] stably_sorted(s, le).contains(y) <==> s.contains(y),
        s.no_duplicates() ==> stably_sorted(s, le).no_duplicates(),
    decreases s.len(),
{
    broadcast use vstd::seq_lib::group_seq_properties;

    if s.len() > 0 {
        let rest = s.drop_last();
        lemma_sorted_members(rest, le);
        lemma_inserted(stably_sorted(rest, le), s.last(), le);
        lemma_inserted_members(stably_sorted(rest, le), s.last(), le);
        assert(s =~= rest.push(s.last()));
        if s.no_duplicates() {
            assert(!rest.contains(s.last()));
        }
    }
}

} // verus!
