//! The order in which views are dropped: a view goes before the views that it
//! reads; among views that may go next, materialized ones go first, then the
//! alphabet decides.

use crate::objects;
use crate::order::{
    insert_ordered, inserted, is_ordering, is_sorted, lemma_inserted_members, lemma_inserted_sorted,
    lemma_sorted_members, stably_sorted, text_at_most, text_le,
};
use crate::text::same_text;
use vstd::prelude::*;

verus! {

/// The qualified name of a view.
pub open spec fn view_key(v: objects::View) -> Seq<char> {
    v.schema@ + "."@ + v.name@
}

/// The last of the first `upto` views that is called `name`.
pub open spec fn view_named(views: Seq<objects::View>, name: Seq<char>, upto: int) -> Option<usize>
    decreases upto,
{
    if upto <= 0 {
        None
    } else if view_key(views[upto - 1]) == name {
        Some((upto - 1) as usize)
    } else {
        view_named(views, name, upto - 1)
    }
}

/// The other views that the first `upto` relations of view `i` name. Each
/// stands once, at the place of its last mention.
pub open spec fn reads_upto(views: Seq<objects::View>, i: usize, upto: int) -> Seq<usize>
    decreases upto,
{
    if upto <= 0 {
        Seq::empty()
    } else {
        let before = reads_upto(views, i, upto - 1);
        let relation = views[i as int].table_relation@[upto - 1]@;
        match view_named(views, relation, views.len() as int) {
            Some(j) => if j == i {
                before
            } else {
                moved_to_end(before, j)
            },
            None => before,
        }
    }
}

/// `s` with `x` at its end and nowhere else.
pub open spec fn moved_to_end(s: Seq<usize>, x: usize) -> Seq<usize> {
    s.filter(other_than(x)).push(x)
}

/// The places that are not `x`.
pub open spec fn other_than(x: usize) -> spec_fn(usize) -> bool {
    |y: usize| y != x
}

/// The other views that view `i` reads.
pub open spec fn reads(views: Seq<objects::View>, i: usize) -> Seq<usize> {
    reads_upto(views, i, views[i as int].table_relation@.len() as int)
}

/// View `i` reads view `j`, so `i` has to be dropped first.
pub open spec fn depends_on(views: Seq<objects::View>, i: usize, j: usize) -> bool {
    reads(views, i).contains(j)
}

/// Every view that reads `j` has been dropped.
pub open spec fn is_free(views: Seq<objects::View>, dropped: Seq<usize>, j: usize) -> bool {
    forall|i: usize| i < views.len() && #[trigger] depends_on(views, i, j) ==> dropped.contains(i)
}

/// The order among views that may go next.
pub open spec fn goes_first(v: objects::View, w: objects::View) -> bool {
    if v.is_materialized != w.is_materialized {
        v.is_materialized
    } else {
        text_le(view_key(v), view_key(w))
    }
}

/// [`goes_first`] on the places of the views.
pub open spec fn place_order(views: Seq<objects::View>) -> spec_fn(usize, usize) -> bool {
    |a: usize, b: usize| goes_first(views[a as int], views[b as int])
}

/// The places `0, 1, .. upto - 1`.
pub open spec fn places(upto: nat) -> Seq<usize> {
    Seq::new(upto, |i: int| i as usize)
}

/// The places of the views that no other view reads, in order of rank.
pub open spec fn first_candidates(views: Seq<objects::View>) -> Seq<usize> {
    stably_sorted(
        places(views.len()).filter(|j: usize| is_free(views, Seq::empty(), j)),
        place_order(views),
    )
}

/// The views that view `i` alone still held back.
pub open spec fn released(views: Seq<objects::View>, dropped: Seq<usize>, i: usize) -> Seq<usize> {
    reads(views, i).filter(|j: usize| is_free(views, dropped, j))
}

/// `candidates` with `more` put in, one after the other, by rank.
pub open spec fn queued(
    views: Seq<objects::View>,
    candidates: Seq<usize>,
    more: Seq<usize>,
) -> Seq<usize>
    decreases more.len(),
{
    if more.len() == 0 {
        candidates
    } else {
        inserted(queued(views, candidates, more.drop_last()), more.last(), place_order(views))
    }
}

/// Drops the first candidate until there is none; what it held back joins the
/// candidates.
pub open spec fn dropped_in_turn(
    views: Seq<objects::View>,
    dropped: Seq<usize>,
    candidates: Seq<usize>,
) -> Seq<usize>
    decreases views.len() - dropped.len(),
{
    if candidates.len() == 0 || dropped.len() >= views.len() {
        dropped
    } else {
        let i = candidates[0];
        dropped_in_turn(
            views,
            dropped.push(i),
            queued(views, candidates.drop_first(), released(views, dropped.push(i), i)),
        )
    }
}

/// The views that can be dropped without breaking a dependency, in turn.
pub open spec fn safe_order(views: Seq<objects::View>) -> Seq<usize> {
    dropped_in_turn(views, Seq::empty(), first_candidates(views))
}

/// The views that are not in `dropped` (they read each other in circles), by rank.
pub open spec fn leftovers(views: Seq<objects::View>, dropped: Seq<usize>) -> Seq<usize> {
    stably_sorted(
        places(views.len()).filter(|j: usize| !dropped.contains(j)),
        place_order(views),
    )
}

/// The order in which all views are dropped.
pub open spec fn view_drop_order(views: Seq<objects::View>) -> Seq<usize> {
    safe_order(views) + leftovers(views, safe_order(views))
}

/// Where the first `upto` views hold the name, the last of them is found.
pub(crate) proof fn lemma_view_named(views: Seq<objects::View>, name: Seq<char>, upto: int)
    requires
        0 <= upto <= views.len() <= usize::MAX,
    ensures
        match view_named(views, name, upto) {
            Some(j) => j < upto && view_key(views[j as int]) == name && forall|k: int|
                j < k < upto ==> view_key(#[trigger] views[k]) != name,
            None => forall|k: int| 0 <= k < upto ==> view_key(#[trigger] views[k]) != name,
        },
    decreases upto,
{
    if upto > 0 {
        lemma_view_named(views, name, upto - 1);
    }
}

pub(crate) proof fn lemma_moved_to_end(s: Seq<usize>, x: usize)
    requires
        s.no_duplicates(),
    ensures
        moved_to_end(s, x).no_duplicates(),
        forall|y: usize| #[trigger] moved_to_end(s, x).contains(y) <==> y == x || s.contains(y),
{
    broadcast use vstd::seq_lib::group_seq_properties;

    let other = other_than(x);
    lemma_filter_members(s, other);
    assert(!s.filter(other).contains(x));
    lemma_push_members(s.filter(other), x);
}

pub(crate) proof fn lemma_push_members(s: Seq<usize>, x: usize)
    ensures
        forall|y: usize| #[trigger] s.push(x).contains(y) <==> y == x || s.contains(y),
        s.no_duplicates() && !s.contains(x) ==> s.push(x).no_duplicates(),
{
    let r = s.push(x);
    assert forall|y: usize| #[trigger] r.contains(y) <==> y == x || s.contains(y) by {
        if r.contains(y) {
            let k = choose|k: int| 0 <= k < r.len() && r[k] == y;
            if k < s.len() {
                assert(s[k] == y);
            }
        }
        if s.contains(y) {
            let k = choose|k: int| 0 <= k < s.len() && s[k] == y;
            assert(r[k] == y);
        }
        if y == x {
            assert(r[s.len() as int] == y);
        }
    }
}

/// Filtering keeps exactly the members that pass.
pub(crate) proof fn lemma_filter_members(s: Seq<usize>, pred: spec_fn(usize) -> bool)
    ensures
        forall|y: usize| #[trigger] s.filter(pred).contains(y) <==> s.contains(y) && pred(y),
        s.no_duplicates() ==> s.filter(pred).no_duplicates(),
    decreases s.len(),
{
    broadcast use vstd::seq_lib::group_seq_properties;

    reveal(Seq::filter);
    if s.len() > 0 {
        let rest = s.drop_last();
        lemma_filter_members(rest, pred);
        assert(s =~= rest.push(s.last()));
        rest.lemma_filter_push(s.last(), pred);
        assert forall|y: usize| #[trigger] s.filter(pred).contains(y) <==> s.contains(y) && pred(y) by {
            assert(s.contains(y) <==> rest.contains(y) || y == s.last());
        }
        if s.no_duplicates() {
            assert(!rest.contains(s.last()));
            assert(rest.no_duplicates());
            lemma_push_members(rest.filter(pred), s.last());
        }
    } else {
        assert(s.filter(pred) =~= Seq::empty());
    }
}

/// A view reads other views of the list, each listed once.
pub(crate) proof fn lemma_reads_upto(views: Seq<objects::View>, i: usize, upto: int)
    requires
        views.len() <= usize::MAX,
    ensures
        reads_upto(views, i, upto).no_duplicates(),
        forall|j: usize| #[trigger] reads_upto(views, i, upto).contains(j) ==> j < views.len() && j != i,
    decreases upto,
{
    if upto > 0 {
        lemma_reads_upto(views, i, upto - 1);
        let relation = views[i as int].table_relation@[upto - 1]@;
        lemma_view_named(views, relation, views.len() as int);
        match view_named(views, relation, views.len() as int) {
            Some(j) => {
                if j != i {
                    lemma_moved_to_end(reads_upto(views, i, upto - 1), j);
                }
            },
            None => {},
        }
    }
}

/// What holds between two drops.
pub open spec fn turn_inv(
    views: Seq<objects::View>,
    dropped: Seq<usize>,
    candidates: Seq<usize>,
) -> bool {
    let le = place_order(views);
    // no view stands twice
    &&& dropped.no_duplicates()
    &&& candidates.no_duplicates()
    &&& forall|x: usize| #[trigger] candidates.contains(x) ==> !dropped.contains(x)
    // both hold places of views that nothing left over reads
    &&& forall|x: usize| #[trigger] dropped.contains(x) ==> x < views.len() && is_free(views, dropped, x)
    &&& forall|x: usize| #[trigger] candidates.contains(x) ==> x < views.len() && is_free(views, dropped, x)
    // and the candidates are all such views
    &&& forall|x: usize|
        x < views.len() && #[trigger] is_free(views, dropped, x) && !dropped.contains(x)
            ==> candidates.contains(x)
    &&& is_sorted(candidates, le)
    // each view went when everything that reads it was gone
    &&& forall|p: int| 0 <= p < dropped.len() ==> is_free(views, dropped.take(p), #[trigger] dropped[p])
    // and nothing that could have gone with it goes before it
    &&& forall|p: int, q: int|
        0 <= p < q < dropped.len() && is_free(views, dropped.take(p), #[trigger] dropped[q])
            ==> le(#[trigger] dropped[p], dropped[q])
    &&& forall|p: int, x: usize|
        0 <= p < dropped.len() && #[trigger] candidates.contains(x) && is_free(views, dropped.take(p), x)
            ==> le(#[trigger] dropped[p], x)
}

/// A view that is free stays free as more views are dropped.
proof fn lemma_free_grows(views: Seq<objects::View>, fewer: Seq<usize>, more: Seq<usize>, j: usize)
    requires
        is_free(views, fewer, j),
        forall|x: usize| fewer.contains(x) ==> more.contains(x),
    ensures
        is_free(views, more, j),
{
}

pub(crate) proof fn lemma_place_order(views: Seq<objects::View>)
    ensures
        is_ordering(place_order(views)),
{
    let le = place_order(views);
    assert forall|x: usize, y: usize| #[trigger] le(x, y) || le(y, x) by {
        let (a, b) = (view_key(views[x as int]), view_key(views[y as int]));
        crate::order::law_text_order(a, b, a);
    }
    assert forall|x: usize, y: usize, z: usize| #[trigger] le(x, y) && #[trigger] le(y, z) implies le(
        x,
        z,
    ) by {
        crate::order::law_text_order(
            view_key(views[x as int]),
            view_key(views[y as int]),
            view_key(views[z as int]),
        );
    }
}

proof fn lemma_queued(views: Seq<objects::View>, candidates: Seq<usize>, more: Seq<usize>)
    requires
        candidates.no_duplicates(),
        more.no_duplicates(),
        forall|x: usize| #[trigger] more.contains(x) ==> !candidates.contains(x),
        is_sorted(candidates, place_order(views)),
    ensures
        queued(views, candidates, more).no_duplicates(),
        is_sorted(queued(views, candidates, more), place_order(views)),
        forall|x: usize| #[trigger]
            queued(views, candidates, more).contains(x) <==> candidates.contains(x) || more.contains(x),
    decreases more.len(),
{
    broadcast use vstd::seq_lib::group_seq_properties;

    if more.len() > 0 {
        let rest = more.drop_last();
        let le = place_order(views);
        assert(more =~= rest.push(more.last()));
        assert forall|x: usize| #[trigger] rest.contains(x) implies !candidates.contains(x) by {
            assert(more.contains(x));
        }
        lemma_queued(views, candidates, rest);
        lemma_place_order(views);
        let inner = queued(views, candidates, rest);
        assert(more.contains(more.last()));
        assert(!rest.contains(more.last()));
        lemma_inserted_members(inner, more.last(), le);
        lemma_inserted_sorted(inner, more.last(), le);
        assert forall|x: usize| #[trigger]
            queued(views, candidates, more).contains(x) <==> candidates.contains(x) || more.contains(x) by {
            assert(more.contains(x) <==> rest.contains(x) || x == more.last());
        }
    }
}

/// Dropping the first candidate keeps what holds between two drops.
proof fn lemma_turn(views: Seq<objects::View>, dropped: Seq<usize>, candidates: Seq<usize>)
    requires
        views.len() <= usize::MAX,
        turn_inv(views, dropped, candidates),
        candidates.len() > 0,
    ensures
        turn_inv(
            views,
            dropped.push(candidates[0]),
            queued(
                views,
                candidates.drop_first(),
                released(views, dropped.push(candidates[0]), candidates[0]),
            ),
        ),
{
    broadcast use vstd::seq_lib::group_seq_properties;

    let le = place_order(views);
    let i = candidates[0];
    let after = dropped.push(i);
    let rest = candidates.drop_first();
    let more = released(views, after, i);
    let next = queued(views, rest, more);
    assert(candidates.contains(i));
    assert(candidates =~= seq![i] + rest);
    assert forall|x: usize| #[trigger] rest.contains(x) implies candidates.contains(x) && x != i by {
        let k = choose|k: int| 0 <= k < rest.len() && rest[k] == x;
        assert(candidates[k + 1] == x);
    }
    assert forall|x: usize| candidates.contains(x) && x != i implies #[trigger] rest.contains(x) by {
        let k = choose|k: int| 0 <= k < candidates.len() && candidates[k] == x;
        assert(rest[k - 1] == x);
    }
    lemma_reads_upto(views, i, views[i as int].table_relation@.len() as int);
    lemma_filter_members(reads(views, i), |j: usize| is_free(views, after, j));
    // what was released was not free before
    assert forall|x: usize| #[trigger] more.contains(x) implies !is_free(views, dropped, x) && x
        < views.len() && is_free(views, after, x) && x != i by {
        assert(depends_on(views, i, x));
    }
    assert forall|x: usize| #[trigger] more.contains(x) implies !rest.contains(x) by {
        if rest.contains(x) {
            assert(candidates.contains(x));
        }
    }
    assert(is_sorted(rest, le)) by {
        assert forall|a: int, b: int| 0 <= a < b < rest.len() implies le(#[trigger] rest[a], #[trigger] rest[b]) by {
            assert(rest[a] == candidates[a + 1] && rest[b] == candidates[b + 1]);
        }
    }
    lemma_queued(views, rest, more);
    assert forall|x: usize| dropped.contains(x) implies #[trigger] after.contains(x) by {}
    assert forall|x: usize| #[trigger] next.contains(x) implies !after.contains(x) by {
        if more.contains(x) {
            assert(!dropped.contains(x)) by {
                if dropped.contains(x) {
                    assert(is_free(views, dropped, x));
                }
            }
        } else {
            assert(candidates.contains(x));
        }
    }
    assert forall|x: usize| #[trigger] after.contains(x) implies x < views.len() && is_free(
        views,
        after,
        x,
    ) by {
        if dropped.contains(x) {
            lemma_free_grows(views, dropped, after, x);
        } else {
            assert(x == i);
            lemma_free_grows(views, dropped, after, x);
        }
    }
    assert forall|x: usize| #[trigger] next.contains(x) implies x < views.len() && is_free(
        views,
        after,
        x,
    ) by {
        if rest.contains(x) {
            assert(candidates.contains(x));
            lemma_free_grows(views, dropped, after, x);
        }
    }
    assert forall|x: usize|
        x < views.len() && #[trigger] is_free(views, after, x) && !after.contains(x) implies next.contains(x) by {
        if is_free(views, dropped, x) {
            assert(candidates.contains(x));
        } else {
            let k = choose|k: usize|
                k < views.len() && #[trigger] depends_on(views, k, x) && !dropped.contains(k);
            assert(after.contains(k));
            assert(k == i);
            assert(more.contains(x));
        }
    }
    assert forall|p: int| 0 <= p < after.len() implies is_free(
        views,
        after.take(p),
        #[trigger] after[p],
    ) by {
        assert(after.take(p) =~= dropped.take(p));
        if p == dropped.len() {
            assert(dropped.take(p) =~= dropped);
        } else {
            assert(after[p] == dropped[p]);
        }
    }
    assert forall|p: int, q: int|
        0 <= p < q < after.len() && is_free(views, after.take(p), #[trigger] after[q]) implies le(
        #[trigger] after[p],
        after[q],
    ) by {
        assert(after.take(p) =~= dropped.take(p));
        assert(after[p] == dropped[p]);
        if q < dropped.len() {
            assert(after[q] == dropped[q]);
        }
    }
    assert forall|p: int, x: usize|
        0 <= p < after.len() && #[trigger] next.contains(x) && is_free(views, after.take(p), x) implies le(
        #[trigger] after[p],
        x,
    ) by {
        assert(after.take(p) =~= dropped.take(p));
        if more.contains(x) {
            assert forall|y: usize| dropped.take(p).contains(y) implies dropped.contains(y) by {
                let k = choose|k: int| 0 <= k < dropped.take(p).len() && dropped.take(p)[k] == y;
                assert(dropped[k] == y);
            }
            lemma_free_grows(views, dropped.take(p), dropped, x);
        } else if p < dropped.len() {
            assert(candidates.contains(x));
            assert(after[p] == dropped[p]);
        } else {
            let k = choose|k: int| 0 <= k < rest.len() && rest[k] == x;
            assert(candidates[k + 1] == x);
            assert(le(candidates[0], candidates[k + 1]));
        }
    }
}

pub(crate) proof fn lemma_first_turn(views: Seq<objects::View>)
    requires
        views.len() <= usize::MAX,
    ensures
        turn_inv(views, Seq::empty(), first_candidates(views)),
{
    let le = place_order(views);
    let all = places(views.len());
    let free = |j: usize| is_free(views, Seq::empty(), j);
    lemma_places(views.len());
    lemma_filter_members(all, free);
    lemma_sorted_members(all.filter(free), le);
    lemma_place_order(views);
    crate::order::law_stable_sort(all.filter(free), le);
    assert forall|x: usize|
        x < views.len() && #[trigger] is_free(views, Seq::empty(), x) implies first_candidates(
        views,
    ).contains(x) by {
        assert(all.filter(free).contains(x));
    }
    assert forall|x: usize| #[trigger] first_candidates(views).contains(x) implies x < views.len()
        && is_free(views, Seq::empty(), x) by {
        assert(all.filter(free).contains(x));
    }
}

pub(crate) proof fn lemma_places(upto: nat)
    requires
        upto <= usize::MAX + 1,
    ensures
        places(upto).len() == upto,
        places(upto).no_duplicates(),
        forall|x: usize| #[trigger] places(upto).contains(x) <==> x < upto,
{
    let all = places(upto);
    assert forall|x: usize| #[trigger] all.contains(x) <==> x < upto by {
        if x < upto {
            assert(all[x as int] == x);
        }
    }
}

/// Dropping in turn ends with no candidate left; gives back the candidates of
/// the end, which are none.
proof fn lemma_turns(
    views: Seq<objects::View>,
    dropped: Seq<usize>,
    candidates: Seq<usize>,
) -> (left: Seq<usize>)
    requires
        views.len() <= usize::MAX,
        turn_inv(views, dropped, candidates),
    ensures
        left.len() == 0,
        turn_inv(views, dropped_in_turn(views, dropped, candidates), left),
        dropped.is_prefix_of(dropped_in_turn(views, dropped, candidates)),
    decreases views.len() - dropped.len(),
{
    lemma_room(views, dropped, candidates);
    if candidates.len() == 0 {
        assert(dropped.is_prefix_of(dropped)) by {
            assert(dropped =~= dropped.subrange(0, dropped.len() as int));
        }
        candidates
    } else {
        lemma_turn(views, dropped, candidates);
        let i = candidates[0];
        let after = dropped.push(i);
        let next = queued(views, candidates.drop_first(), released(views, after, i));
        let left = lemma_turns(views, after, next);
        let end = dropped_in_turn(views, after, next);
        assert(dropped =~= end.subrange(0, dropped.len() as int)) by {
            assert(after == end.subrange(0, after.len() as int));
            assert forall|k: int| 0 <= k < dropped.len() implies dropped[k] == #[trigger] end[k] by {
                assert(after[k] == end.subrange(0, after.len() as int)[k]);
            }
        }
        left
    }
}

/// While there is a candidate, fewer views are dropped than there are.
proof fn lemma_room(views: Seq<objects::View>, dropped: Seq<usize>, candidates: Seq<usize>)
    requires
        turn_inv(views, dropped, candidates),
    ensures
        dropped.len() + candidates.len() <= views.len(),
{
    let both = dropped + candidates;
    assert(both.no_duplicates()) by {
        assert forall|a: int, b: int| 0 <= a < b < both.len() implies both[a] != both[b] by {
            if a < dropped.len() && b >= dropped.len() {
                assert(dropped.contains(both[a]));
                assert(candidates.contains(both[b]));
            }
        }
    }
    assert forall|k: int| 0 <= k < both.len() implies #[trigger] both[k] < views.len() by {
        if k < dropped.len() {
            assert(dropped.contains(both[k]));
        } else {
            assert(candidates.contains(both[k]));
        }
    }
    lemma_distinct_places(both, views.len() as int);
}

/// Different places below `bound` are at most `bound` many.
pub(crate) proof fn lemma_distinct_places(s: Seq<usize>, bound: int)
    requires
        bound >= 0,
        s.no_duplicates(),
        forall|k: int| 0 <= k < s.len() ==> #[trigger] s[k] < bound,
    ensures
        s.len() <= bound,
    decreases bound,
{
    if bound == 0 {
        if s.len() > 0 {
            assert(s[0] < 0);
        }
    } else if bound - 1 <= usize::MAX && s.contains((bound - 1) as usize) {
        let top = (bound - 1) as usize;
        let at = choose|at: int| 0 <= at < s.len() && s[at] == top;
        let rest = s.remove(at);
        assert forall|k: int| 0 <= k < rest.len() implies #[trigger] rest[k] < bound - 1 by {
            if k < at {
                assert(rest[k] == s[k]);
            } else {
                assert(rest[k] == s[k + 1]);
            }
        }
        assert(rest.no_duplicates());
        lemma_distinct_places(rest, bound - 1);
    } else {
        assert forall|k: int| 0 <= k < s.len() implies #[trigger] s[k] < bound - 1 by {
            assert(s.contains(s[k]));
        }
        lemma_distinct_places(s, bound - 1);
    }
}

/// What the views dropped in turn are: different, each after everything that
/// reads it, and nothing is left over that nothing left over reads.
pub(crate) proof fn lemma_safe_order(views: Seq<objects::View>)
    requires
        views.len() <= usize::MAX,
    ensures
        turn_inv(views, safe_order(views), Seq::empty()),
        leftovers(views, safe_order(views)).no_duplicates(),
        forall|x: usize| #[trigger]
            leftovers(views, safe_order(views)).contains(x) <==> x < views.len() && !safe_order(
                views,
            ).contains(x),
{
    lemma_first_turn(views);
    let left = lemma_turns(views, Seq::empty(), first_candidates(views));
    assert(left =~= Seq::empty());
    let done = safe_order(views);
    let all = places(views.len());
    let open = |j: usize| !done.contains(j);
    lemma_places(views.len());
    lemma_filter_members(all, open);
    lemma_sorted_members(all.filter(open), place_order(views));
    assert forall|x: usize| #[trigger] leftovers(views, done).contains(x) <==> x < views.len() && !done.contains(x) by {
        assert(all.filter(open).contains(x) <==> all.contains(x) && open(x));
    }
}

/// Every view is dropped exactly once.
pub proof fn law_each_view_once(views: Seq<objects::View>)
    requires
        views.len() <= usize::MAX,
    ensures
        view_drop_order(views).len() == views.len(),
        view_drop_order(views).no_duplicates(),
        forall|i: usize| i < views.len() <==> #[trigger] view_drop_order(views).contains(i),
{
    lemma_safe_order(views);
    let done = safe_order(views);
    let rest = leftovers(views, done);
    let order = view_drop_order(views);
    assert forall|a: int, b: int| 0 <= a < b < order.len() implies order[a] != order[b] by {
        if a < done.len() && b >= done.len() {
            assert(done.contains(order[a]));
            assert(rest.contains(order[b]));
        }
    }
    assert forall|i: usize| i < views.len() <==> #[trigger] order.contains(i) by {
        if i < views.len() {
            if done.contains(i) {
                let k = choose|k: int| 0 <= k < done.len() && done[k] == i;
                assert(order[k] == i);
            } else {
                assert(rest.contains(i));
                let k = choose|k: int| 0 <= k < rest.len() && rest[k] == i;
                assert(order[done.len() + k] == i);
            }
        }
        if order.contains(i) {
            let k = choose|k: int| 0 <= k < order.len() && order[k] == i;
            if k < done.len() {
                assert(done.contains(done[k]));
            } else {
                assert(rest.contains(rest[k - done.len()]));
            }
        }
    }
    assert forall|k: int| 0 <= k < order.len() implies #[trigger] order[k] < views.len() by {
        assert(order.contains(order[k]));
    }
    lemma_distinct_places(order, views.len() as int);
    lemma_all_places(order, views.len());
}

/// A sequence that holds every place below `bound` is at least that long.
pub(crate) proof fn lemma_all_places(s: Seq<usize>, bound: nat)
    requires
        bound <= usize::MAX,
        forall|i: usize| i < bound ==> #[trigger] s.contains(i),
    ensures
        s.len() >= bound,
    decreases bound,
{
    if bound > 0 {
        let top = (bound - 1) as usize;
        assert(s.contains(top));
        let at = choose|at: int| 0 <= at < s.len() && s[at] == top;
        let rest = s.remove(at);
        assert forall|i: usize| i < bound - 1 implies #[trigger] rest.contains(i) by {
            assert(s.contains(i));
            let k = choose|k: int| 0 <= k < s.len() && s[k] == i;
            if k < at {
                assert(rest[k] == i);
            } else {
                assert(rest[k - 1] == i);
            }
        }
        lemma_all_places(rest, (bound - 1) as nat);
    }
}

/// A view that can go safely is dropped after every view that reads it, even
/// where other views read each other in circles.
pub proof fn law_readers_go_first(views: Seq<objects::View>, i: usize, j: usize)
    requires
        views.len() <= usize::MAX,
        i < views.len(),
        j < views.len(),
        depends_on(views, i, j),
        safe_order(views).contains(j),
    ensures
        view_drop_order(views).contains(i),
        view_drop_order(views).contains(j),
        view_drop_order(views).index_of(i) < view_drop_order(views).index_of(j),
{
    lemma_safe_order(views);
    law_each_view_once(views);
    let done = safe_order(views);
    let order = view_drop_order(views);
    let q = choose|q: int| 0 <= q < done.len() && done[q] == j;
    assert(is_free(views, done.take(q), done[q]));
    assert(done.take(q).contains(i));
    let p = choose|p: int| 0 <= p < done.take(q).len() && done.take(q)[p] == i;
    assert(order[p] == i && order[q] == j && p < q);
    let (a, b) = (order.index_of(i), order.index_of(j));
    assert(order[a] == i && order[b] == j);
    assert(a == p && b == q);
}

/// Where no views read each other in circles (some `depth` grows along every
/// dependency), a view is dropped before all views that it reads.
pub proof fn law_dependency_order(views: Seq<objects::View>, depth: spec_fn(usize) -> nat)
    requires
        views.len() <= usize::MAX,
        forall|i: usize, j: usize|
            i < views.len() && j < views.len() && #[trigger] depends_on(views, i, j) ==> depth(i)
                < depth(j),
    ensures
        safe_order(views).len() == views.len(),
        forall|i: usize, j: usize|
            i < views.len() && j < views.len() && #[trigger] depends_on(views, i, j)
                ==> view_drop_order(views).index_of(i) < view_drop_order(views).index_of(j),
{
    lemma_safe_order(views);
    let done = safe_order(views);
    assert forall|x: usize| x < views.len() implies #[trigger] done.contains(x) by {
        lemma_all_safe(views, depth, x);
    }
    lemma_all_places(done, views.len());
    lemma_room(views, done, Seq::empty());
    assert forall|i: usize, j: usize|
        i < views.len() && j < views.len() && #[trigger] depends_on(views, i, j) implies view_drop_order(
        views,
    ).index_of(i) < view_drop_order(views).index_of(j) by {
        law_readers_go_first(views, i, j);
    }
}

proof fn lemma_all_safe(views: Seq<objects::View>, depth: spec_fn(usize) -> nat, x: usize)
    requires
        views.len() <= usize::MAX,
        turn_inv(views, safe_order(views), Seq::empty()),
        forall|i: usize, j: usize|
            i < views.len() && j < views.len() && #[trigger] depends_on(views, i, j) ==> depth(i)
                < depth(j),
        x < views.len(),
    ensures
        safe_order(views).contains(x),
    decreases depth(x),
{
    let done = safe_order(views);
    if !done.contains(x) {
        assert(!Seq::<usize>::empty().contains(x));
        assert(!is_free(views, done, x));
        let i = choose|i: usize|
            i < views.len() && #[trigger] depends_on(views, i, x) && !done.contains(i);
        lemma_all_safe(views, depth, i);
    }
}

/// Of two views that could go at the same time, the one of lower rank does:
/// materialized before regular, then by qualified name.
pub proof fn law_rank_breaks_ties(views: Seq<objects::View>, p: int, q: int)
    requires
        views.len() <= usize::MAX,
        0 <= p < q < safe_order(views).len(),
        is_free(views, safe_order(views).take(p), safe_order(views)[q]),
    ensures
        goes_first(views[safe_order(views)[p] as int], views[safe_order(views)[q] as int]),
{
    lemma_safe_order(views);
    let done = safe_order(views);
    let le = place_order(views);
    assert(le(done[p], done[q]));
}

/// Views that do not read each other are dropped by rank alone: materialized
/// ones first, then in alphabetical order.
pub proof fn law_independent_views(views: Seq<objects::View>)
    requires
        views.len() <= usize::MAX,
        forall|i: usize, j: usize|
            i < views.len() && j < views.len() ==> !#[trigger] depends_on(views, i, j),
    ensures
        forall|p: int, q: int|
            0 <= p < q < view_drop_order(views).len() ==> goes_first(
                views[#[trigger] view_drop_order(views)[p] as int],
                views[#[trigger] view_drop_order(views)[q] as int],
            ),
{
    let depth = |i: usize| 0nat;
    law_dependency_order(views, depth);
    law_each_view_once(views);
    let order = view_drop_order(views);
    let done = safe_order(views);
    assert forall|p: int, q: int| 0 <= p < q < order.len() implies goes_first(
        views[#[trigger] order[p] as int],
        views[#[trigger] order[q] as int],
    ) by {
        assert(order[p] == done[p] && order[q] == done[q]);
        assert(order.contains(order[q]));
        assert(is_free(views, done.take(p), done[q]));
        law_rank_breaks_ties(views, p, q);
    }
}

/// How many of the first `upto` views are still there and read `j`.
pub open spec fn waiting(views: Seq<objects::View>, dropped: Seq<usize>, j: usize, upto: int) -> nat
    decreases upto,
{
    if upto <= 0 {
        0
    } else {
        let i = (upto - 1) as usize;
        waiting(views, dropped, j, upto - 1) + if depends_on(views, i, j) && !dropped.contains(i) {
            1nat
        } else {
            0nat
        }
    }
}

proof fn lemma_waiting_bound(views: Seq<objects::View>, dropped: Seq<usize>, j: usize, upto: int)
    requires
        0 <= upto,
    ensures
        waiting(views, dropped, j, upto) <= upto,
    decreases upto,
{
    if upto > 0 {
        lemma_waiting_bound(views, dropped, j, upto - 1);
    }
}

/// Nothing is waited for exactly where the view is free.
proof fn lemma_waiting_free(views: Seq<objects::View>, dropped: Seq<usize>, j: usize, upto: int)
    requires
        0 <= upto <= views.len() <= usize::MAX,
    ensures
        waiting(views, dropped, j, upto) == 0 <==> forall|i: usize|
            i < upto && #[trigger] depends_on(views, i, j) ==> dropped.contains(i),
    decreases upto,
{
    if upto > 0 {
        lemma_waiting_free(views, dropped, j, upto - 1);
        let i = (upto - 1) as usize;
        if waiting(views, dropped, j, upto - 1) == 0 && !(depends_on(views, i, j)
            && !dropped.contains(i)) {
            assert forall|k: usize| k < upto && #[trigger] depends_on(views, k, j) implies dropped.contains(k) by {
                if k != i {
                    assert(k < upto - 1);
                }
            }
        }
    }
}

/// Dropping a view takes one off the count of each view that it reads.
proof fn lemma_waiting_drop(
    views: Seq<objects::View>,
    dropped: Seq<usize>,
    i: usize,
    j: usize,
    upto: int,
)
    requires
        0 <= upto <= views.len() <= usize::MAX,
        !dropped.contains(i),
    ensures
        waiting(views, dropped, j, upto) == waiting(views, dropped.push(i), j, upto) + if i < upto
            && depends_on(views, i, j) {
            1nat
        } else {
            0nat
        },
    decreases upto,
{
    lemma_push_members(dropped, i);
    if upto > 0 {
        lemma_waiting_drop(views, dropped, i, j, upto - 1);
    }
}

/// The qualified name of a view.
pub fn qualified_name(v: &objects::View) -> (r: String)
    ensures
        r@ == view_key(*v),
{
    let mut key = v.schema.clone();
    key.append(".");
    key.append(v.name.as_str());
    key
}

/// The place of the last view that is called `name`.
fn find_view(views: &Vec<objects::View>, keys: &Vec<String>, name: &str) -> (r: Option<usize>)
    requires
        keys@.len() == views@.len(),
        forall|k: int| 0 <= k < keys@.len() ==> (#[trigger] keys@[k])@ == view_key(views@[k]),
    ensures
        r == view_named(views@, name@, views@.len() as int),
{
    let mut i: usize = keys.len();
    while i > 0
        invariant
            i <= keys@.len() == views@.len(),
            forall|k: int| 0 <= k < keys@.len() ==> (#[trigger] keys@[k])@ == view_key(views@[k]),
            view_named(views@, name@, views@.len() as int) == view_named(views@, name@, i as int),
        decreases i,
    {
        if same_text(keys[i - 1].as_str(), name) {
            return Some(i - 1);
        }
        i -= 1;
    }
    None
}

/// `list` with `x` at its end and nowhere else.
fn move_to_end(list: Vec<usize>, x: usize) -> (r: Vec<usize>)
    ensures
        r@ == moved_to_end(list@, x),
{
    let mut out: Vec<usize> = Vec::new();
    let mut k: usize = 0;
    proof {
        reveal(Seq::filter);
        assert(list@.take(0).filter(other_than(x)) =~= Seq::empty());
    }
    while k < list.len()
        invariant
            k <= list@.len(),
            out@ == list@.take(k as int).filter(other_than(x)),
        decreases list@.len() - k,
    {
        let y = list[k];
        proof {
            list@.take(k as int).lemma_filter_push(y, other_than(x));
            assert(list@.take(k + 1) =~= list@.take(k as int).push(y));
        }
        if y != x {
            out.push(y);
        }
        k += 1;
    }
    assert(list@.take(k as int) =~= list@);
    out.push(x);
    out
}

/// The other views that view `i` reads.
fn views_read(views: &Vec<objects::View>, keys: &Vec<String>, i: usize) -> (r: Vec<usize>)
    requires
        i < views@.len(),
        keys@.len() == views@.len(),
        forall|k: int| 0 <= k < keys@.len() ==> (#[trigger] keys@[k])@ == view_key(views@[k]),
    ensures
        r@ == reads(views@, i),
{
    let relations = &views[i].table_relation;
    let mut found: Vec<usize> = Vec::new();
    let mut k: usize = 0;
    while k < relations.len()
        invariant
            i < views@.len(),
            keys@.len() == views@.len(),
            forall|k: int| 0 <= k < keys@.len() ==> (#[trigger] keys@[k])@ == view_key(views@[k]),
            *relations == views@[i as int].table_relation,
            k <= relations@.len(),
            found@ == reads_upto(views@, i, k as int),
        decreases relations@.len() - k,
    {
        if let Some(j) = find_view(views, keys, relations[k].as_str()) {
            if j != i {
                found = move_to_end(found, j);
            }
        }
        k += 1;
    }
    found
}

/// Whether view `a` comes no later than view `b` by rank.
fn ranks_first(views: &Vec<objects::View>, keys: &Vec<String>, a: usize, b: usize) -> (r: bool)
    requires
        a < views@.len(),
        b < views@.len(),
        keys@.len() == views@.len(),
        forall|k: int| 0 <= k < keys@.len() ==> (#[trigger] keys@[k])@ == view_key(views@[k]),
    ensures
        r == place_order(views@)(a, b),
{
    if views[a].is_materialized != views[b].is_materialized {
        views[a].is_materialized
    } else {
        text_at_most(keys[a].as_str(), keys[b].as_str())
    }
}

/// Puts place `x` into `list` by rank.
fn insert_place(views: &Vec<objects::View>, keys: &Vec<String>, list: &mut Vec<usize>, x: usize)
    requires
        keys@.len() == views@.len(),
        forall|k: int| 0 <= k < keys@.len() ==> (#[trigger] keys@[k])@ == view_key(views@[k]),
        x < views@.len(),
        forall|k: int| 0 <= k < old(list)@.len() ==> #[trigger] old(list)@[k] < views@.len(),
    ensures
        final(list)@ == inserted(old(list)@, x, place_order(views@)),
        forall|k: int| 0 <= k < final(list)@.len() ==> #[trigger] final(list)@[k] < views@.len(),
{
    let first = |a: &usize, b: &usize| -> (r: bool)
        requires
            *a < views@.len(),
            *b < views@.len(),
        ensures
            r == place_order(views@)(*a, *b),
        { ranks_first(views, keys, *a, *b) };
    insert_ordered(list, x, first, Ghost(place_order(views@)));
    proof {
        let s = old(list)@;
        lemma_inserted_members(s, x, place_order(views@));
        assert forall|k: int| 0 <= k < list@.len() implies #[trigger] list@[k] < views@.len() by {
            assert(list@.contains(list@[k]));
            if list@[k] != x {
                let m = choose|m: int| 0 <= m < s.len() && s[m] == list@[k];
                assert(s[m] < views@.len());
            }
        }
    }
}

/// For each view the other views that it reads.
fn all_reads(views: &Vec<objects::View>, keys: &Vec<String>) -> (r: Vec<Vec<usize>>)
    requires
        keys@.len() == views@.len(),
        forall|k: int| 0 <= k < keys@.len() ==> (#[trigger] keys@[k])@ == view_key(views@[k]),
    ensures
        r@.len() == views@.len(),
        forall|i: int| 0 <= i < r@.len() ==> (#[trigger] r@[i])@ == reads(views@, i as usize),
{
    let mut edges: Vec<Vec<usize>> = Vec::new();
    let mut i: usize = 0;
    while i < views.len()
        invariant
            i <= views@.len(),
            keys@.len() == views@.len(),
            forall|k: int| 0 <= k < keys@.len() ==> (#[trigger] keys@[k])@ == view_key(views@[k]),
            edges@.len() == i,
            forall|k: int| 0 <= k < i ==> (#[trigger] edges@[k])@ == reads(views@, k as usize),
        decreases views@.len() - i,
    {
        edges.push(views_read(views, keys, i));
        i += 1;
    }
    edges
}

/// For each view how many others read it.
fn reader_counts(Ghost(views): Ghost<Seq<objects::View>>, edges: &Vec<Vec<usize>>) -> (r: Vec<usize>)
    requires
        views.len() <= usize::MAX,
        edges@.len() == views.len(),
        forall|i: int| 0 <= i < edges@.len() ==> (#[trigger] edges@[i])@ == reads(views, i as usize),
    ensures
        r@.len() == views.len(),
        forall|j: int|
            0 <= j < r@.len() ==> #[trigger] r@[j] == waiting(
                views,
                Seq::empty(),
                j as usize,
                views.len() as int,
            ),
{
    let n = edges.len();
    let mut counts: Vec<usize> = Vec::new();
    while counts.len() < n
        invariant
            counts@.len() <= n,
            forall|j: int| 0 <= j < counts@.len() ==> #[trigger] counts@[j] == 0,
        decreases n - counts@.len(),
    {
        counts.push(0);
    }
    let mut i: usize = 0;
    while i < n
        invariant
            i <= n == edges@.len() == views.len() <= usize::MAX,
            counts@.len() == n,
            forall|i: int|
                0 <= i < edges@.len() ==> (#[trigger] edges@[i])@ == reads(views, i as usize),
            forall|j: int|
                0 <= j < n ==> #[trigger] counts@[j] == waiting(
                    views,
                    Seq::empty(),
                    j as usize,
                    i as int,
                ),
        decreases n - i,
    {
        let targets = &edges[i];
        let ghost before = counts@;
        proof {
            lemma_reads_upto(views, i, views[i as int].table_relation@.len() as int);
        }
        let mut t: usize = 0;
        while t < targets.len()
            invariant
                i < n == edges@.len() == views.len() <= usize::MAX,
                counts@.len() == before.len() == n,
                t <= targets@.len(),
                targets@ == reads(views, i),
                targets@.no_duplicates(),
                forall|j: usize| #[trigger] targets@.contains(j) ==> j < n && j != i,
                forall|j: int|
                    0 <= j < n ==> #[trigger] before[j] == waiting(
                        views,
                        Seq::empty(),
                        j as usize,
                        i as int,
                    ),
                forall|j: int|
                    0 <= j < n ==> #[trigger] counts@[j] == before[j] + if targets@.take(
                        t as int,
                    ).contains(j as usize) {
                        1int
                    } else {
                        0int
                    },
            decreases targets@.len() - t,
        {
            let j = targets[t];
            proof {
                assert(targets@.contains(j));
                assert(!targets@.take(t as int).contains(j)) by {
                    if targets@.take(t as int).contains(j) {
                        let k = choose|k: int|
                            0 <= k < targets@.take(t as int).len() && targets@.take(t as int)[k] == j;
                        assert(targets@[k] == targets@[t as int]);
                    }
                }
                lemma_waiting_bound(views, Seq::empty(), j, i as int);
                lemma_push_members(targets@.take(t as int), j);
                assert(targets@.take(t + 1) =~= targets@.take(t as int).push(j));
            }
            let count = counts[j];
            counts[j] = count + 1;
            t += 1;
        }
        assert(targets@.take(t as int) =~= targets@);
        i += 1;
        assert forall|j: int| 0 <= j < n implies #[trigger] counts@[j] == waiting(
            views,
            Seq::empty(),
            j as usize,
            i as int,
        ) by {
            assert(depends_on(views, (i - 1) as usize, j as usize) == targets@.contains(j as usize));
        }
    }
    counts
}

/// The order in which all views are dropped, as places in the list.
pub fn order_views(views: &Vec<objects::View>) -> (r: Vec<usize>)
    ensures
        r@ == view_drop_order(views@),
{
    let n = views.len();
    let ghost vs = views@;
    let ghost le = place_order(views@);
    let mut keys: Vec<String> = Vec::new();
    while keys.len() < n
        invariant
            n == views@.len(),
            keys@.len() <= n,
            forall|k: int| 0 <= k < keys@.len() ==> (#[trigger] keys@[k])@ == view_key(views@[k]),
        decreases n - keys@.len(),
    {
        let key = qualified_name(&views[keys.len()]);
        keys.push(key);
    }
    let edges = all_reads(views, &keys);
    let mut counts = reader_counts(Ghost(views@), &edges);

    // views that nothing reads
    let mut candidates: Vec<usize> = Vec::new();
    let ghost free = |j: usize| is_free(vs, Seq::empty(), j);
    proof {
        reveal(Seq::filter);
        assert(places(0).filter(free) =~= Seq::empty());
    }
    let mut j: usize = 0;
    while j < n
        invariant
            vs == views@,
            le == place_order(views@),
            free == (|j: usize| is_free(vs, Seq::empty(), j)),
            j <= n == views@.len() == keys@.len() == counts@.len(),
            forall|k: int| 0 <= k < keys@.len() ==> (#[trigger] keys@[k])@ == view_key(views@[k]),
            forall|k: int|
                0 <= k < n ==> #[trigger] counts@[k] == waiting(
                    vs,
                    Seq::empty(),
                    k as usize,
                    n as int,
                ),
            candidates@ == stably_sorted(places(j as nat).filter(free), le),
            forall|k: int| 0 <= k < candidates@.len() ==> #[trigger] candidates@[k] < n,
        decreases n - j,
    {
        proof {
            lemma_waiting_free(vs, Seq::empty(), j, n as int);
            places(j as nat).lemma_filter_push(j, free);
            assert(places((j + 1) as nat) =~= places(j as nat).push(j));
            let some = places(j as nat).filter(free);
            assert(some.push(j).drop_last() =~= some);
        }
        if counts[j] == 0 {
            insert_place(views, &keys, &mut candidates, j);
        }
        j += 1;
    }

    // drop what can go, by rank, until nothing can
    let mut dropped: Vec<usize> = Vec::new();
    proof {
        lemma_first_turn(vs);
    }
    while candidates.len() > 0
        invariant
            vs == views@,
            le == place_order(views@),
            n == views@.len() == keys@.len() == counts@.len() == edges@.len(),
            forall|k: int| 0 <= k < keys@.len() ==> (#[trigger] keys@[k])@ == view_key(views@[k]),
            forall|k: int| 0 <= k < n ==> (#[trigger] edges@[k])@ == reads(vs, k as usize),
            forall|k: int|
                0 <= k < n ==> #[trigger] counts@[k] == waiting(vs, dropped@, k as usize, n as int),
            turn_inv(vs, dropped@, candidates@),
            dropped_in_turn(vs, dropped@, candidates@) == safe_order(vs),
        decreases n - dropped@.len(),
    {
        proof {
            lemma_room(vs, dropped@, candidates@);
            lemma_turn(vs, dropped@, candidates@);
            assert(candidates@.contains(candidates@[0]));
        }
        let ghost gone = dropped@;
        let ghost waiting_list = candidates@;
        let i = candidates.remove(0);
        dropped.push(i);
        let ghost rest = candidates@;
        assert(rest =~= waiting_list.drop_first());
        let targets = &edges[i];
        let ghost before = counts@;
        let ghost now_free = |j: usize| is_free(vs, dropped@, j);
        proof {
            lemma_reads_upto(vs, i, vs[i as int].table_relation@.len() as int);
            reveal(Seq::filter);
            assert(targets@.take(0).filter(now_free) =~= Seq::empty());
            assert forall|k: int| 0 <= k < rest.len() implies #[trigger] rest[k] < n by {
                assert(waiting_list.contains(waiting_list[k + 1]));
            }
        }
        let mut t: usize = 0;
        while t < targets.len()
            invariant
                vs == views@,
                le == place_order(views@),
                n == views@.len() == keys@.len() == counts@.len() == before.len(),
                i < n,
                forall|k: int| 0 <= k < keys@.len() ==> (#[trigger] keys@[k])@ == view_key(views@[k]),
                t <= targets@.len(),
                targets@ == reads(vs, i),
                targets@.no_duplicates(),
                forall|j: usize| #[trigger] targets@.contains(j) ==> j < n && j != i,
                dropped@ == gone.push(i),
                !gone.contains(i),
                now_free == (|j: usize| is_free(vs, dropped@, j)),
                forall|k: int|
                    0 <= k < n ==> #[trigger] before[k] == waiting(vs, gone, k as usize, n as int),
                forall|k: int|
                    0 <= k < n ==> #[trigger] counts@[k] == before[k] - if targets@.take(
                        t as int,
                    ).contains(k as usize) {
                        1int
                    } else {
                        0int
                    },
                candidates@ == queued(vs, rest, targets@.take(t as int).filter(now_free)),
                forall|k: int| 0 <= k < candidates@.len() ==> #[trigger] candidates@[k] < n,
            decreases targets@.len() - t,
        {
            let j = targets[t];
            proof {
                assert(targets@.contains(j));
                assert(!targets@.take(t as int).contains(j)) by {
                    if targets@.take(t as int).contains(j) {
                        let k = choose|k: int|
                            0 <= k < targets@.take(t as int).len() && targets@.take(t as int)[k] == j;
                        assert(targets@[k] == targets@[t as int]);
                    }
                }
                assert(depends_on(vs, i, j));
                lemma_waiting_drop(vs, gone, i, j, n as int);
                lemma_waiting_free(vs, dropped@, j, n as int);
                lemma_push_members(targets@.take(t as int), j);
                assert(targets@.take(t + 1) =~= targets@.take(t as int).push(j));
                targets@.take(t as int).lemma_filter_push(j, now_free);
                let some = targets@.take(t as int).filter(now_free);
                assert(some.push(j).drop_last() =~= some);
            }
            let count = counts[j];
            counts[j] = count - 1;
            if count - 1 == 0 {
                insert_place(views, &keys, &mut candidates, j);
            }
            t += 1;
        }
        proof {
            assert(targets@.take(t as int) =~= targets@);
            assert forall|k: int| 0 <= k < n implies #[trigger] counts@[k] == waiting(
                vs,
                dropped@,
                k as usize,
                n as int,
            ) by {
                lemma_waiting_drop(vs, gone, i, k as usize, n as int);
                assert(depends_on(vs, i, k as usize) == targets@.contains(k as usize));
            }
        }
    }
    assert(dropped@ == safe_order(vs));

    // what is left reads each other in circles
    let mut left: Vec<usize> = Vec::new();
    let ghost done = safe_order(vs);
    let ghost open = |j: usize| !done.contains(j);
    proof {
        reveal(Seq::filter);
        assert(places(0).filter(open) =~= Seq::empty());
        lemma_safe_order(vs);
    }
    let mut gone: Vec<bool> = Vec::new();
    while gone.len() < n
        invariant
            gone@.len() <= n,
            forall|k: int| 0 <= k < gone@.len() ==> !#[trigger] gone@[k],
        decreases n - gone@.len(),
    {
        gone.push(false);
    }
    let mut p: usize = 0;
    while p < dropped.len()
        invariant
            p <= dropped@.len(),
            dropped@ == done,
            gone@.len() == n == vs.len(),
            turn_inv(vs, done, Seq::empty()),
            forall|k: int|
                0 <= k < n ==> #[trigger] gone@[k] == dropped@.take(p as int).contains(k as usize),
        decreases dropped@.len() - p,
    {
        proof {
            assert(done.contains(dropped@[p as int]));
            assert(dropped@.take(p + 1) =~= dropped@.take(p as int).push(dropped@[p as int]));
            lemma_push_members(dropped@.take(p as int), dropped@[p as int]);
        }
        gone[dropped[p]] = true;
        p += 1;
    }
    assert(dropped@.take(p as int) =~= done);
    let mut j: usize = 0;
    while j < n
        invariant
            vs == views@,
            le == place_order(views@),
            open == (|j: usize| !done.contains(j)),
            j <= n == views@.len() == keys@.len() == gone@.len(),
            forall|k: int| 0 <= k < keys@.len() ==> (#[trigger] keys@[k])@ == view_key(views@[k]),
            forall|k: int| 0 <= k < n ==> #[trigger] gone@[k] == done.contains(k as usize),
            left@ == stably_sorted(places(j as nat).filter(open), le),
            forall|k: int| 0 <= k < left@.len() ==> #[trigger] left@[k] < n,
        decreases n - j,
    {
        proof {
            places(j as nat).lemma_filter_push(j, open);
            assert(places((j + 1) as nat) =~= places(j as nat).push(j));
            let some = places(j as nat).filter(open);
            assert(some.push(j).drop_last() =~= some);
        }
        if !gone[j] {
            insert_place(views, &keys, &mut left, j);
        }
        j += 1;
    }
    dropped.append(&mut left);
    dropped
}

} // verus!
