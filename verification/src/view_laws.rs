//! The order in which views are dropped, stated on the names of the views and
//! the relations that they read.

use crate::drop_order::{
    depends_on, goes_first, is_free, law_each_view_once, law_readers_go_first, leftovers,
    lemma_moved_to_end, lemma_place_order, lemma_safe_order, lemma_view_named, place_order, places,
    reads_upto, safe_order, turn_inv, view_drop_order, view_named,
};
use crate::objects;
use crate::order::{is_sorted, law_stable_sort, text_le};
use vstd::prelude::*;

verus! {

/// View `i` names view `j` among its relations, by schema and name, and no later
/// view has that name. A view does not read itself.
pub open spec fn mentions(views: Seq<objects::View>, i: usize, j: usize) -> bool {
    &&& i != j
    &&& exists|k: int|
        0 <= k < views[i as int].table_relation@.len() && (#[trigger] views[i as int].table_relation@[k])@
            == views[j as int].schema@ + "."@ + views[j as int].name@
    &&& forall|l: int|
        j < l < views.len() ==> (#[trigger] views[l]).schema@ + "."@ + views[l].name@
            != views[j as int].schema@ + "."@ + views[j as int].name@
}

/// Materialized views go before the others, and views of one kind in the
/// alphabetical order of their qualified names.
pub open spec fn ranks_before(v: objects::View, w: objects::View) -> bool {
    ||| v.is_materialized && !w.is_materialized
    ||| v.is_materialized == w.is_materialized && text_le(
        v.schema@ + "."@ + v.name@,
        w.schema@ + "."@ + w.name@,
    )
}

proof fn lemma_read_members(views: Seq<objects::View>, i: usize, upto: int, j: usize)
    requires
        views.len() <= usize::MAX,
        i < views.len(),
        0 <= upto <= views[i as int].table_relation@.len(),
    ensures
        reads_upto(views, i, upto).no_duplicates(),
        reads_upto(views, i, upto).contains(j) <==> j != i && exists|k: int|
            0 <= k < upto && view_named(
                views,
                (#[trigger] views[i as int].table_relation@[k])@,
                views.len() as int,
            ) == Some(j),
    decreases upto,
{
    if upto > 0 {
        lemma_read_members(views, i, upto - 1, j);
        let before = reads_upto(views, i, upto - 1);
        let relation = views[i as int].table_relation@[upto - 1]@;
        match view_named(views, relation, views.len() as int) {
            Some(found) => {
                if found != i {
                    lemma_moved_to_end(before, found);
                    assert(reads_upto(views, i, upto) == crate::drop_order::moved_to_end(
                        before,
                        found,
                    ));
                }
            },
            None => {},
        }
        if view_named(views, relation, views.len() as int) == Some(j) && j != i {
            assert(0 <= upto - 1 < upto && view_named(
                views,
                views[i as int].table_relation@[upto - 1]@,
                views.len() as int,
            ) == Some(j));
        }
    }
}

/// A view reads exactly the other views that its relations name, whatever their
/// schemas and kinds.
pub proof fn law_what_a_view_reads(views: Seq<objects::View>, i: usize, j: usize)
    requires
        views.len() <= usize::MAX,
        i < views.len(),
        j < views.len(),
    ensures
        depends_on(views, i, j) <==> mentions(views, i, j),
{
    let relations = views[i as int].table_relation@;
    let name = views[j as int].schema@ + "."@ + views[j as int].name@;
    lemma_read_members(views, i, relations.len() as int, j);
    if depends_on(views, i, j) {
        let k = choose|k: int|
            0 <= k < relations.len() && view_named(
                views,
                (#[trigger] relations[k])@,
                views.len() as int,
            ) == Some(j);
        lemma_view_named(views, relations[k]@, views.len() as int);
        assert(relations[k]@ == name);
    }
    if mentions(views, i, j) {
        let k = choose|k: int|
            0 <= k < relations.len() && (#[trigger] relations[k])@ == name;
        lemma_view_named(views, name, views.len() as int);
        match view_named(views, name, views.len() as int) {
            Some(found) => {
                if found < j {
                    assert(crate::drop_order::view_key(views[j as int]) != name);
                } else if j < found {
                    assert(views[found as int].schema@ + "."@ + views[found as int].name@ != name);
                }
            },
            None => {
                assert(crate::drop_order::view_key(views[j as int]) != name);
            },
        }
        assert(view_named(views, relations[k]@, views.len() as int) == Some(j));
    }
}

proof fn lemma_settled(
    views: Seq<objects::View>,
    settled: spec_fn(usize) -> bool,
    depth: spec_fn(usize) -> nat,
    x: usize,
)
    requires
        views.len() <= usize::MAX,
        turn_inv(views, safe_order(views), Seq::empty()),
        forall|i: usize, j: usize|
            i < views.len() && j < views.len() && settled(j) && #[trigger] mentions(views, i, j)
                ==> settled(i) && depth(i) < depth(j),
        x < views.len(),
        settled(x),
    ensures
        safe_order(views).contains(x),
    decreases depth(x),
{
    let done = safe_order(views);
    if !done.contains(x) {
        assert(!Seq::<usize>::empty().contains(x));
        assert(!is_free(views, done, x));
        let i = choose|i: usize|
            i < views.len() && #[trigger] depends_on(views, i, x) && !done.contains(i);
        law_what_a_view_reads(views, i, x);
        assert(mentions(views, i, x));
        lemma_settled(views, settled, depth, i);
    }
}

/// A view is dropped before each view that it names, in whatever schemas the two
/// stand, as long as no circle of such names leads to the latter: the settled
/// views are named by settled views alone, and `depth` grows along the names.
/// Where nothing runs in a circle, every view is settled.
pub proof fn law_readers_before_what_they_name(
    views: Seq<objects::View>,
    settled: spec_fn(usize) -> bool,
    depth: spec_fn(usize) -> nat,
    i: usize,
    j: usize,
)
    requires
        views.len() <= usize::MAX,
        forall|x: usize, y: usize|
            x < views.len() && y < views.len() && settled(y) && #[trigger] mentions(views, x, y)
                ==> settled(x) && depth(x) < depth(y),
        i < views.len(),
        j < views.len(),
        settled(j),
        mentions(views, i, j),
    ensures
        view_drop_order(views).contains(i),
        view_drop_order(views).contains(j),
        view_drop_order(views).index_of(i) < view_drop_order(views).index_of(j),
{
    lemma_safe_order(views);
    lemma_settled(views, settled, depth, j);
    law_what_a_view_reads(views, i, j);
    law_readers_go_first(views, i, j);
}

/// A view is dropped before another one only where it ranks before it, or where
/// the other still waits for a view that names it.
pub proof fn law_rank_decides_unless_a_reader_is_left(views: Seq<objects::View>, p: int, q: int)
    requires
        views.len() <= usize::MAX,
        0 <= p < q < views.len(),
    ensures
        ranks_before(
            views[view_drop_order(views)[p] as int],
            views[view_drop_order(views)[q] as int],
        ) || exists|i: usize|
            i < views.len() && #[trigger] mentions(views, i, view_drop_order(views)[q])
                && !view_drop_order(views).take(p).contains(i),
{
    let (done, rest) = (safe_order(views), leftovers(views, safe_order(views)));
    let order = view_drop_order(views);
    lemma_safe_order(views);
    law_each_view_once(views);
    let (x, y) = (order[p], order[q]);
    assert(order.contains(x) && order.contains(y));
    if q < done.len() {
        assert(order.take(p) =~= done.take(p));
        if is_free(views, done.take(p), done[q]) {
            assert(place_order(views)(done[p], done[q]));
            assert(goes_first(views[x as int], views[y as int]));
        } else {
            let i = choose|i: usize|
                i < views.len() && #[trigger] depends_on(views, i, y) && !done.take(p).contains(i);
            law_what_a_view_reads(views, i, y);
        }
    } else if p >= done.len() {
        let open = |j: usize| !done.contains(j);
        lemma_place_order(views);
        law_stable_sort(places(views.len()).filter(open), place_order(views));
        assert(is_sorted(rest, place_order(views)));
        assert(place_order(views)(rest[p - done.len()], rest[q - done.len()]));
        assert(goes_first(views[x as int], views[y as int]));
    } else {
        assert(rest.contains(rest[q - done.len()]));
        assert(!done.contains(y));
        assert(!Seq::<usize>::empty().contains(y));
        assert(!is_free(views, done, y));
        let i = choose|i: usize|
            i < views.len() && #[trigger] depends_on(views, i, y) && !done.contains(i);
        law_what_a_view_reads(views, i, y);
        assert(!order.take(p).contains(i)) by {
            if order.take(p).contains(i) {
                let k = choose|k: int| 0 <= k < p && order.take(p)[k] == i;
                assert(done[k] == i);
            }
        }
    }
}

proof fn lemma_held(
    views: Seq<objects::View>,
    held: spec_fn(usize) -> bool,
    reader: spec_fn(usize) -> usize,
    q: int,
)
    requires
        views.len() <= usize::MAX,
        turn_inv(views, safe_order(views), Seq::empty()),
        forall|y: usize|
            #![trigger reader(y)]
            y < views.len() && held(y) ==> reader(y) < views.len() && held(reader(y)) && mentions(
                views,
                reader(y),
                y,
            ),
        0 <= q < safe_order(views).len(),
    ensures
        !held(safe_order(views)[q]),
    decreases q,
{
    let done = safe_order(views);
    let y = done[q];
    assert(done.contains(y));
    if held(y) {
        let x = reader(y);
        law_what_a_view_reads(views, x, y);
        assert(is_free(views, done.take(q), done[q]));
        assert(done.take(q).contains(x));
        let p = choose|p: int| 0 <= p < q && done.take(q)[p] == x;
        lemma_held(views, held, reader, p);
    }
}

/// Views that are held in circles, each named by another one of them, go by rank
/// alone, and behind every view that is settled.
pub proof fn law_views_in_circles_go_last(
    views: Seq<objects::View>,
    held: spec_fn(usize) -> bool,
    reader: spec_fn(usize) -> usize,
    settled: spec_fn(usize) -> bool,
    depth: spec_fn(usize) -> nat,
    p: int,
    q: int,
)
    requires
        views.len() <= usize::MAX,
        forall|y: usize|
            #![trigger reader(y)]
            y < views.len() && held(y) ==> reader(y) < views.len() && held(reader(y)) && mentions(
                views,
                reader(y),
                y,
            ),
        forall|x: usize, y: usize|
            x < views.len() && y < views.len() && settled(y) && #[trigger] mentions(views, x, y)
                ==> settled(x) && depth(x) < depth(y),
        0 <= p < views.len(),
        0 <= q < views.len(),
        held(view_drop_order(views)[q]),
    ensures
        settled(view_drop_order(views)[p]) ==> p < q,
        held(view_drop_order(views)[p]) && p < q ==> ranks_before(
            views[view_drop_order(views)[p] as int],
            views[view_drop_order(views)[q] as int],
        ),
{
    let (done, rest) = (safe_order(views), leftovers(views, safe_order(views)));
    let order = view_drop_order(views);
    lemma_safe_order(views);
    law_each_view_once(views);
    let (x, y) = (order[p], order[q]);
    assert(order.contains(x) && order.contains(y));
    assert(q >= done.len()) by {
        if q < done.len() {
            lemma_held(views, held, reader, q);
        }
    }
    if settled(x) {
        lemma_settled(views, settled, depth, x);
        let k = choose|k: int| 0 <= k < done.len() && done[k] == x;
        assert(order[k] == x);
    }
    if held(x) && p < q {
        assert(p >= done.len()) by {
            if p < done.len() {
                lemma_held(views, held, reader, p);
            }
        }
        let open = |j: usize| !done.contains(j);
        lemma_place_order(views);
        law_stable_sort(places(views.len()).filter(open), place_order(views));
        assert(is_sorted(rest, place_order(views)));
        assert(place_order(views)(rest[p - done.len()], rest[q - done.len()]));
        assert(goes_first(views[x as int], views[y as int]));
    }
}

} // verus!
