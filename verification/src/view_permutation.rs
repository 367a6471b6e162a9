//! Views that are called differently are dropped in the same order, however
//! they are listed.

use crate::clear::{
    clear_script, stage_at, stage_count, stage_items, stage_text, stages_text, Stage, STAGE_COUNT,
};
use crate::drop_order::{
    depends_on, dropped_in_turn, first_candidates, is_free, law_each_view_once, leftovers,
    lemma_filter_members, lemma_first_turn, lemma_place_order, lemma_reads_upto, lemma_safe_order,
    lemma_view_named, moved_to_end, other_than, place_order, places, queued, reads, reads_upto,
    released, safe_order, view_drop_order, view_key, view_named,
};
use crate::dump::Dump;
use crate::objects;
use crate::order::{inserted, is_sorted, law_stable_sort, law_text_order};
use vstd::prelude::*;

verus! {

/// No two of the views have the same qualified name.
pub open spec fn are_called_differently(views: Seq<objects::View>) -> bool {
    forall|i: int, j: int|
        0 <= i < j < views.len() ==> view_key(#[trigger] views[i]) != view_key(#[trigger] views[j])
}

/// The view at place `i` of `b` stands at place `to(i)` of `a`; `back` leads back.
spec fn is_shuffle(
    a: Seq<objects::View>,
    b: Seq<objects::View>,
    to: spec_fn(usize) -> usize,
    back: spec_fn(usize) -> usize,
) -> bool {
    &&& a.len() == b.len() <= usize::MAX
    &&& forall|i: usize| i < b.len() ==> #[trigger] to(i) < a.len()
    &&& forall|i: usize| i < b.len() ==> back(#[trigger] to(i)) == i
    &&& forall|i: usize| i < b.len() ==> a[#[trigger] to(i) as int] == b[i as int]
    &&& forall|k: usize| k < a.len() ==> #[trigger] back(k) < b.len()
    &&& forall|k: usize| k < a.len() ==> to(#[trigger] back(k)) == k
}

/// Every place is one of the first `bound`.
spec fn all_below(s: Seq<usize>, bound: nat) -> bool {
    forall|k: int| 0 <= k < s.len() ==> #[trigger] s[k] < bound
}

proof fn lemma_below(s: Seq<usize>, bound: nat)
    ensures
        all_below(s, bound) <==> forall|x: usize| #[trigger] s.contains(x) ==> x < bound,
{
    if forall|x: usize| #[trigger] s.contains(x) ==> x < bound {
        assert forall|k: int| 0 <= k < s.len() implies #[trigger] s[k] < bound by {
            assert(s.contains(s[k]));
        }
    }
}

/// A place stands in `s` where its image stands in the image of `s`.
proof fn lemma_image_members(
    a: Seq<objects::View>,
    b: Seq<objects::View>,
    to: spec_fn(usize) -> usize,
    back: spec_fn(usize) -> usize,
    s: Seq<usize>,
)
    requires
        is_shuffle(a, b, to, back),
        all_below(s, b.len()),
    ensures
        forall|x: usize|
            x < b.len() ==> (#[trigger] s.contains(x) <==> s.map_values(to).contains(to(x))),
        all_below(s.map_values(to), a.len()),
{
    let image = s.map_values(to);
    assert forall|x: usize| x < b.len() implies (#[trigger] s.contains(x) <==> image.contains(to(x))) by {
        if s.contains(x) {
            let k = choose|k: int| 0 <= k < s.len() && s[k] == x;
            assert(image[k] == to(x));
        }
        if image.contains(to(x)) {
            let k = choose|k: int| 0 <= k < image.len() && image[k] == to(x);
            assert(back(to(s[k])) == s[k]);
            assert(back(to(x)) == x);
            assert(s[k] == x);
        }
    }
    assert forall|k: int| 0 <= k < image.len() implies #[trigger] image[k] < a.len() by {
        assert(s[k] < b.len());
        assert(image[k] == to(s[k]));
    }
}

/// Filtering the image is the image of filtering.
proof fn lemma_filter_image(
    s: Seq<usize>,
    to: spec_fn(usize) -> usize,
    p: spec_fn(usize) -> bool,
    q: spec_fn(usize) -> bool,
)
    requires
        forall|k: int| 0 <= k < s.len() ==> p(#[trigger] s[k]) == q(to(s[k])),
    ensures
        s.map_values(to).filter(q) == s.filter(p).map_values(to),
    decreases s.len(),
{
    reveal(Seq::filter);
    if s.len() > 0 {
        let rest = s.drop_last();
        assert forall|k: int| 0 <= k < rest.len() implies p(#[trigger] rest[k]) == q(to(rest[k])) by {
            assert(rest[k] == s[k]);
        }
        lemma_filter_image(rest, to, p, q);
        assert(s =~= rest.push(s.last()));
        assert(s.map_values(to) =~= rest.map_values(to).push(to(s.last())));
        rest.lemma_filter_push(s.last(), p);
        rest.map_values(to).lemma_filter_push(to(s.last()), q);
        assert(p(s[s.len() - 1]) == q(to(s[s.len() - 1])));
        if p(s.last()) {
            assert(rest.filter(p).push(s.last()).map_values(to) =~= rest.filter(p).map_values(
                to,
            ).push(to(s.last())));
        }
    } else {
        assert(s.map_values(to).filter(q) =~= s.filter(p).map_values(to));
    }
}

/// A name is found at the image of the place where it was.
proof fn lemma_named_image(
    a: Seq<objects::View>,
    b: Seq<objects::View>,
    to: spec_fn(usize) -> usize,
    back: spec_fn(usize) -> usize,
    name: Seq<char>,
)
    requires
        is_shuffle(a, b, to, back),
        are_called_differently(a),
    ensures
        match view_named(b, name, b.len() as int) {
            Some(j) => j < b.len() && view_named(a, name, a.len() as int) == Some(to(j)),
            None => view_named(a, name, a.len() as int) is None,
        },
{
    lemma_view_named(a, name, a.len() as int);
    lemma_view_named(b, name, b.len() as int);
    match view_named(b, name, b.len() as int) {
        Some(j) => {
            assert(to(j) < a.len());
            assert(view_key(a[to(j) as int]) == name);
            match view_named(a, name, a.len() as int) {
                Some(k) => {
                    if k < to(j) {
                        assert(view_key(a[k as int]) != view_key(a[to(j) as int]));
                    } else if to(j) < k {
                        assert(view_key(a[to(j) as int]) != view_key(a[k as int]));
                    }
                },
                None => {},
            }
        },
        None => {
            match view_named(a, name, a.len() as int) {
                Some(k) => {
                    let j = back(k);
                    assert(j < b.len() && to(j) == k);
                    assert(view_key(b[j as int]) == name);
                },
                None => {},
            }
        },
    }
}

/// The view at the image of a place reads the images of what is read there.
proof fn lemma_reads_image(
    a: Seq<objects::View>,
    b: Seq<objects::View>,
    to: spec_fn(usize) -> usize,
    back: spec_fn(usize) -> usize,
    i: usize,
    upto: int,
)
    requires
        is_shuffle(a, b, to, back),
        are_called_differently(a),
        i < b.len(),
    ensures
        all_below(reads_upto(b, i, upto), b.len()),
        reads_upto(a, to(i), upto) == reads_upto(b, i, upto).map_values(to),
    decreases upto,
{
    lemma_reads_upto(b, i, upto);
    lemma_below(reads_upto(b, i, upto), b.len());
    assert(a[to(i) as int] == b[i as int]);
    if upto <= 0 {
        assert(reads_upto(a, to(i), upto) =~= reads_upto(b, i, upto).map_values(to));
    } else {
        lemma_reads_image(a, b, to, back, i, upto - 1);
        let before = reads_upto(b, i, upto - 1);
        let relation = b[i as int].table_relation@[upto - 1]@;
        lemma_named_image(a, b, to, back, relation);
        match view_named(b, relation, b.len() as int) {
            Some(j) => {
                assert(back(to(j)) == j && back(to(i)) == i);
                if j != i {
                    assert forall|k: int| 0 <= k < before.len() implies other_than(j)(
                        #[trigger] before[k],
                    ) == other_than(to(j))(to(before[k])) by {
                        assert(back(to(before[k])) == before[k]);
                    }
                    lemma_filter_image(before, to, other_than(j), other_than(to(j)));
                    assert(moved_to_end(before, j).map_values(to) =~= moved_to_end(
                        before.map_values(to),
                        to(j),
                    ));
                }
            },
            None => {},
        }
    }
}

/// A view is free where its image is.
proof fn lemma_free_image(
    a: Seq<objects::View>,
    b: Seq<objects::View>,
    to: spec_fn(usize) -> usize,
    back: spec_fn(usize) -> usize,
    dropped: Seq<usize>,
    j: usize,
)
    requires
        is_shuffle(a, b, to, back),
        are_called_differently(a),
        all_below(dropped, b.len()),
        j < b.len(),
    ensures
        is_free(b, dropped, j) == is_free(a, dropped.map_values(to), to(j)),
{
    let image = dropped.map_values(to);
    lemma_image_members(a, b, to, back, dropped);
    assert forall|i: usize| i < b.len() implies #[trigger] depends_on(b, i, j) == depends_on(
        a,
        to(i),
        to(j),
    ) by {
        assert(a[to(i) as int] == b[i as int]);
        lemma_reads_image(a, b, to, back, i, b[i as int].table_relation@.len() as int);
        lemma_image_members(a, b, to, back, reads(b, i));
        assert(reads(b, i).contains(j) <==> reads(b, i).map_values(to).contains(to(j)));
    }
    if is_free(b, dropped, j) {
        assert forall|k: usize| k < a.len() && #[trigger] depends_on(a, k, to(j)) implies image.contains(
            k,
        ) by {
            let i = back(k);
            assert(i < b.len() && to(i) == k);
            assert(depends_on(b, i, j));
            assert(dropped.contains(i));
        }
    }
    if is_free(a, image, to(j)) {
        assert forall|i: usize| i < b.len() && #[trigger] depends_on(b, i, j) implies dropped.contains(
            i,
        ) by {
            assert(to(i) < a.len());
            assert(depends_on(a, to(i), to(j)));
            assert(image.contains(to(i)));
        }
    }
}

/// Inserting into the image is the image of inserting.
proof fn lemma_inserted_image(
    a: Seq<objects::View>,
    b: Seq<objects::View>,
    to: spec_fn(usize) -> usize,
    back: spec_fn(usize) -> usize,
    s: Seq<usize>,
    x: usize,
)
    requires
        is_shuffle(a, b, to, back),
        all_below(s, b.len()),
        x < b.len(),
    ensures
        inserted(s.map_values(to), to(x), place_order(a)) == inserted(
            s,
            x,
            place_order(b),
        ).map_values(to),
        all_below(inserted(s, x, place_order(b)), b.len()),
    decreases s.len(),
{
    let (image, left, right) = (s.map_values(to), place_order(a), place_order(b));
    assert(a[to(x) as int] == b[x as int]);
    if s.len() > 0 {
        assert(s[s.len() - 1] < b.len());
        assert(image.last() == to(s.last()));
        assert(a[to(s.last()) as int] == b[s.last() as int]);
        assert(left(image.last(), to(x)) == right(s.last(), x));
    }
    if s.len() == 0 || right(s.last(), x) {
        assert(image.push(to(x)) =~= s.push(x).map_values(to));
    } else {
        let rest = s.drop_last();
        assert forall|k: int| 0 <= k < rest.len() implies #[trigger] rest[k] < b.len() by {
            assert(rest[k] == s[k]);
        }
        lemma_inserted_image(a, b, to, back, rest, x);
        assert(image.drop_last() =~= rest.map_values(to));
        assert(inserted(rest, x, right).map_values(to).push(to(s.last())) =~= inserted(
            rest,
            x,
            right,
        ).push(s.last()).map_values(to));
    }
}

/// Queueing the image is the image of queueing.
proof fn lemma_queued_image(
    a: Seq<objects::View>,
    b: Seq<objects::View>,
    to: spec_fn(usize) -> usize,
    back: spec_fn(usize) -> usize,
    candidates: Seq<usize>,
    more: Seq<usize>,
)
    requires
        is_shuffle(a, b, to, back),
        all_below(candidates, b.len()),
        all_below(more, b.len()),
    ensures
        queued(a, candidates.map_values(to), more.map_values(to)) == queued(
            b,
            candidates,
            more,
        ).map_values(to),
        all_below(queued(b, candidates, more), b.len()),
    decreases more.len(),
{
    if more.len() > 0 {
        let rest = more.drop_last();
        assert forall|k: int| 0 <= k < rest.len() implies #[trigger] rest[k] < b.len() by {
            assert(rest[k] == more[k]);
        }
        assert(more[more.len() - 1] < b.len());
        lemma_queued_image(a, b, to, back, candidates, rest);
        lemma_inserted_image(a, b, to, back, queued(b, candidates, rest), more.last());
        assert(more.map_values(to).drop_last() =~= rest.map_values(to));
    }
}

/// Dropping the image in turn is the image of dropping in turn.
proof fn lemma_turns_image(
    a: Seq<objects::View>,
    b: Seq<objects::View>,
    to: spec_fn(usize) -> usize,
    back: spec_fn(usize) -> usize,
    dropped: Seq<usize>,
    candidates: Seq<usize>,
)
    requires
        is_shuffle(a, b, to, back),
        are_called_differently(a),
        all_below(dropped, b.len()),
        all_below(candidates, b.len()),
    ensures
        dropped_in_turn(a, dropped.map_values(to), candidates.map_values(to)) == dropped_in_turn(
            b,
            dropped,
            candidates,
        ).map_values(to),
    decreases b.len() - dropped.len(),
{
    if candidates.len() == 0 || dropped.len() >= b.len() {
    } else {
        let i = candidates[0];
        let after = dropped.push(i);
        let rest = candidates.drop_first();
        let more = released(b, after, i);
        assert(i < b.len());
        assert(all_below(after, b.len()));
        assert forall|k: int| 0 <= k < rest.len() implies #[trigger] rest[k] < b.len() by {
            assert(rest[k] == candidates[k + 1]);
        }
        assert(dropped.map_values(to).push(to(i)) =~= after.map_values(to));
        assert(candidates.map_values(to).drop_first() =~= rest.map_values(to));
        assert(a[to(i) as int] == b[i as int]);
        lemma_reads_image(a, b, to, back, i, b[i as int].table_relation@.len() as int);
        let free = |j: usize| is_free(b, after, j);
        let free_image = |j: usize| is_free(a, after.map_values(to), j);
        let read = reads(b, i);
        assert forall|k: int| 0 <= k < read.len() implies free(#[trigger] read[k]) == free_image(
            to(read[k]),
        ) by {
            lemma_free_image(a, b, to, back, after, read[k]);
        }
        lemma_filter_image(read, to, free, free_image);
        lemma_filter_members(read, free);
        lemma_below(read, b.len());
        lemma_below(more, b.len());
        lemma_queued_image(a, b, to, back, rest, more);
        lemma_turns_image(a, b, to, back, after, queued(b, rest, more));
    }
}

/// Two sorted sequences of the same places are the same, where no two places
/// are equal under the order.
pub(crate) proof fn lemma_sorted_unique(s: Seq<usize>, t: Seq<usize>, le: spec_fn(usize, usize) -> bool)
    requires
        is_sorted(s, le),
        is_sorted(t, le),
        s.no_duplicates(),
        t.no_duplicates(),
        forall|x: usize| #[trigger] s.contains(x) <==> t.contains(x),
        forall|x: usize, y: usize|
            s.contains(x) && s.contains(y) && #[trigger] le(x, y) && #[trigger] le(y, x) ==> x == y,
    ensures
        s == t,
    decreases s.len(),
{
    if s.len() == 0 {
        if t.len() > 0 {
            assert(t.contains(t[0]));
            assert(s.contains(t[0]));
        }
        assert(s =~= t);
    } else {
        let (x, y) = (s.last(), t.last());
        assert(s.contains(s[s.len() - 1]));
        assert(t.contains(x));
        let p = choose|p: int| 0 <= p < t.len() && t[p] == x;
        assert(t.contains(t[t.len() - 1]));
        assert(s.contains(y));
        let q = choose|q: int| 0 <= q < s.len() && s[q] == y;
        if x != y {
            assert(le(t[p], t[t.len() - 1]));
            assert(le(s[q], s[s.len() - 1]));
            assert(le(x, y) && le(y, x));
        }
        let (rest, other) = (s.drop_last(), t.drop_last());
        assert forall|z: usize| #[trigger] rest.contains(z) <==> other.contains(z) by {
            lemma_without_last(s, z);
            lemma_without_last(t, z);
        }
        assert forall|u: usize, v: usize|
            rest.contains(u) && rest.contains(v) && #[trigger] le(u, v) && #[trigger] le(v, u) implies u == v by {
            lemma_without_last(s, u);
            lemma_without_last(s, v);
        }
        lemma_sorted_unique(rest, other, le);
        assert(s =~= rest.push(x));
        assert(t =~= other.push(y));
    }
}

proof fn lemma_without_last(s: Seq<usize>, x: usize)
    requires
        s.len() > 0,
        s.no_duplicates(),
    ensures
        s.drop_last().contains(x) <==> s.contains(x) && x != s.last(),
{
    let rest = s.drop_last();
    if rest.contains(x) {
        let k = choose|k: int| 0 <= k < rest.len() && rest[k] == x;
        assert(s[k] == x);
    }
    if s.contains(x) && x != s.last() {
        let k = choose|k: int| 0 <= k < s.len() && s[k] == x;
        assert(rest[k] == x);
    }
}

/// Places of `a` in order, and places of `b` in order whose images they are.
proof fn lemma_sorted_image(
    a: Seq<objects::View>,
    b: Seq<objects::View>,
    to: spec_fn(usize) -> usize,
    back: spec_fn(usize) -> usize,
    s: Seq<usize>,
    t: Seq<usize>,
)
    requires
        is_shuffle(a, b, to, back),
        are_called_differently(a),
        is_sorted(s, place_order(a)),
        is_sorted(t, place_order(b)),
        s.no_duplicates(),
        t.no_duplicates(),
        all_below(s, a.len()),
        all_below(t, b.len()),
        forall|x: usize| x < b.len() ==> (#[trigger] t.contains(x) <==> s.contains(to(x))),
    ensures
        s == t.map_values(to),
{
    let image = t.map_values(to);
    let le = place_order(a);
    lemma_image_members(a, b, to, back, t);
    lemma_below(image, a.len());
    lemma_below(s, a.len());
    assert forall|i: int, j: int| 0 <= i < j < image.len() implies le(
        #[trigger] image[i],
        #[trigger] image[j],
    ) by {
        assert(place_order(b)(t[i], t[j]));
        assert(a[to(t[i]) as int] == b[t[i] as int]);
        assert(a[to(t[j]) as int] == b[t[j] as int]);
    }
    assert forall|i: int, j: int| 0 <= i < j < image.len() implies image[i] != image[j] by {
        assert(back(to(t[i])) == t[i] && back(to(t[j])) == t[j]);
    }
    assert forall|x: usize| #[trigger] s.contains(x) <==> image.contains(x) by {
        if s.contains(x) {
            assert(back(x) < b.len() && to(back(x)) == x);
            assert(t.contains(back(x)));
        }
        if image.contains(x) {
            assert(back(x) < b.len() && to(back(x)) == x);
            assert(t.contains(back(x)));
        }
    }
    assert forall|x: usize, y: usize|
        s.contains(x) && s.contains(y) && #[trigger] le(x, y) && #[trigger] le(y, x) implies x == y by {
        let (v, w) = (view_key(a[x as int]), view_key(a[y as int]));
        law_text_order(v, w, v);
        if x < y {
            assert(view_key(a[x as int]) != view_key(a[y as int]));
        } else if y < x {
            assert(view_key(a[y as int]) != view_key(a[x as int]));
        }
    }
    lemma_sorted_unique(s, image, le);
}

proof fn lemma_first_candidates_image(
    a: Seq<objects::View>,
    b: Seq<objects::View>,
    to: spec_fn(usize) -> usize,
    back: spec_fn(usize) -> usize,
)
    requires
        is_shuffle(a, b, to, back),
        are_called_differently(a),
    ensures
        first_candidates(a) == first_candidates(b).map_values(to),
        all_below(first_candidates(b), b.len()),
{
    let (s, t) = (first_candidates(a), first_candidates(b));
    lemma_first_turn(a);
    lemma_first_turn(b);
    lemma_below(s, a.len());
    lemma_below(t, b.len());
    let none = Seq::<usize>::empty();
    assert(none.map_values(to) =~= none);
    assert forall|x: usize| x < b.len() implies (#[trigger] t.contains(x) <==> s.contains(to(x))) by {
        lemma_free_image(a, b, to, back, none, x);
        assert(to(x) < a.len());
    }
    lemma_sorted_image(a, b, to, back, s, t);
}

proof fn lemma_leftovers_sorted(views: Seq<objects::View>, dropped: Seq<usize>)
    ensures
        is_sorted(leftovers(views, dropped), place_order(views)),
{
    let open = |j: usize| !dropped.contains(j);
    lemma_place_order(views);
    law_stable_sort(places(views.len()).filter(open), place_order(views));
}

/// The order of the drops is the image of the order of the drops.
proof fn lemma_order_image(
    a: Seq<objects::View>,
    b: Seq<objects::View>,
    to: spec_fn(usize) -> usize,
    back: spec_fn(usize) -> usize,
)
    requires
        is_shuffle(a, b, to, back),
        are_called_differently(a),
    ensures
        view_drop_order(a) == view_drop_order(b).map_values(to),
{
    let none = Seq::<usize>::empty();
    assert(none.map_values(to) =~= none);
    lemma_first_candidates_image(a, b, to, back);
    lemma_turns_image(a, b, to, back, none, first_candidates(b));
    let (done_a, done_b) = (safe_order(a), safe_order(b));
    assert(done_a == done_b.map_values(to));
    lemma_safe_order(a);
    lemma_safe_order(b);
    lemma_below(done_b, b.len());
    lemma_image_members(a, b, to, back, done_b);
    let (s, t) = (leftovers(a, done_a), leftovers(b, done_b));
    lemma_leftovers_sorted(a, done_a);
    lemma_leftovers_sorted(b, done_b);
    lemma_below(s, a.len());
    lemma_below(t, b.len());
    assert forall|x: usize| x < b.len() implies (#[trigger] t.contains(x) <==> s.contains(to(x))) by {
        assert(to(x) < a.len());
        assert(done_b.contains(x) <==> done_a.contains(to(x)));
    }
    lemma_sorted_image(a, b, to, back, s, t);
    assert(done_b.map_values(to) + t.map_values(to) =~= (done_b + t).map_values(to));
}

/// Where `s` holds the view, the place of it.
spec fn place_of(s: Seq<objects::View>, v: objects::View) -> usize {
    choose|k: usize| k < s.len() && s[k as int] == v
}

proof fn lemma_place_of(s: Seq<objects::View>, v: objects::View)
    requires
        s.len() <= usize::MAX,
        s.contains(v),
    ensures
        place_of(s, v) < s.len(),
        s[place_of(s, v) as int] == v,
{
    let k = choose|k: int| 0 <= k < s.len() && s[k] == v;
    assert((k as usize) < s.len() && s[k as usize as int] == v);
}

/// The views of two lists of the same views correspond.
proof fn lemma_shuffle(a: Seq<objects::View>, b: Seq<objects::View>)
    requires
        a.to_multiset() == b.to_multiset(),
        are_called_differently(a),
        a.len() <= usize::MAX,
    ensures
        is_shuffle(a, b, |i: usize| place_of(a, b[i as int]), |k: usize| place_of(b, a[k as int])),
{
    broadcast use vstd::seq_lib::group_to_multiset_ensures;

    let to = |i: usize| place_of(a, b[i as int]);
    let back = |k: usize| place_of(b, a[k as int]);
    assert(a.to_multiset().len() == a.len());
    assert(b.to_multiset().len() == b.len());
    assert(a.no_duplicates());
    a.lemma_multiset_has_no_duplicates();
    b.lemma_multiset_has_no_duplicates_conv();
    assert forall|v: objects::View| #[trigger] a.contains(v) <==> b.contains(v) by {
        assert(a.contains(v) <==> a.to_multiset().count(v) > 0);
        assert(b.contains(v) <==> b.to_multiset().count(v) > 0);
    }
    assert forall|i: usize| i < b.len() implies #[trigger] to(i) < a.len() && a[to(i) as int]
        == b[i as int] && back(to(i)) == i by {
        assert(b.contains(b[i as int]));
        lemma_place_of(a, b[i as int]);
        lemma_place_of(b, b[i as int]);
    }
    assert forall|k: usize| k < a.len() implies #[trigger] back(k) < b.len() && to(back(k)) == k by {
        assert(a.contains(a[k as int]));
        lemma_place_of(b, a[k as int]);
        lemma_place_of(a, a[k as int]);
    }
}

/// Views that are called differently are dropped in the same order, however
/// they are listed.
pub proof fn law_order_of_views_listed(a: Seq<objects::View>, b: Seq<objects::View>)
    requires
        a.len() <= usize::MAX,
        a.to_multiset() == b.to_multiset(),
        are_called_differently(a),
    ensures
        view_drop_order(a).map_values(|i: usize| a[i as int]) == view_drop_order(b).map_values(
            |i: usize| b[i as int],
        ),
{
    let to = |i: usize| place_of(a, b[i as int]);
    let back = |k: usize| place_of(b, a[k as int]);
    lemma_shuffle(a, b);
    lemma_order_image(a, b, to, back);
    law_each_view_once(b);
    let order = view_drop_order(b);
    assert forall|k: int| 0 <= k < order.len() implies a[to(#[trigger] order[k]) as int]
        == b[order[k] as int] by {
        assert(order.contains(order[k]));
    }
    assert(view_drop_order(a).map_values(|i: usize| a[i as int]) =~= order.map_values(
        |i: usize| b[i as int],
    ));
}

proof fn lemma_same_stage(c: Dump, d: Dump, stage: Stage, comments: bool, cascade: bool)
    requires
        d == (Dump { views: d.views, ..c }),
        c.views@.len() <= usize::MAX,
        c.views@.to_multiset() == d.views@.to_multiset(),
        are_called_differently(c.views@),
    ensures
        stage_text(c, stage, comments, cascade) == stage_text(d, stage, comments, cascade),
{
    broadcast use vstd::seq_lib::group_to_multiset_ensures;

    let (a, b) = (c.views@, d.views@);
    assert(a.to_multiset().len() == a.len());
    assert(b.to_multiset().len() == b.len());
    assert(stage_count(c, stage) == stage_count(d, stage));
    if stage == Stage::Views {
        law_order_of_views_listed(a, b);
        let left = view_drop_order(a).map_values(|i: usize| a[i as int]);
        let right = view_drop_order(b).map_values(|i: usize| b[i as int]);
        assert(left.len() == view_drop_order(a).len());
        assert(right.len() == view_drop_order(b).len());
        assert forall|k: int| 0 <= k < left.len() implies #[trigger] stage_items(c, stage, cascade)[k]
            == stage_items(d, stage, cascade)[k] by {
            assert(left[k] == right[k]);
        }
        assert(stage_items(c, stage, cascade) =~= stage_items(d, stage, cascade));
    }
}

proof fn lemma_same_stages(c: Dump, d: Dump, upto: int, comments: bool, cascade: bool)
    requires
        d == (Dump { views: d.views, ..c }),
        c.views@.len() <= usize::MAX,
        c.views@.to_multiset() == d.views@.to_multiset(),
        are_called_differently(c.views@),
    ensures
        stages_text(c, 0, upto, comments, cascade) == stages_text(d, 0, upto, comments, cascade),
    decreases upto,
{
    if upto > 0 {
        lemma_same_stages(c, d, upto - 1, comments, cascade);
        lemma_same_stage(c, d, stage_at(upto - 1), comments, cascade);
    }
}

/// Two dumps that differ in how views of different names are listed, and in
/// nothing else, have the same script.
pub proof fn law_same_script_however_listed(
    c: Dump,
    d: Dump,
    transaction: bool,
    comments: bool,
    cascade: bool,
)
    requires
        d == (Dump { views: d.views, ..c }),
        c.views@.len() <= usize::MAX,
        c.views@.to_multiset() == d.views@.to_multiset(),
        are_called_differently(c.views@),
    ensures
        clear_script(c, transaction, comments, cascade) == clear_script(
            d,
            transaction,
            comments,
            cascade,
        ),
{
    broadcast use vstd::seq_lib::group_to_multiset_ensures;

    assert(c.views@.to_multiset().len() == c.views@.len());
    assert(d.views@.to_multiset().len() == d.views@.len());
    lemma_same_stages(c, d, STAGE_COUNT as int, comments, cascade);
}

} // verus!
