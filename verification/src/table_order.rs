//! The order in which tables are dropped: partitions before other tables, each
//! as it is listed, but a partition goes before the table that it is a partition
//! of, at every level of partitioning.

use crate::drop_order::{
    lemma_all_places, lemma_distinct_places, lemma_filter_members, lemma_places, lemma_push_members,
    places,
};
use crate::objects::Table;
use crate::order::is_sorted;
use crate::view_permutation::lemma_sorted_unique;
use vstd::prelude::*;

verus! {

broadcast use vstd::string::group_string_axioms;

/// The qualified name of a table.
pub open spec fn table_key(t: Table) -> Seq<char> {
    t.schema@ + "."@ + t.name@
}

/// The table at `i` is a partition of another table, the one at `j`.
pub open spec fn is_partition_of(tables: Seq<Table>, i: usize, j: usize) -> bool {
    &&& i != j
    &&& tables[i as int].partition_of is Some
    &&& tables[i as int].partition_of->0@ == table_key(tables[j as int])
}

/// So many links lead from the table at `i` up to the table at `j`.
pub open spec fn leads_in(tables: Seq<Table>, i: usize, j: usize, links: nat) -> bool
    decreases links,
{
    if links == 0 {
        i == j
    } else {
        exists|k: usize|
            k < tables.len() && #[trigger] is_partition_of(tables, i, k) && leads_in(
                tables,
                k,
                j,
                (links - 1) as nat,
            )
    }
}

/// Links lead from the table at `i` up to the table at `j`.
pub open spec fn leads_to(tables: Seq<Table>, i: usize, j: usize) -> bool {
    exists|links: nat| leads_in(tables, i, j, links)
}

/// The table at `i` has to be dropped before the table at `j`: it is a partition
/// of it, and the two do not stand in a circle.
pub open spec fn goes_before(tables: Seq<Table>, i: usize, j: usize) -> bool {
    is_partition_of(tables, i, j) && !leads_to(tables, j, i)
}

/// Every table that has to go before the table at `j` has been dropped.
pub open spec fn is_ready(tables: Seq<Table>, dropped: Seq<usize>, j: usize) -> bool {
    forall|i: usize| i < tables.len() && #[trigger] goes_before(tables, i, j) ==> dropped.contains(i)
}

/// The table at `j` is a partition that waits for nothing.
pub open spec fn is_next(tables: Seq<Table>, dropped: Seq<usize>, j: usize) -> bool {
    &&& tables[j as int].partition_of is Some
    &&& !dropped.contains(j)
    &&& is_ready(tables, dropped, j)
}

/// The first partition, from `from` on, that waits for nothing.
pub open spec fn next_partition(tables: Seq<Table>, dropped: Seq<usize>, from: int) -> Option<usize>
    decreases tables.len() - from,
{
    if from >= tables.len() {
        None
    } else if is_next(tables, dropped, from as usize) {
        Some(from as usize)
    } else {
        next_partition(tables, dropped, from + 1)
    }
}

/// Drops the first partition that waits for nothing until there is none.
pub open spec fn partitions_in_turn(tables: Seq<Table>, dropped: Seq<usize>) -> Seq<usize>
    decreases tables.len() - dropped.len(),
{
    match next_partition(tables, dropped, 0) {
        Some(j) => if dropped.len() < tables.len() {
            partitions_in_turn(tables, dropped.push(j))
        } else {
            dropped
        },
        None => dropped,
    }
}

/// The places of the partitions, as they are listed.
pub open spec fn listed_partitions(tables: Seq<Table>) -> Seq<usize> {
    places(tables.len()).filter(|i: usize| tables[i as int].partition_of is Some)
}

/// The places of the tables that are no partitions, as they are listed.
pub open spec fn other_tables(tables: Seq<Table>) -> Seq<usize> {
    places(tables.len()).filter(|i: usize| tables[i as int].partition_of is None)
}

/// The order in which tables are dropped: partitions in turn, then the others.
pub open spec fn table_drop_order(tables: Seq<Table>) -> Seq<usize> {
    partitions_in_turn(tables, Seq::empty()) + other_tables(tables)
}

proof fn lemma_leads_further(
    tables: Seq<Table>,
    i: usize,
    j: usize,
    k: usize,
    links: nat,
    more: nat,
)
    requires
        leads_in(tables, i, j, links),
        leads_in(tables, j, k, more),
    ensures
        leads_in(tables, i, k, links + more),
    decreases links,
{
    if links > 0 {
        let m = choose|m: usize|
            m < tables.len() && #[trigger] is_partition_of(tables, i, m) && leads_in(
                tables,
                m,
                j,
                (links - 1) as nat,
            );
        lemma_leads_further(tables, m, j, k, (links - 1) as nat, more);
        assert((links + more - 1) as nat == (links - 1) as nat + more);
    }
}

/// Links that lead up can be followed one after the other.
proof fn lemma_leads(tables: Seq<Table>, i: usize, j: usize, k: usize)
    ensures
        leads_to(tables, i, i),
        leads_to(tables, i, j) && leads_to(tables, j, k) ==> leads_to(tables, i, k),
        j < tables.len() && is_partition_of(tables, i, j) ==> leads_to(tables, i, j),
{
    assert(leads_in(tables, i, i, 0));
    if leads_to(tables, i, j) && leads_to(tables, j, k) {
        let links = choose|links: nat| leads_in(tables, i, j, links);
        let more = choose|more: nat| leads_in(tables, j, k, more);
        lemma_leads_further(tables, i, j, k, links, more);
    }
    if j < tables.len() && is_partition_of(tables, i, j) {
        assert(leads_in(tables, j, j, 0));
        assert(leads_in(tables, i, j, 1));
    }
}

/// The tables from which links lead up to the table at `j`, itself among them.
spec fn below(tables: Seq<Table>, j: usize) -> Set<int> {
    Set::new(|i: int| 0 <= i < tables.len() && leads_to(tables, i as usize, j))
}

proof fn lemma_below_finite(tables: Seq<Table>, j: usize)
    ensures
        below(tables, j).finite(),
{
    vstd::set_lib::lemma_int_range(0, tables.len() as int);
    assert(below(tables, j).subset_of(vstd::set_lib::set_int_range(0, tables.len() as int)));
}

/// A table that goes before another has fewer tables below it.
proof fn lemma_fewer_below(tables: Seq<Table>, i: usize, j: usize)
    requires
        tables.len() <= usize::MAX,
        j < tables.len(),
        goes_before(tables, i, j),
    ensures
        below(tables, i).len() < below(tables, j).len(),
{
    let (a, b) = (below(tables, i), below(tables, j));
    lemma_below_finite(tables, i);
    lemma_below_finite(tables, j);
    lemma_leads(tables, j, j, j);
    lemma_leads(tables, i, j, j);
    assert(b.contains(j as int) && !a.contains(j as int));
    assert forall|x: int| a.contains(x) implies b.remove(j as int).contains(x) by {
        lemma_leads(tables, x as usize, i, j);
    }
    vstd::set_lib::lemma_len_subset(a, b.remove(j as int));
}

/// While a partition is left, one of those that are left waits for nothing.
proof fn lemma_some_next(tables: Seq<Table>, dropped: Seq<usize>, j: usize) -> (k: usize)
    requires
        tables.len() <= usize::MAX,
        j < tables.len(),
        tables[j as int].partition_of is Some,
        !dropped.contains(j),
    ensures
        k < tables.len(),
        is_next(tables, dropped, k),
    decreases below(tables, j).len(),
{
    if is_ready(tables, dropped, j) {
        j
    } else {
        let i = choose|i: usize|
            i < tables.len() && #[trigger] goes_before(tables, i, j) && !dropped.contains(i);
        lemma_fewer_below(tables, i, j);
        lemma_some_next(tables, dropped, i)
    }
}

/// The partition that is found is the first that waits for nothing.
proof fn lemma_next_partition(tables: Seq<Table>, dropped: Seq<usize>, from: int)
    requires
        0 <= from <= tables.len() <= usize::MAX,
    ensures
        match next_partition(tables, dropped, from) {
            Some(j) => from <= j < tables.len() && is_next(tables, dropped, j) && forall|k: usize|
                from <= k < j ==> !#[trigger] is_next(tables, dropped, k),
            None => forall|k: usize|
                from <= k < tables.len() ==> !#[trigger] is_next(tables, dropped, k),
        },
    decreases tables.len() - from,
{
    if from < tables.len() && !is_next(tables, dropped, from as usize) {
        lemma_next_partition(tables, dropped, from + 1);
    }
}

/// What holds between two drops of partitions.
spec fn turn_inv(tables: Seq<Table>, dropped: Seq<usize>) -> bool {
    &&& dropped.no_duplicates()
    &&& forall|x: usize| #[trigger]
        dropped.contains(x) ==> x < tables.len() && tables[x as int].partition_of is Some
    // each partition went when everything that goes before it was gone
    &&& forall|p: int|
        0 <= p < dropped.len() ==> is_ready(tables, dropped.take(p), #[trigger] dropped[p])
    // and those that are listed before it had gone, or still waited
    &&& forall|p: int, x: usize|
        0 <= p < dropped.len() && x < #[trigger] dropped[p] ==> !#[trigger] is_next(
            tables,
            dropped.take(p),
            x,
        )
}

proof fn lemma_turn(tables: Seq<Table>, dropped: Seq<usize>)
    requires
        tables.len() <= usize::MAX,
        turn_inv(tables, dropped),
        next_partition(tables, dropped, 0) is Some,
    ensures
        turn_inv(tables, dropped.push(next_partition(tables, dropped, 0)->0)),
        dropped.len() < tables.len(),
{
    let j = next_partition(tables, dropped, 0)->0;
    let after = dropped.push(j);
    lemma_next_partition(tables, dropped, 0);
    lemma_push_members(dropped, j);
    assert forall|k: int| 0 <= k < after.len() implies #[trigger] after[k] < tables.len() by {
        assert(after.contains(after[k]));
    }
    lemma_distinct_places(after, tables.len() as int);
    assert forall|p: int| 0 <= p < after.len() implies is_ready(
        tables,
        after.take(p),
        #[trigger] after[p],
    ) by {
        assert(after.take(p) =~= dropped.take(p));
        if p < dropped.len() {
            assert(after[p] == dropped[p]);
        } else {
            assert(dropped.take(p) =~= dropped);
        }
    }
    assert forall|p: int, x: usize|
        0 <= p < after.len() && x < #[trigger] after[p] implies !#[trigger] is_next(
        tables,
        after.take(p),
        x,
    ) by {
        assert(after.take(p) =~= dropped.take(p));
        if p < dropped.len() {
            assert(after[p] == dropped[p]);
        } else {
            assert(dropped.take(p) =~= dropped);
        }
    }
}

/// In the end every partition is dropped.
proof fn lemma_turns(tables: Seq<Table>, dropped: Seq<usize>)
    requires
        tables.len() <= usize::MAX,
        turn_inv(tables, dropped),
    ensures
        turn_inv(tables, partitions_in_turn(tables, dropped)),
        forall|x: usize|
            x < tables.len() && tables[x as int].partition_of is Some
                ==> #[trigger] partitions_in_turn(tables, dropped).contains(x),
    decreases tables.len() - dropped.len(),
{
    lemma_next_partition(tables, dropped, 0);
    match next_partition(tables, dropped, 0) {
        Some(j) => {
            lemma_turn(tables, dropped);
            lemma_turns(tables, dropped.push(j));
        },
        None => {
            assert forall|x: usize|
                x < tables.len() && tables[x as int].partition_of is Some implies #[trigger] dropped.contains(
                x,
            ) by {
                if !dropped.contains(x) {
                    let k = lemma_some_next(tables, dropped, x);
                    assert(!is_next(tables, dropped, k));
                }
            }
        },
    }
}

/// What the two halves of the order are.
proof fn lemma_halves(tables: Seq<Table>)
    requires
        tables.len() <= usize::MAX,
    ensures
        turn_inv(tables, partitions_in_turn(tables, Seq::empty())),
        other_tables(tables).no_duplicates(),
        listed_partitions(tables).no_duplicates(),
        forall|x: usize| #[trigger]
            partitions_in_turn(tables, Seq::empty()).contains(x) <==> x < tables.len()
                && tables[x as int].partition_of is Some,
        forall|x: usize| #[trigger]
            listed_partitions(tables).contains(x) <==> x < tables.len()
                && tables[x as int].partition_of is Some,
        forall|x: usize| #[trigger]
            other_tables(tables).contains(x) <==> x < tables.len()
                && tables[x as int].partition_of is None,
{
    let none = Seq::<usize>::empty();
    assert(turn_inv(tables, none));
    lemma_turns(tables, none);
    lemma_places(tables.len());
    lemma_filter_members(places(tables.len()), |i: usize| tables[i as int].partition_of is None);
    lemma_filter_members(places(tables.len()), |i: usize| tables[i as int].partition_of is Some);
}

/// Every table is dropped exactly once, and partitions are dropped before the
/// tables that are none.
pub proof fn law_each_table_once(tables: Seq<Table>)
    requires
        tables.len() <= usize::MAX,
    ensures
        table_drop_order(tables).len() == tables.len(),
        table_drop_order(tables).no_duplicates(),
        forall|i: usize| i < tables.len() <==> #[trigger] table_drop_order(tables).contains(i),
        forall|p: int, q: int|
            0 <= p < tables.len() && 0 <= q < tables.len() && tables[#[trigger] table_drop_order(
                tables,
            )[p] as int].partition_of is Some && tables[#[trigger] table_drop_order(
                tables,
            )[q] as int].partition_of is None ==> p < q,
{
    let (first, last) = (partitions_in_turn(tables, Seq::empty()), other_tables(tables));
    let order = table_drop_order(tables);
    lemma_halves(tables);
    assert forall|k: int| 0 <= k < order.len() implies (#[trigger] order[k]) < tables.len() && (
    tables[order[k] as int].partition_of is Some <==> k < first.len()) by {
        if k < first.len() {
            assert(first.contains(first[k]));
        } else {
            assert(last.contains(last[k - first.len()]));
        }
    }
    assert forall|p: int, q: int| 0 <= p < q < order.len() implies order[p] != order[q] by {
        if p < first.len() && q >= first.len() {
            assert(tables[order[p] as int].partition_of is Some);
            assert(tables[order[q] as int].partition_of is None);
        }
    }
    assert forall|i: usize| i < tables.len() <==> #[trigger] order.contains(i) by {
        if i < tables.len() {
            if tables[i as int].partition_of is Some {
                assert(first.contains(i));
                let k = choose|k: int| 0 <= k < first.len() && first[k] == i;
                assert(order[k] == i);
            } else {
                assert(last.contains(i));
                let k = choose|k: int| 0 <= k < last.len() && last[k] == i;
                assert(order[first.len() + k] == i);
            }
        }
    }
    lemma_distinct_places(order, tables.len() as int);
    lemma_all_places(order, tables.len());
}

/// A partition is dropped before the table that it is a partition of, which may
/// itself be a partition, unless links lead from that table back to it.
pub proof fn law_partitions_go_first(tables: Seq<Table>, i: usize, j: usize)
    requires
        tables.len() <= usize::MAX,
        i < tables.len(),
        j < tables.len(),
        is_partition_of(tables, i, j),
        !leads_to(tables, j, i),
    ensures
        table_drop_order(tables).contains(i),
        table_drop_order(tables).contains(j),
        table_drop_order(tables).index_of(i) < table_drop_order(tables).index_of(j),
{
    let first = partitions_in_turn(tables, Seq::empty());
    let order = table_drop_order(tables);
    lemma_halves(tables);
    law_each_table_once(tables);
    assert(order.contains(i) && order.contains(j));
    let (p, q) = (order.index_of(i), order.index_of(j));
    assert(goes_before(tables, i, j));
    if tables[j as int].partition_of is Some {
        assert(first.contains(j));
        let k = choose|k: int| 0 <= k < first.len() && first[k] == j;
        assert(order[k] == j && order[q] == j);
        assert(k == q);
        assert(is_ready(tables, first.take(q), first[q]));
        assert(first.take(q).contains(i));
        let m = choose|m: int| 0 <= m < q && first.take(q)[m] == i;
        assert(order[m] == i && order[p] == i);
    } else {
        assert(order[p] == i && order[q] == j);
    }
}

/// A partition is dropped before one that is listed earlier only while that one
/// waits for a partition of its own.
pub proof fn law_listed_order(tables: Seq<Table>, p: int, q: int)
    requires
        tables.len() <= usize::MAX,
        0 <= p < q < tables.len(),
        table_drop_order(tables)[q] < table_drop_order(tables)[p],
        tables[table_drop_order(tables)[q] as int].partition_of is Some,
    ensures
        exists|i: usize|
            i < tables.len() && #[trigger] goes_before(tables, i, table_drop_order(tables)[q])
                && !table_drop_order(tables).take(p).contains(i),
{
    let first = partitions_in_turn(tables, Seq::empty());
    let order = table_drop_order(tables);
    lemma_halves(tables);
    law_each_table_once(tables);
    let x = order[q];
    assert(q < first.len()) by {
        if q >= first.len() {
            assert(other_tables(tables).contains(other_tables(tables)[q - first.len()]));
        }
    }
    assert(order.take(p) =~= first.take(p));
    assert(!is_next(tables, first.take(p), x)) by {
        assert(x < first[p]);
    }
    assert(!first.take(p).contains(x)) by {
        if first.take(p).contains(x) {
            let k = choose|k: int| 0 <= k < p && first.take(p)[k] == x;
            assert(first[k] == x && first[q] == x);
        }
    }
}

/// The partition that stands first in the list, of those that are dropped behind
/// one that is listed later, waits for one that is listed still later.
proof fn lemma_listed(tables: Seq<Table>, p: int, q: int)
    requires
        tables.len() <= usize::MAX,
        forall|i: usize, j: usize|
            i < tables.len() && j < tables.len() && tables[j as int].partition_of is Some
                && #[trigger] goes_before(tables, i, j) ==> i < j,
        0 <= p < q < tables.len(),
        tables[table_drop_order(tables)[q] as int].partition_of is Some,
    ensures
        table_drop_order(tables)[p] < table_drop_order(tables)[q],
    decreases table_drop_order(tables)[q],
{
    let order = table_drop_order(tables);
    law_each_table_once(tables);
    assert(order.contains(order[q]));
    assert(order[p] != order[q]);
    if order[q] < order[p] {
        law_listed_order(tables, p, q);
        let i = choose|i: usize|
            i < tables.len() && #[trigger] goes_before(tables, i, order[q]) && !order.take(
                p,
            ).contains(i);
        assert(order.contains(i));
        let k = choose|k: int| 0 <= k < order.len() && order[k] == i;
        if k < p {
            assert(order.take(p)[k] == i);
        }
        assert(i < order[q]);
        lemma_listed(tables, p, k);
    }
}

proof fn lemma_filtered_places(upto: nat, pred: spec_fn(usize) -> bool)
    requires
        upto <= usize::MAX + 1,
    ensures
        is_sorted(places(upto).filter(pred), |a: usize, b: usize| a <= b),
    decreases upto,
{
    reveal(Seq::filter);
    let le = |a: usize, b: usize| a <= b;
    if upto > 0 {
        let rest = places((upto - 1) as nat);
        let top = (upto - 1) as usize;
        assert(places(upto) =~= rest.push(top));
        lemma_filtered_places((upto - 1) as nat, pred);
        lemma_places((upto - 1) as nat);
        lemma_filter_members(rest, pred);
        rest.lemma_filter_push(top, pred);
        let r = places(upto).filter(pred);
        assert forall|i: int, j: int| 0 <= i < j < r.len() implies le(#[trigger] r[i], #[trigger] r[j]) by {
            let before = rest.filter(pred);
            assert(r[i] == before[i]);
            assert(before.contains(before[i]));
            if j < before.len() {
                assert(r[j] == before[j]);
            }
        }
    }
}

/// Where the list has every partition before the table that it is a partition of,
/// as far as that table is a partition itself, the list decides: partitions
/// first, then the other tables, each as they are listed.
pub proof fn law_list_decides(tables: Seq<Table>)
    requires
        tables.len() <= usize::MAX,
        forall|i: usize, j: usize|
            i < tables.len() && j < tables.len() && tables[j as int].partition_of is Some
                && #[trigger] goes_before(tables, i, j) ==> i < j,
    ensures
        table_drop_order(tables) == listed_partitions(tables) + other_tables(tables),
{
    let le = |a: usize, b: usize| a <= b;
    let (first, listed) = (partitions_in_turn(tables, Seq::empty()), listed_partitions(tables));
    let order = table_drop_order(tables);
    lemma_halves(tables);
    law_each_table_once(tables);
    lemma_filtered_places(tables.len(), |i: usize| tables[i as int].partition_of is Some);
    assert forall|p: int, q: int| 0 <= p < q < first.len() implies le(
        #[trigger] first[p],
        #[trigger] first[q],
    ) by {
        assert(order[p] == first[p] && order[q] == first[q]);
        assert(first.contains(first[q]));
        lemma_listed(tables, p, q);
    }
    lemma_sorted_unique(first, listed, le);
}

/// The table at `i` names another table, the one at `j`, as its parent: by schema
/// and name.
pub open spec fn belongs_to(tables: Seq<Table>, i: usize, j: usize) -> bool {
    &&& i != j
    &&& tables[i as int].partition_of is Some
    &&& tables[i as int].partition_of->0@ == tables[j as int].schema@ + "."@
        + tables[j as int].name@
}

/// So many such names lead from the table at `i` up to the table at `j`.
pub open spec fn climbs(tables: Seq<Table>, i: usize, j: usize, steps: nat) -> bool
    decreases steps,
{
    if steps == 0 {
        i == j
    } else {
        exists|k: usize|
            k < tables.len() && #[trigger] belongs_to(tables, i, k) && climbs(
                tables,
                k,
                j,
                (steps - 1) as nat,
            )
    }
}

proof fn lemma_climbs(tables: Seq<Table>, i: usize, j: usize, steps: nat)
    ensures
        climbs(tables, i, j, steps) == leads_in(tables, i, j, steps),
    decreases steps,
{
    if steps > 0 {
        let less = (steps - 1) as nat;
        if climbs(tables, i, j, steps) {
            let k = choose|k: usize|
                k < tables.len() && #[trigger] belongs_to(tables, i, k) && climbs(
                    tables,
                    k,
                    j,
                    less,
                );
            lemma_climbs(tables, k, j, less);
            assert(is_partition_of(tables, i, k));
        }
        if leads_in(tables, i, j, steps) {
            let k = choose|k: usize|
                k < tables.len() && #[trigger] is_partition_of(tables, i, k) && leads_in(
                    tables,
                    k,
                    j,
                    less,
                );
            lemma_climbs(tables, k, j, less);
            assert(belongs_to(tables, i, k));
        }
    }
}

/// A table waits for a partition exactly where the partition names it as its
/// parent and no chain of parents leads from it back to the partition.
pub proof fn law_what_a_table_waits_for(tables: Seq<Table>, i: usize, j: usize)
    ensures
        goes_before(tables, i, j) <==> belongs_to(tables, i, j) && forall|steps: nat|
            !#[trigger] climbs(tables, j, i, steps),
{
    assert(is_partition_of(tables, i, j) <==> belongs_to(tables, i, j));
    if leads_to(tables, j, i) {
        let steps = choose|steps: nat| leads_in(tables, j, i, steps);
        lemma_climbs(tables, j, i, steps);
        assert(climbs(tables, j, i, steps));
    } else {
        assert forall|steps: nat| !#[trigger] climbs(tables, j, i, steps) by {
            lemma_climbs(tables, j, i, steps);
            assert(!leads_in(tables, j, i, steps));
        }
    }
}

proof fn lemma_settled_below(
    tables: Seq<Table>,
    settled: spec_fn(usize) -> bool,
    depth: spec_fn(usize) -> nat,
    x: usize,
    top: usize,
    links: nat,
)
    requires
        forall|i: usize, j: usize|
            i < tables.len() && j < tables.len() && settled(j) && #[trigger] belongs_to(tables, i, j)
                ==> settled(i) && depth(i) < depth(j),
        x < tables.len(),
        settled(top),
        leads_in(tables, x, top, links),
    ensures
        settled(x),
        depth(x) <= depth(top),
    decreases links,
{
    if links > 0 {
        let k = choose|k: usize|
            k < tables.len() && #[trigger] is_partition_of(tables, x, k) && leads_in(
                tables,
                k,
                top,
                (links - 1) as nat,
            );
        lemma_settled_below(tables, settled, depth, k, top, (links - 1) as nat);
        assert(belongs_to(tables, x, k));
    }
}

/// A partition is dropped before the table that it names as its parent, at every
/// level, as long as no circle of such names leads to the latter: the settled
/// tables are named by settled tables alone, and `depth` grows along the names.
pub proof fn law_partitions_before_what_they_name(
    tables: Seq<Table>,
    settled: spec_fn(usize) -> bool,
    depth: spec_fn(usize) -> nat,
    i: usize,
    j: usize,
)
    requires
        tables.len() <= usize::MAX,
        forall|x: usize, y: usize|
            x < tables.len() && y < tables.len() && settled(y) && #[trigger] belongs_to(tables, x, y)
                ==> settled(x) && depth(x) < depth(y),
        i < tables.len(),
        j < tables.len(),
        settled(j),
        belongs_to(tables, i, j),
    ensures
        table_drop_order(tables).contains(i),
        table_drop_order(tables).contains(j),
        table_drop_order(tables).index_of(i) < table_drop_order(tables).index_of(j),
        !leads_to(tables, j, i),
{
    if leads_to(tables, j, i) {
        let links = choose|links: nat| leads_in(tables, j, i, links);
        lemma_settled_below(tables, settled, depth, j, i, links);
    }
    assert(is_partition_of(tables, i, j));
    law_partitions_go_first(tables, i, j);
}

/// Partitions go before other tables, and tables of one sort as they are listed,
/// unless the one that is listed first still waits for a partition of its own.
pub proof fn law_list_order_unless_a_partition_is_left(tables: Seq<Table>, p: int, q: int)
    requires
        tables.len() <= usize::MAX,
        0 <= p < q < tables.len(),
    ensures
        ({
            let (x, y) = (table_drop_order(tables)[p], table_drop_order(tables)[q]);
            let (a, b) = (tables[x as int].partition_of, tables[y as int].partition_of);
            ||| a is Some && b is None
            ||| (a is Some <==> b is Some) && x < y
            ||| a is Some && b is Some && exists|i: usize|
                i < tables.len() && #[trigger] belongs_to(tables, i, y) && !table_drop_order(
                    tables,
                ).take(p).contains(i) && forall|steps: nat| !#[trigger] climbs(tables, y, i, steps)
        }),
{
    let order = table_drop_order(tables);
    let (first, last) = (partitions_in_turn(tables, Seq::empty()), other_tables(tables));
    lemma_halves(tables);
    law_each_table_once(tables);
    let (x, y) = (order[p], order[q]);
    assert(order.contains(x) && order.contains(y));
    assert(x != y);
    if tables[y as int].partition_of is Some {
        assert(tables[x as int].partition_of is Some);
        if y < x {
            law_listed_order(tables, p, q);
            let i = choose|i: usize|
                i < tables.len() && #[trigger] goes_before(tables, i, y) && !order.take(p).contains(
                    i,
                );
            law_what_a_table_waits_for(tables, i, y);
            assert(belongs_to(tables, i, y));
        }
    } else if tables[x as int].partition_of is None {
        assert(p >= first.len()) by {
            if p < first.len() {
                assert(first.contains(first[p]));
            }
        }
        lemma_filtered_places(tables.len(), |i: usize| tables[i as int].partition_of is None);
        assert(last[p - first.len()] <= last[q - first.len()]);
    }
}

/// The qualified names of the tables.
fn table_names(tables: &Vec<Table>) -> (r: Vec<String>)
    ensures
        r@.len() == tables@.len(),
        forall|k: int| 0 <= k < r@.len() ==> (#[trigger] r@[k])@ == table_key(tables@[k]),
{
    let mut names: Vec<String> = Vec::new();
    let mut i: usize = 0;
    while i < tables.len()
        invariant
            i <= tables@.len(),
            names@.len() == i,
            forall|k: int| 0 <= k < i ==> (#[trigger] names@[k])@ == table_key(tables@[k]),
        decreases tables@.len() - i,
    {
        let mut name = tables[i].schema.clone();
        name.append(".");
        name.append(tables[i].name.as_str());
        names.push(name);
        i += 1;
    }
    names
}

/// Holds the places of the tables that the table at `i` is a partition of.
spec fn are_parents(tables: Seq<Table>, i: usize, parents: Seq<usize>) -> bool {
    forall|k: usize| #[trigger]
        parents.contains(k) <==> k < tables.len() && is_partition_of(tables, i, k)
}

/// The places of the tables that the table at `i` is a partition of.
fn parents_of(tables: &Vec<Table>, names: &Vec<String>, i: usize) -> (r: Vec<usize>)
    requires
        i < tables@.len(),
        names@.len() == tables@.len(),
        forall|k: int| 0 <= k < names@.len() ==> (#[trigger] names@[k])@ == table_key(tables@[k]),
    ensures
        are_parents(tables@, i, r@),
{
    let mut parents: Vec<usize> = Vec::new();
    if let Some(parent) = &tables[i].partition_of {
        let mut j: usize = 0;
        while j < tables.len()
            invariant
                i < tables@.len(),
                j <= tables@.len() == names@.len(),
                tables@[i as int].partition_of == Some(*parent),
                forall|k: int| 0 <= k < names@.len() ==> (#[trigger] names@[k])@ == table_key(tables@[k]),
                forall|k: usize| #[trigger]
                    parents@.contains(k) <==> k < j && is_partition_of(tables@, i, k),
            decreases tables@.len() - j,
        {
            let ghost before = parents@;
            if j != i && names[j] == *parent {
                parents.push(j);
                proof {
                    lemma_push_members(before, j);
                }
            }
            j += 1;
        }
    }
    parents
}

/// For each table the places of the tables that it is a partition of.
fn all_parents(tables: &Vec<Table>) -> (r: Vec<Vec<usize>>)
    ensures
        r@.len() == tables@.len(),
        forall|k: usize| k < tables@.len() ==> are_parents(tables@, k, (#[trigger] r@[k as int])@),
{
    let names = table_names(tables);
    let mut all: Vec<Vec<usize>> = Vec::new();
    let mut i: usize = 0;
    while i < tables.len()
        invariant
            i <= tables@.len() == names@.len(),
            all@.len() == i,
            forall|k: int| 0 <= k < names@.len() ==> (#[trigger] names@[k])@ == table_key(tables@[k]),
            forall|k: usize| k < i ==> are_parents(tables@, k, (#[trigger] all@[k as int])@),
        decreases tables@.len() - i,
    {
        all.push(parents_of(tables, &names, i));
        i += 1;
    }
    all
}

/// What the first `upto` of the places lead to is among the places.
spec fn is_closed(tables: Seq<Table>, reached: Seq<usize>, upto: int) -> bool {
    forall|p: int, k: usize|
        0 <= p < upto && k < tables.len() && #[trigger] is_partition_of(tables, reached[p], k)
            ==> reached.contains(k)
}

/// Links do not lead out of what is closed.
proof fn lemma_closed(tables: Seq<Table>, reached: Seq<usize>, i: usize, j: usize, links: nat)
    requires
        is_closed(tables, reached, reached.len() as int),
        reached.contains(i),
        leads_in(tables, i, j, links),
    ensures
        reached.contains(j),
    decreases links,
{
    if links > 0 {
        let k = choose|k: usize|
            k < tables.len() && #[trigger] is_partition_of(tables, i, k) && leads_in(
                tables,
                k,
                j,
                (links - 1) as nat,
            );
        let p = choose|p: int| 0 <= p < reached.len() && reached[p] == i;
        assert(is_partition_of(tables, reached[p], k));
        lemma_closed(tables, reached, k, j, (links - 1) as nat);
    }
}

/// The marks tell which places have been reached from `from`.
spec fn are_marks(tables: Seq<Table>, from: usize, reached: Seq<usize>, marks: Seq<bool>) -> bool {
    &&& marks.len() == tables.len()
    &&& reached.no_duplicates()
    &&& reached.contains(from)
    &&& forall|x: usize| #[trigger]
        reached.contains(x) ==> x < tables.len() && leads_to(tables, from, x)
    &&& forall|x: usize| x < tables.len() ==> #[trigger] marks[x as int] == reached.contains(x)
}

/// Marks one more place.
fn mark(
    Ghost(tables): Ghost<Seq<Table>>,
    Ghost(from): Ghost<usize>,
    reached: &mut Vec<usize>,
    marks: &mut Vec<bool>,
    x: usize,
)
    requires
        x < tables.len(),
        leads_to(tables, from, x),
        are_marks(tables, from, old(reached)@, old(marks)@),
    ensures
        are_marks(tables, from, final(reached)@, final(marks)@),
        final(reached)@.contains(x),
        old(reached)@.is_prefix_of(final(reached)@),
{
    let ghost before = reached@;
    if !marks[x] {
        marks.set(x, true);
        reached.push(x);
        proof {
            lemma_push_members(before, x);
            assert(before =~= reached@.subrange(0, before.len() as int));
        }
    } else {
        assert(before =~= reached@.subrange(0, before.len() as int));
    }
}

/// For each table whether links lead up to it from the table at `from`.
fn tables_above(tables: &Vec<Table>, parents: &Vec<Vec<usize>>, from: usize) -> (r: Vec<bool>)
    requires
        from < tables@.len(),
        parents@.len() == tables@.len(),
        forall|k: usize| k < tables@.len() ==> are_parents(tables@, k, (#[trigger] parents@[k as int])@),
    ensures
        r@.len() == tables@.len(),
        forall|x: usize| x < tables@.len() ==> #[trigger] r@[x as int] == leads_to(tables@, from, x),
{
    let mut marks: Vec<bool> = Vec::new();
    while marks.len() < tables.len()
        invariant
            marks@.len() <= tables@.len(),
            forall|k: int| 0 <= k < marks@.len() ==> !#[trigger] marks@[k],
        decreases tables@.len() - marks@.len(),
    {
        marks.push(false);
    }
    let mut reached: Vec<usize> = Vec::new();
    reached.push(from);
    marks.set(from, true);
    proof {
        lemma_leads(tables@, from, from, from);
        assert(reached@[0] == from);
        assert forall|x: usize| #[trigger] reached@.contains(x) implies x == from by {}
    }
    let mut at: usize = 0;
    while at < reached.len()
        invariant
            at <= reached@.len(),
            parents@.len() == tables@.len(),
            forall|k: usize| k < tables@.len() ==> are_parents(tables@, k, (#[trigger] parents@[k as int])@),
            are_marks(tables@, from, reached@, marks@),
            is_closed(tables@, reached@, at as int),
        decreases tables@.len() - at,
    {
        proof {
            assert forall|k: int| 0 <= k < reached@.len() implies #[trigger] reached@[k] < tables@.len() by {
                assert(reached@.contains(reached@[k]));
            }
            lemma_distinct_places(reached@, tables@.len() as int);
        }
        let here: usize = reached[at];
        assert(reached@.contains(here));
        let mut m: usize = 0;
        while m < parents[here].len()
            invariant
                at < reached@.len(),
                here == reached@[at as int],
                here < tables@.len() == parents@.len(),
                m <= parents@[here as int]@.len(),
                are_parents(tables@, here, parents@[here as int]@),
                leads_to(tables@, from, here),
                are_marks(tables@, from, reached@, marks@),
                is_closed(tables@, reached@, at as int),
                forall|k: int| 0 <= k < m ==> reached@.contains(#[trigger] parents@[here as int]@[k]),
            decreases parents@[here as int]@.len() - m,
        {
            let x: usize = parents[here][m];
            let ghost before = reached@;
            proof {
                assert(parents@[here as int]@.contains(x));
                lemma_leads(tables@, here, x, x);
                lemma_leads(tables@, from, here, x);
            }
            mark(Ghost(tables@), Ghost(from), &mut reached, &mut marks, x);
            proof {
                lemma_closed_grows(tables@, before, reached@, at as int);
                assert(before == reached@.subrange(0, before.len() as int));
                assert(reached@.subrange(0, before.len() as int)[at as int] == reached@[at as int]);
                assert forall|k: int| 0 <= k < m + 1 implies reached@.contains(
                    #[trigger] parents@[here as int]@[k],
                ) by {
                    if k < m {
                        lemma_prefix_members(before, reached@, parents@[here as int]@[k]);
                    }
                }
            }
            m += 1;
        }
        proof {
            assert forall|p: int, k: usize|
                0 <= p < at + 1 && k < tables@.len() && #[trigger] is_partition_of(
                    tables@,
                    reached@[p],
                    k,
                ) implies reached@.contains(k) by {
                if p == at {
                    assert(parents@[here as int]@.contains(k));
                    let m = choose|m: int|
                        0 <= m < parents@[here as int]@.len() && parents@[here as int]@[m] == k;
                    assert(reached@.contains(parents@[here as int]@[m]));
                }
            }
        }
        at += 1;
    }
    proof {
        assert forall|x: usize| x < tables@.len() implies #[trigger] marks@[x as int] == leads_to(
            tables@,
            from,
            x,
        ) by {
            if leads_to(tables@, from, x) {
                let links = choose|links: nat| leads_in(tables@, from, x, links);
                lemma_closed(tables@, reached@, from, x, links);
            }
        }
    }
    marks
}

proof fn lemma_prefix_members(a: Seq<usize>, b: Seq<usize>, x: usize)
    requires
        a.is_prefix_of(b),
        a.contains(x),
    ensures
        b.contains(x),
{
    let k = choose|k: int| 0 <= k < a.len() && a[k] == x;
    assert(b.subrange(0, a.len() as int)[k] == b[k]);
}

proof fn lemma_closed_grows(tables: Seq<Table>, a: Seq<usize>, b: Seq<usize>, upto: int)
    requires
        a.is_prefix_of(b),
        upto <= a.len(),
        is_closed(tables, a, upto),
    ensures
        is_closed(tables, b, upto),
{
    assert forall|p: int, k: usize|
        0 <= p < upto && k < tables.len() && #[trigger] is_partition_of(tables, b[p], k) implies b.contains(
        k,
    ) by {
        assert(b.subrange(0, a.len() as int)[p] == b[p]);
        assert(is_partition_of(tables, a[p], k));
        lemma_prefix_members(a, b, k);
    }
}

/// Holds the places of the tables that go before the table at `j`.
spec fn are_held_by(tables: Seq<Table>, j: usize, waits: Seq<usize>) -> bool {
    forall|i: usize| #[trigger]
        waits.contains(i) <==> i < tables.len() && goes_before(tables, i, j)
}

/// Whether `x` is among the places.
fn holds(places: &Vec<usize>, x: usize) -> (r: bool)
    ensures
        r == places@.contains(x),
{
    let mut i: usize = 0;
    while i < places.len()
        invariant
            i <= places@.len(),
            forall|k: int| 0 <= k < i ==> #[trigger] places@[k] != x,
        decreases places@.len() - i,
    {
        if places[i] == x {
            return true;
        }
        i += 1;
    }
    false
}

/// For each table the places of the tables that go before it.
fn all_waits(tables: &Vec<Table>) -> (r: Vec<Vec<usize>>)
    ensures
        r@.len() == tables@.len(),
        forall|k: usize| k < tables@.len() ==> are_held_by(tables@, k, (#[trigger] r@[k as int])@),
{
    let parents = all_parents(tables);
    let mut all: Vec<Vec<usize>> = Vec::new();
    let mut j: usize = 0;
    while j < tables.len()
        invariant
            j <= tables@.len() == parents@.len(),
            all@.len() == j,
            forall|k: usize| k < tables@.len() ==> are_parents(tables@, k, (#[trigger] parents@[k as int])@),
            forall|k: usize| k < j ==> are_held_by(tables@, k, (#[trigger] all@[k as int])@),
        decreases tables@.len() - j,
    {
        let above = tables_above(tables, &parents, j);
        let mut waits: Vec<usize> = Vec::new();
        let mut i: usize = 0;
        while i < tables.len()
            invariant
                j < tables@.len(),
                i <= tables@.len() == parents@.len(),
                above@.len() == tables@.len(),
                forall|k: usize| k < tables@.len() ==> are_parents(tables@, k, (#[trigger] parents@[k as int])@),
                forall|x: usize| x < tables@.len() ==> #[trigger] above@[x as int] == leads_to(tables@, j, x),
                forall|k: usize| #[trigger]
                    waits@.contains(k) <==> k < i && goes_before(tables@, k, j),
            decreases tables@.len() - i,
        {
            let ghost before = waits@;
            assert(are_parents(tables@, i, parents@[i as int]@));
            if !above[i] && holds(&parents[i], j) {
                waits.push(i);
                proof {
                    lemma_push_members(before, i);
                }
            }
            i += 1;
        }
        all.push(waits);
        j += 1;
    }
    all
}

/// Whether every one of the places is marked.
fn all_marked(places: &Vec<usize>, marks: &Vec<bool>) -> (r: bool)
    requires
        forall|x: usize| #[trigger] places@.contains(x) ==> x < marks@.len(),
    ensures
        r == forall|x: usize| #[trigger] places@.contains(x) ==> marks@[x as int],
{
    let mut i: usize = 0;
    while i < places.len()
        invariant
            i <= places@.len(),
            forall|x: usize| #[trigger] places@.contains(x) ==> x < marks@.len(),
            forall|k: int| 0 <= k < i ==> marks@[#[trigger] places@[k] as int],
        decreases places@.len() - i,
    {
        assert(places@.contains(places@[i as int]));
        if !marks[places[i]] {
            return false;
        }
        i += 1;
    }
    true
}

/// The first partition that waits for nothing.
fn find_next(
    tables: &Vec<Table>,
    waits: &Vec<Vec<usize>>,
    Ghost(dropped): Ghost<Seq<usize>>,
    gone: &Vec<bool>,
) -> (r: Option<usize>)
    requires
        waits@.len() == tables@.len() == gone@.len(),
        forall|k: usize| k < tables@.len() ==> are_held_by(tables@, k, (#[trigger] waits@[k as int])@),
        forall|x: usize| x < tables@.len() ==> #[trigger] gone@[x as int] == dropped.contains(x),
    ensures
        r == next_partition(tables@, dropped, 0),
{
    let mut j: usize = 0;
    while j < tables.len()
        invariant
            j <= tables@.len(),
            waits@.len() == tables@.len() == gone@.len(),
            forall|k: usize| k < tables@.len() ==> are_held_by(tables@, k, (#[trigger] waits@[k as int])@),
            forall|x: usize| x < tables@.len() ==> #[trigger] gone@[x as int] == dropped.contains(x),
            next_partition(tables@, dropped, 0) == next_partition(tables@, dropped, j as int),
        decreases tables@.len() - j,
    {
        assert(are_held_by(tables@, j, waits@[j as int]@));
        if tables[j].partition_of.is_some() && !gone[j] {
            let ready = all_marked(&waits[j], gone);
            proof {
                if ready {
                    assert forall|i: usize|
                        i < tables@.len() && #[trigger] goes_before(tables@, i, j) implies dropped.contains(
                        i,
                    ) by {
                        assert(waits@[j as int]@.contains(i));
                        assert(gone@[i as int]);
                    }
                } else {
                    let i = choose|i: usize| #[trigger]
                        waits@[j as int]@.contains(i) && !gone@[i as int];
                    assert(goes_before(tables@, i, j));
                    assert(!dropped.contains(i));
                }
            }
            if ready {
                return Some(j);
            }
        }
        j += 1;
    }
    None
}

/// The places of the tables that are no partitions are appended.
fn append_others(tables: &Vec<Table>, order: &mut Vec<usize>)
    ensures
        final(order)@ == old(order)@ + other_tables(tables@),
{
    let ghost first = order@;
    let ghost pred = |i: usize| tables@[i as int].partition_of is None;
    let mut i: usize = 0;
    proof {
        reveal(Seq::filter);
        assert(places(0).filter(pred) =~= Seq::empty());
        assert(first + Seq::empty() =~= first);
    }
    while i < tables.len()
        invariant
            i <= tables@.len(),
            pred == (|i: usize| tables@[i as int].partition_of is None),
            order@ == first + places(i as nat).filter(pred),
        decreases tables@.len() - i,
    {
        proof {
            assert(places((i + 1) as nat) =~= places(i as nat).push(i));
            places(i as nat).lemma_filter_push(i, pred);
        }
        if tables[i].partition_of.is_none() {
            order.push(i);
            assert(order@ =~= first + places((i + 1) as nat).filter(pred));
        }
        i += 1;
    }
}

/// The places of the tables in the order in which they are dropped.
pub fn order_tables(tables: &Vec<Table>) -> (r: Vec<usize>)
    ensures
        r@ == table_drop_order(tables@),
{
    let waits = all_waits(tables);
    let mut order: Vec<usize> = Vec::new();
    let mut gone: Vec<bool> = Vec::new();
    while gone.len() < tables.len()
        invariant
            gone@.len() <= tables@.len(),
            forall|k: int| 0 <= k < gone@.len() ==> !#[trigger] gone@[k],
        decreases tables@.len() - gone@.len(),
    {
        gone.push(false);
    }
    assert(turn_inv(tables@, order@));
    loop
        invariant
            waits@.len() == tables@.len() == gone@.len(),
            forall|k: usize| k < tables@.len() ==> are_held_by(tables@, k, (#[trigger] waits@[k as int])@),
            forall|x: usize| x < tables@.len() ==> #[trigger] gone@[x as int] == order@.contains(x),
            turn_inv(tables@, order@),
            partitions_in_turn(tables@, Seq::empty()) == partitions_in_turn(tables@, order@),
        decreases tables@.len() - order@.len(),
    {
        let ghost before = order@;
        match find_next(tables, &waits, Ghost(before), &gone) {
            Some(j) => {
                proof {
                    assert(tables.len() <= usize::MAX);
                    lemma_next_partition(tables@, before, 0);
                    lemma_turn(tables@, before);
                    lemma_push_members(before, j);
                }
                order.push(j);
                gone.set(j, true);
            },
            None => {
                append_others(tables, &mut order);
                return order;
            },
        }
    }
}

} // verus!
