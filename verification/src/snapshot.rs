//! The display order of a traffic snapshot: busiest route first.

use vstd::multiset::{lemma_multiset_empty_len, Multiset};
use vstd::prelude::*;
use vstd::seq_lib::{to_multiset_contains, to_multiset_insert, to_multiset_len};

verus! {

/// The rows of `rows` whose combined byte count is `total`, in their order.
pub open spec fn with_total(rows: Seq<(String, (u64, u64), u64)>, total: u64) -> Seq<(String, (u64, u64), u64)> {
    rows.filter(|row: (String, (u64, u64), u64)| row.2 == total)
}

/// No row is followed by one with a larger combined byte count.
pub open spec fn descending(rows: Seq<(String, (u64, u64), u64)>) -> bool {
    forall|i: int, j: int| 0 <= i < j < rows.len() ==> rows[i].2 >= rows[j].2
}

/// A sequence without rows holds no row.
proof fn lemma_empty_multiset(rows: Seq<(String, (u64, u64), u64)>)
    requires
        rows.len() == 0,
    ensures
        rows.to_multiset() =~= Multiset::empty(),
{
    to_multiset_len(rows);
    lemma_multiset_empty_len(rows.to_multiset());
}

/// Filtering a sequence none of whose rows has the wanted total leaves nothing.
proof fn lemma_none_with_total(rows: Seq<(String, (u64, u64), u64)>, total: u64)
    requires
        forall|i: int| 0 <= i < rows.len() ==> rows[i].2 != total,
    ensures
        with_total(rows, total) == Seq::<(String, (u64, u64), u64)>::empty(),
    decreases rows.len(),
{
    reveal(Seq::filter);
    if rows.len() > 0 {
        lemma_none_with_total(rows.drop_last(), total);
    }
}

/// What filtering by total makes of a sequence with one row put in.
proof fn lemma_with_total_insert(
    rows: Seq<(String, (u64, u64), u64)>,
    at: int,
    row: (String, (u64, u64), u64),
    total: u64,
)
    requires
        0 <= at <= rows.len(),
    ensures
        with_total(rows.insert(at, row), total) == with_total(rows.subrange(0, at), total) + with_total(
            seq![row],
            total,
        ) + with_total(rows.subrange(at, rows.len() as int), total),
        with_total(rows, total) == with_total(rows.subrange(0, at), total) + with_total(
            rows.subrange(at, rows.len() as int),
            total,
        ),
        with_total(seq![row], total) == if row.2 == total {
            seq![row]
        } else {
            Seq::empty()
        },
{
    let pred = |r: (String, (u64, u64), u64)| r.2 == total;
    let front = rows.subrange(0, at);
    let back = rows.subrange(at, rows.len() as int);
    assert(rows.insert(at, row) =~= front + seq![row] + back);
    assert(rows =~= front + back);
    Seq::filter_distributes_over_add(front + seq![row], back, pred);
    Seq::filter_distributes_over_add(front, seq![row], pred);
    Seq::filter_distributes_over_add(front, back, pred);
    reveal_with_fuel(Seq::filter, 2);
    assert(seq![row].drop_last() =~= Seq::<(String, (u64, u64), u64)>::empty());
    assert(seq![row].last() == row);
    if row.2 == total {
        assert(with_total(seq![row], total) =~= seq![row]);
    } else {
        assert(with_total(seq![row], total) =~= Seq::<(String, (u64, u64), u64)>::empty());
    }
}

/// Orders rows by their combined byte count, largest first. Rows with equal
/// counts keep the order in which they came.
pub fn sort_by_total(rows: Vec<(String, (u64, u64), u64)>) -> (sorted: Vec<(String, (u64, u64), u64)>)
    ensures
        descending(sorted@),
        sorted@.to_multiset() == rows@.to_multiset(),
        forall|total: u64| with_total(sorted@, total) == with_total(rows@, total),
{
    let ghost all = rows@;
    let mut rest = rows;
    let mut sorted: Vec<(String, (u64, u64), u64)> = Vec::new();
    proof {
        lemma_empty_multiset(sorted@);
        assert(rest@.to_multiset().add(sorted@.to_multiset()) =~= all.to_multiset());
        assert forall|total: u64| with_total(rest@, total) + with_total(sorted@, total) == with_total(all, total) by {
            lemma_none_with_total(sorted@, total);
        }
    }
    loop
        invariant
            descending(sorted@),
            rest@.to_multiset().add(sorted@.to_multiset()) == all.to_multiset(),
            forall|total: u64| with_total(rest@, total) + with_total(sorted@, total) == with_total(all, total),
        ensures
            rest@.len() == 0,
        decreases rest@.len(),
    {
        let ghost before = rest@;
        let ghost placed = sorted@;
        let row = match rest.pop() {
            Some(row) => row,
            None => {
                break ;
            },
        };
        let mut at: usize = 0;
        while at < sorted.len() && sorted[at].2 > row.2
            invariant
                at <= sorted.len(),
                forall|k: int| 0 <= k < at ==> sorted@[k].2 > row.2,
            decreases sorted.len() - at,
        {
            at = at + 1;
        }
        sorted.insert(at, row);
        proof {
            assert(before =~= rest@.push(row));
            vstd::seq_lib::to_multiset_build(rest@, row);
            to_multiset_insert(placed, at as int, row);
            assert(rest@.to_multiset().add(sorted@.to_multiset()) =~= all.to_multiset());
            assert forall|total: u64| with_total(rest@, total) + with_total(sorted@, total) == with_total(
                all,
                total,
            ) by {
                lemma_with_total_insert(placed, at as int, row, total);
                lemma_with_total_insert(before, rest@.len() as int, row, total);
                assert(before.insert(rest@.len() as int, row) =~= before.push(row));
                assert(before.subrange(0, rest@.len() as int) =~= rest@);
                assert(before.subrange(rest@.len() as int, before.len() as int) =~= seq![row]);
                if row.2 == total {
                    lemma_none_with_total(placed.subrange(0, at as int), total);
                }
            }
        }
    }
    proof {
        lemma_empty_multiset(rest@);
        assert(sorted@.to_multiset() =~= all.to_multiset());
        assert forall|total: u64| with_total(sorted@, total) == with_total(all, total) by {
            lemma_none_with_total(rest@, total);
        }
    }
    sorted
}

/// `rows` names every route of `routes` exactly once, each with its two
/// counters and their sum.
pub open spec fn lists_rows(rows: Seq<(String, (u64, u64), u64)>, routes: Map<Seq<char>, (nat, nat)>) -> bool {
    &&& forall|i: int|
        0 <= i < rows.len() ==> {
            &&& routes.contains_key(#[trigger] rows[i].0@)
            &&& routes[rows[i].0@] == (rows[i].1.0 as nat, rows[i].1.1 as nat)
            &&& rows[i].2 == rows[i].1.0 + rows[i].1.1
        }
    &&& forall|i: int, j: int| 0 <= i < j < rows.len() ==> rows[i].0@ != rows[j].0@
    &&& forall|route: Seq<char>| #[trigger]
        routes.contains_key(route) ==> exists|i: int| 0 <= i < rows.len() && rows[i].0@ == route
}

/// Rows that list a table still list it in any other order.
pub proof fn lemma_listing_any_order(
    first: Seq<(String, (u64, u64), u64)>,
    second: Seq<(String, (u64, u64), u64)>,
    routes: Map<Seq<char>, (nat, nat)>,
)
    requires
        lists_rows(first, routes),
        first.to_multiset() == second.to_multiset(),
    ensures
        lists_rows(second, routes),
{
    assert forall|i: int| 0 <= i < second.len() implies {
        &&& routes.contains_key(#[trigger] second[i].0@)
        &&& routes[second[i].0@] == (second[i].1.0 as nat, second[i].1.1 as nat)
        &&& second[i].2 == second[i].1.0 + second[i].1.1
    } by {
        assert(second.contains(second[i]));
        to_multiset_contains(second, second[i]);
        to_multiset_contains(first, second[i]);
        let k = choose|k: int| 0 <= k < first.len() && first[k] == second[i];
        assert(routes.contains_key(first[k].0@));
    }
    assert forall|route: Seq<char>| #[trigger] routes.contains_key(route) implies exists|i: int|
        0 <= i < second.len() && second[i].0@ == route by {
        let k = choose|k: int| 0 <= k < first.len() && first[k].0@ == route;
        assert(first.contains(first[k]));
        to_multiset_contains(first, first[k]);
        to_multiset_contains(second, first[k]);
        let i = choose|i: int| 0 <= i < second.len() && second[i] == first[k];
        assert(second[i].0@ == route);
    }
    assert(first.no_duplicates()) by {
        assert forall|i: int, j: int| 0 <= i < first.len() && 0 <= j < first.len() && i != j implies first[i]
            != first[j] by {
            if i < j {
                assert(first[i].0@ != first[j].0@);
            } else {
                assert(first[j].0@ != first[i].0@);
            }
        }
    }
    first.lemma_multiset_has_no_duplicates();
    second.lemma_multiset_has_no_duplicates_conv();
    assert forall|i: int, j: int| 0 <= i < j < second.len() implies second[i].0@ != second[j].0@ by {
        if second[i].0@ == second[j].0@ {
            assert(second.contains(second[i]));
            assert(second.contains(second[j]));
            to_multiset_contains(second, second[i]);
            to_multiset_contains(first, second[i]);
            to_multiset_contains(second, second[j]);
            to_multiset_contains(first, second[j]);
            let a = choose|a: int| 0 <= a < first.len() && first[a] == second[i];
            let b = choose|b: int| 0 <= b < first.len() && first[b] == second[j];
            if a < b {
                assert(first[a].0@ != first[b].0@);
            } else if b < a {
                assert(first[b].0@ != first[a].0@);
            }
            assert(second[i] == second[j]);
        }
    }
}

} // verus!
