//! Laws of the Cypher-Lite executor's steps: what WHERE, DISTINCT,
//! ORDER BY, SKIP and LIMIT do to the rows they are given.

use vstd::prelude::*;
use crate::cypher::ast::{ExprV, OrderItemV};
use crate::cypher::executor::{
    GraphV, MAX_ROWS, dedup_rows, run_plan, filter_rows, insert_ordered, item_order, row_after, row_count, row_key, rows_order, sort_ordered,
    step,
};
use crate::cypher::value::{ValueV, values_order};
use crate::text::{Compared, chars_compared};
use crate::cypher::plan::PlanNodeV;
use crate::cypher::value::{RowV, eval, truthy};

verus! {

broadcast use vstd::seq_lib::group_to_multiset_ensures;

/// WHERE keeps exactly the rows on which its expression holds: every kept
/// row holds it and comes from the input, and every input row that holds
/// it is kept.
pub proof fn where_keeps_matching_rows(rows: Seq<RowV>, e: ExprV)
    ensures
        forall|i: int|
            0 <= i < filter_rows(rows, e).len() ==> truthy(eval(e, #[trigger] filter_rows(rows, e)[i]))
                && rows.contains(filter_rows(rows, e)[i]),
        forall|i: int| 0 <= i < rows.len() && truthy(eval(e, #[trigger] rows[i])) ==> filter_rows(rows, e).contains(rows[i]),
        filter_rows(rows, e).len() <= rows.len(),
    decreases rows.len(),
{
    if rows.len() > 0 {
        let prev = rows.drop_last();
        where_keeps_matching_rows(prev, e);
        let f = filter_rows(prev, e);
        assert forall|i: int| 0 <= i < filter_rows(rows, e).len() implies truthy(eval(e, #[trigger] filter_rows(rows, e)[i]))
            && rows.contains(filter_rows(rows, e)[i]) by {
            if i < f.len() {
                assert(filter_rows(rows, e)[i] == f[i]);
                let k = choose|k: int| 0 <= k < prev.len() && prev[k] == f[i];
                assert(rows[k] == prev[k]);
            } else {
                assert(rows[rows.len() - 1] == rows.last());
            }
        }
        assert forall|i: int| 0 <= i < rows.len() && truthy(eval(e, #[trigger] rows[i])) implies filter_rows(
            rows,
            e,
        ).contains(rows[i]) by {
            if i < prev.len() {
                assert(prev[i] == rows[i]);
                let k = choose|k: int| 0 <= k < f.len() && f[k] == prev[i];
                assert(filter_rows(rows, e)[k] == f[k]);
            } else {
                assert(filter_rows(rows, e)[f.len() as int] == rows.last());
            }
        }
    }
}

/// DISTINCT keeps one row per identity: no two kept rows share a key,
/// every kept row comes from the input, and every input row's key is kept.
pub proof fn distinct_keeps_one_row_per_key(rows: Seq<RowV>)
    ensures
        forall|i: int, j: int|
            0 <= i < j < dedup_rows(rows).len() ==> row_key(#[trigger] dedup_rows(rows)[i]) != row_key(
                #[trigger] dedup_rows(rows)[j],
            ),
        forall|i: int| 0 <= i < dedup_rows(rows).len() ==> rows.contains(#[trigger] dedup_rows(rows)[i]),
        forall|i: int|
            #![trigger rows[i]]
            0 <= i < rows.len() ==> exists|j: int|
                0 <= j < dedup_rows(rows).len() && row_key(#[trigger] dedup_rows(rows)[j]) == row_key(rows[i]),
    decreases rows.len(),
{
    if rows.len() > 0 {
        let prev = rows.drop_last();
        let last = rows.last();
        distinct_keeps_one_row_per_key(prev);
        let d = dedup_rows(prev);
        if exists|j: int| 0 <= j < prev.len() && row_key(#[trigger] prev[j]) == row_key(last) {
            assert(dedup_rows(rows) =~= d);
            assert forall|i: int| 0 <= i < dedup_rows(rows).len() implies rows.contains(#[trigger] dedup_rows(rows)[i]) by {
                let k = choose|k: int| 0 <= k < prev.len() && prev[k] == d[i];
                assert(rows[k] == prev[k]);
            }
            assert forall|i: int| #![trigger rows[i]] 0 <= i < rows.len() implies exists|j: int|
                0 <= j < dedup_rows(rows).len() && row_key(#[trigger] dedup_rows(rows)[j]) == row_key(rows[i]) by {
                if i < prev.len() {
                    assert(prev[i] == rows[i]);
                } else {
                    let q = choose|q: int| 0 <= q < prev.len() && row_key(#[trigger] prev[q]) == row_key(last);
                    assert(rows[i] == last);
                    assert(prev[q] == rows[q]);
                    assert(exists|j: int| 0 <= j < d.len() && row_key(#[trigger] d[j]) == row_key(prev[q]));
                }
            }
        } else {
            assert(dedup_rows(rows) =~= d.push(last));
            assert forall|i: int, j: int|
                0 <= i < j < dedup_rows(rows).len() implies row_key(#[trigger] dedup_rows(rows)[i]) != row_key(
                #[trigger] dedup_rows(rows)[j],
            ) by {
                if j == d.len() {
                    let k = choose|k: int| 0 <= k < prev.len() && prev[k] == d[i];
                    assert(row_key(prev[k]) != row_key(last));
                }
            }
            assert forall|i: int| 0 <= i < dedup_rows(rows).len() implies rows.contains(#[trigger] dedup_rows(rows)[i]) by {
                if i < d.len() {
                    let k = choose|k: int| 0 <= k < prev.len() && prev[k] == d[i];
                    assert(rows[k] == prev[k]);
                } else {
                    assert(rows[rows.len() - 1] == last);
                }
            }
            assert forall|i: int| #![trigger rows[i]] 0 <= i < rows.len() implies exists|j: int|
                0 <= j < dedup_rows(rows).len() && row_key(#[trigger] dedup_rows(rows)[j]) == row_key(rows[i]) by {
                if i < prev.len() {
                    assert(prev[i] == rows[i]);
                    let j = choose|j: int| 0 <= j < d.len() && row_key(#[trigger] d[j]) == row_key(prev[i]);
                    assert(dedup_rows(rows)[j] == d[j]);
                } else {
                    assert(dedup_rows(rows)[d.len() as int] == last);
                }
            }
        }
    }
}

proof fn insert_keeps_elements<T>(s: Seq<T>, x: T, after: spec_fn(T, T) -> bool)
    ensures
        insert_ordered(s, x, after).to_multiset() == s.to_multiset().insert(x),
    decreases s.len(),
{
    broadcast use vstd::multiset::group_multiset_axioms;

    if s.len() == 0 {
        assert(seq![x] =~= Seq::<T>::empty().push(x));
        assert(s =~= Seq::<T>::empty());
    } else if after(s.last(), x) {
        insert_keeps_elements(s.drop_last(), x, after);
        assert(s =~= s.drop_last().push(s.last()));
        assert(s.drop_last().to_multiset().insert(x).insert(s.last()) =~= s.drop_last().to_multiset().insert(
            s.last(),
        ).insert(x));
    }
}

/// ORDER BY (and any stable insertion sort) keeps every element, each as
/// often as it occurs.
pub proof fn sort_keeps_elements<T>(s: Seq<T>, after: spec_fn(T, T) -> bool)
    ensures
        sort_ordered(s, after).to_multiset() == s.to_multiset(),
        sort_ordered(s, after).len() == s.len(),
    decreases s.len(),
{
    if s.len() > 0 {
        sort_keeps_elements(s.drop_last(), after);
        insert_keeps_elements(sort_ordered(s.drop_last(), after), s.last(), after);
        assert(s =~= s.drop_last().push(s.last()));
        assert(sort_ordered(s, after).to_multiset().len() == sort_ordered(s, after).len());
        assert(s.to_multiset().len() == s.len());
    }
}

/// LIMIT `n` keeps the first `n` rows (all when there are fewer, none
/// for a negative `n`); SKIP `n` keeps the rest.
pub proof fn limit_and_skip_split_rows(g: GraphV, rows: Seq<RowV>, n: i64)
    ensures
        step(g, PlanNodeV::Take(n), rows) matches Ok(t) && step(g, PlanNodeV::Skip(n), rows) matches Ok(k) && t + k
            == rows && t.len() <= rows.len() && (n <= 0 ==> t.len() == 0) && (0 <= n <= rows.len() && n <= usize::MAX
            ==> t.len() == n) && (rows.len() <= n <= usize::MAX ==> t.len() == rows.len()),
{
    let c = if row_count(n) < rows.len() {
        row_count(n)
    } else {
        rows.len() as int
    };
    assert(rows.subrange(0, c) + rows.subrange(c, rows.len() as int) =~= rows);
    assert(0 <= n <= usize::MAX ==> row_count(n) == n);
    assert(n <= 0 ==> row_count(n) == 0);
}

/// Whether no element of `s` belongs after its successor.
pub open spec fn adjacent_in_order<T>(s: Seq<T>, after: spec_fn(T, T) -> bool) -> bool {
    forall|i: int| 0 <= i < s.len() - 1 ==> !after(#[trigger] s[i], s[i + 1])
}

proof fn insert_keeps_order<T>(s: Seq<T>, x: T, after: spec_fn(T, T) -> bool)
    requires
        forall|a: T, b: T| #[trigger] after(a, b) ==> !after(b, a),
        adjacent_in_order(s, after),
    ensures
        adjacent_in_order(insert_ordered(s, x, after), after),
        insert_ordered(s, x, after).len() == s.len() + 1,
        insert_ordered(s, x, after).last() == if s.len() > 0 && after(s.last(), x) { s.last() } else { x },
    decreases s.len(),
{
    if s.len() > 0 && after(s.last(), x) {
        let t = s.drop_last();
        assert(adjacent_in_order(t, after)) by {
            assert forall|i: int| 0 <= i < t.len() - 1 implies !after(#[trigger] t[i], t[i + 1]) by {
                assert(t[i] == s[i] && t[i + 1] == s[i + 1]);
            }
        }
        insert_keeps_order(t, x, after);
        let r = insert_ordered(t, x, after);
        assert(!after(r.last(), s.last())) by {
            if t.len() > 0 && after(t.last(), x) {
                assert(r.last() == s[s.len() - 2]);
                assert(!after(s[s.len() - 2], s[s.len() - 2 + 1]));
            } else {
                assert(!after(x, s.last()));
            }
        }
        let r2 = insert_ordered(s, x, after);
        assert(r2 == r.push(s.last()));
        assert forall|i: int| 0 <= i < r2.len() - 1 implies !after(#[trigger] r2[i], r2[i + 1]) by {
            if i < r.len() - 1 {
                assert(r2[i] == r[i] && r2[i + 1] == r[i + 1]);
            } else {
                assert(r2[i] == r.last());
            }
        }
    } else if s.len() > 0 {
        let r2 = insert_ordered(s, x, after);
        assert(r2 == s.push(x));
        assert forall|i: int| 0 <= i < r2.len() - 1 implies !after(#[trigger] r2[i], r2[i + 1]) by {
            if i < s.len() - 1 {
                assert(r2[i] == s[i] && r2[i + 1] == s[i + 1]);
            }
        }
    }
}

pub(crate) proof fn sort_puts_in_order<T>(s: Seq<T>, after: spec_fn(T, T) -> bool)
    requires
        forall|a: T, b: T| #[trigger] after(a, b) ==> !after(b, a),
    ensures
        adjacent_in_order(sort_ordered(s, after), after),
        sort_ordered(s, after).len() == s.len(),
    decreases s.len(),
{
    if s.len() > 0 {
        sort_puts_in_order(s.drop_last(), after);
        insert_keeps_order(sort_ordered(s.drop_last(), after), s.last(), after);
    }
}

/// Inserting keeps, among the elements satisfying `p`, the order they had,
/// provided no element satisfying `p` belongs after another that does.
pub(crate) proof fn insert_keeps_filter<T>(s: Seq<T>, x: T, after: spec_fn(T, T) -> bool, p: spec_fn(T) -> bool)
    requires
        forall|a: T, b: T| #[trigger] after(a, b) && p(b) ==> !p(a),
    ensures
        insert_ordered(s, x, after).filter(p) == if p(x) { s.filter(p).push(x) } else { s.filter(p) },
    decreases s.len(),
{
    reveal(Seq::filter);
    if s.len() == 0 {
        assert(seq![x].drop_last() =~= s);
        assert(seq![x].last() == x);
        assert(s.filter(p) == s);
        assert(seq![x].filter(p) == if p(x) { s.filter(p).push(x) } else { s.filter(p) });
        assert(s.filter(p).push(x) =~= seq![x]);
    } else if after(s.last(), x) {
        let dl = s.drop_last();
        insert_keeps_filter(dl, x, after, p);
        let ins = insert_ordered(dl, x, after);
        assert(ins.push(s.last()).drop_last() =~= ins);
        assert(ins.push(s.last()).last() == s.last());
        assert(ins.push(s.last()).filter(p) == if p(s.last()) { ins.filter(p).push(s.last()) } else { ins.filter(p) });
        assert(s.filter(p) == if p(s.last()) { dl.filter(p).push(s.last()) } else { dl.filter(p) });
        if p(x) {
            assert(!p(s.last()));
        }
    } else {
        assert(s.push(x).drop_last() =~= s);
        assert(s.push(x).last() == x);
        assert(s.push(x).filter(p) == if p(x) { s.filter(p).push(x) } else { s.filter(p) });
    }
}

/// The sort is stable: among the elements satisfying `p` the order is kept,
/// provided no element satisfying `p` belongs after another that does.
pub(crate) proof fn sort_keeps_filter<T>(s: Seq<T>, after: spec_fn(T, T) -> bool, p: spec_fn(T) -> bool)
    requires
        forall|a: T, b: T| #[trigger] after(a, b) && p(b) ==> !p(a),
    ensures
        sort_ordered(s, after).filter(p) == s.filter(p),
    decreases s.len(),
{
    reveal(Seq::filter);
    if s.len() > 0 {
        let dl = s.drop_last();
        sort_keeps_filter(dl, after, p);
        insert_keeps_filter(sort_ordered(dl, after), s.last(), after, p);
        assert(s.filter(p) == if p(s.last()) { dl.filter(p).push(s.last()) } else { dl.filter(p) });
    } else {
        assert(sort_ordered(s, after) == s);
    }
}

pub(crate) proof fn chars_compared_flips(a: Seq<char>, b: Seq<char>)
    ensures
        chars_compared(b, a) == chars_compared(a, b).flipped(),
    decreases a.len(),
{
    if a.len() > 0 && b.len() > 0 && (a[0] as u32) == (b[0] as u32) {
        chars_compared_flips(a.drop_first(), b.drop_first());
    }
}

proof fn values_order_flips(a: ValueV, b: ValueV)
    ensures
        values_order(b, a) == values_order(a, b).flipped(),
{
    match (a, b) {
        (ValueV::Str(x), ValueV::Str(y)) => chars_compared_flips(x, y),
        _ => {},
    }
}

proof fn rows_order_flips(items: Seq<OrderItemV>, a: RowV, b: RowV)
    ensures
        rows_order(items, b, a) == rows_order(items, a, b).flipped(),
    decreases items.len(),
{
    if items.len() > 0 {
        values_order_flips(
            crate::cypher::value::eval_return(items[0].expr, a),
            crate::cypher::value::eval_return(items[0].expr, b),
        );
        assert(item_order(items[0], b, a) == item_order(items[0], a, b).flipped());
        rows_order_flips(items.drop_first(), a, b);
    }
}

proof fn row_after_is_asymmetric(items: Seq<OrderItemV>)
    ensures
        forall|a: RowV, b: RowV| #[trigger] (row_after(items))(a, b) ==> !(row_after(items))(b, a),
{
    assert forall|a: RowV, b: RowV| #[trigger] (row_after(items))(a, b) implies !(row_after(items))(b, a) by {
        rows_order_flips(items, a, b);
    }
}

/// ORDER BY puts its rows in order: no row ranks above the row after it,
/// and no row is lost or added.
pub proof fn order_by_puts_rows_in_order(g: GraphV, items: Seq<OrderItemV>, rows: Seq<RowV>)
    ensures
        step(g, PlanNodeV::Sort(items), rows) matches Ok(r) && r.len() == rows.len() && r.to_multiset()
            == rows.to_multiset() && forall|i: int|
            0 <= i < r.len() - 1 ==> rows_order(items, #[trigger] r[i], r[i + 1]) != Compared::Greater,
{
    let after = row_after(items);
    row_after_is_asymmetric(items);
    sort_puts_in_order(rows, after);
    sort_keeps_elements(rows, after);
    let r = sort_ordered(rows, after);
    assert(step(g, PlanNodeV::Sort(items), rows) == Ok::<Seq<RowV>, Seq<char>>(r));
    assert forall|i: int| 0 <= i < r.len() - 1 implies rows_order(items, #[trigger] r[i], r[i + 1]) != Compared::Greater by {
        assert(!after(r[i], r[i + 1]));
    }
}
proof fn dedup_rows_len(rows: Seq<RowV>)
    ensures
        dedup_rows(rows).len() <= rows.len(),
    decreases rows.len(),
{
    if rows.len() > 0 {
        dedup_rows_len(rows.drop_last());
    }
}

proof fn step_keeps_cap(g: GraphV, node: PlanNodeV, rows: Seq<RowV>)
    requires
        rows.len() <= MAX_ROWS,
    ensures
        step(g, node, rows) matches Ok(r) ==> r.len() <= MAX_ROWS,
{
    match node {
        PlanNodeV::Filter(e) => where_keeps_matching_rows(rows, e),
        PlanNodeV::Distinct => dedup_rows_len(rows),
        PlanNodeV::Sort(items) => sort_keeps_elements(rows, row_after(items)),
        _ => {},
    }
}

/// A query never returns more than `MAX_ROWS` rows: a plan that runs
/// through gives at most that many.
pub proof fn results_stay_under_the_row_cap(g: GraphV, plan: Seq<PlanNodeV>)
    ensures
        run_plan(g, plan) matches Ok(rows) ==> rows.len() <= MAX_ROWS,
    decreases plan.len(),
{
    if plan.len() > 0 {
        results_stay_under_the_row_cap(g, plan.drop_last());
        match run_plan(g, plan.drop_last()) {
            Ok(rows) => step_keeps_cap(g, plan.last(), rows),
            Err(_) => {},
        }
    }
}

} // verus!
