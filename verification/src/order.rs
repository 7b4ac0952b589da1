use vstd::prelude::*;
use vstd::relations::{sorted_by, total_ordering};
use vstd::seq_lib::{lemma_sorted_unique, to_multiset_build, to_multiset_insert, to_multiset_remove, to_multiset_update};

verus! {

/// Whether the period at index `a` is handled no later than the one at index `b`: the
/// shorter period first, and of two equal periods the one that was named first.
pub open spec fn comes_before(periods: Seq<usize>, a: usize, b: usize) -> bool {
    periods[a as int] < periods[b as int] || (periods[a as int] == periods[b as int] && a <= b)
}

/// The indices `0 .. n` in ascending order.
pub open spec fn identity_order(n: nat) -> Seq<usize> {
    Seq::new(n, |i: int| i as usize)
}

/// The order in which the periods are handled: their indices, sorted by period, ties kept
/// in the order given.
pub open spec fn stable_order(periods: Seq<usize>) -> Seq<usize> {
    identity_order(periods.len()).sort_by(|a: usize, b: usize| comes_before(periods, a, b))
}

/// The periods in the order in which they are handled.
pub open spec fn ordered_periods(periods: Seq<usize>) -> Seq<usize> {
    Seq::new(periods.len(), |rank: int| periods[stable_order(periods)[rank] as int])
}

/// The order on indices is total, whatever the periods are.
proof fn lemma_comes_before_is_total(periods: Seq<usize>)
    ensures
        total_ordering(|a: usize, b: usize| comes_before(periods, a, b)),
{
    let leq = |a: usize, b: usize| comes_before(periods, a, b);
    assert forall|a: usize, b: usize| #[trigger] leq(a, b) && leq(b, a) implies a == b by {}
    assert forall|a: usize, b: usize, c: usize| #[trigger]
        leq(a, b) && #[trigger] leq(b, c) implies leq(a, c) by {}
    assert forall|a: usize, b: usize| #[trigger] leq(a, b) || #[trigger] leq(b, a) by {}
    assert forall|a: usize| #[trigger] leq(a, a) by {}
}

/// Exchanging two entries of a sequence keeps what it holds.
proof fn lemma_exchange_keeps_contents<A>(s: Seq<A>, i: int, j: int)
    requires
        0 <= i < s.len(),
        0 <= j < s.len(),
    ensures
        s.update(i, s[j]).update(j, s[i]).to_multiset() == s.to_multiset(),
{
    broadcast use vstd::multiset::group_multiset_axioms;

    let t = s.update(i, s[j]);
    to_multiset_update(s, i, s[j]);
    to_multiset_update(t, j, s[i]);
    if i == j {
        assert(s.update(i, s[j]).update(j, s[i]) =~= s);
    } else {
        assert(s.to_multiset().count(s[i]) > 0 && s.to_multiset().count(s[j]) > 0) by {
            vstd::seq_lib::to_multiset_contains(s, s[i]);
            vstd::seq_lib::to_multiset_contains(s, s[j]);
            assert(s.contains(s[i]) && s.contains(s[j]));
        }
        assert(t.update(j, s[i]).to_multiset() =~= s.to_multiset());
    }
}

/// Two sequences that hold the same entries still do after each entry is replaced by its
/// image under one function.
proof fn lemma_images_keep_contents<A, B>(x: Seq<A>, y: Seq<A>, f: spec_fn(A) -> B)
    requires
        x.to_multiset() == y.to_multiset(),
    ensures
        x.map_values(f).to_multiset() == y.map_values(f).to_multiset(),
    decreases x.len(),
{
    broadcast use vstd::multiset::group_multiset_axioms;
    broadcast use vstd::seq_lib::group_to_multiset_ensures;

    x.to_multiset_ensures();
    y.to_multiset_ensures();
    if x.len() == 0 {
        assert(y.len() == 0);
        assert(x.map_values(f) =~= y.map_values(f));
    } else {
        let last = x.last();
        assert(x.to_multiset().contains(last)) by {
            assert(x.contains(last));
        }
        assert(y.contains(last));
        let i = choose|i: int| 0 <= i < y.len() && y[i] == last;
        let x1 = x.drop_last();
        let y1 = y.remove(i);
        assert(x1.push(last) =~= x);
        to_multiset_build(x1, last);
        to_multiset_remove(y, i);
        assert(x1.to_multiset() =~= y1.to_multiset());
        lemma_images_keep_contents(x1, y1, f);
        assert(x1.map_values(f).push(f(last)) =~= x.map_values(f));
        to_multiset_build(x1.map_values(f), f(last));
        assert(y1.map_values(f).insert(i, f(last)) =~= y.map_values(f));
        to_multiset_insert(y1.map_values(f), i, f(last));
    }
}

/// Law: the order names every period exactly once, and along it the periods never
/// descend; where two are equal, the one named first comes first.
pub proof fn lemma_stable_order(periods: Seq<usize>)
    requires
        periods.len() <= usize::MAX,
    ensures
        stable_order(periods).len() == periods.len(),
        stable_order(periods).to_multiset() == identity_order(periods.len()).to_multiset(),
        forall|rank: int|
            0 <= rank < periods.len() ==> 0 <= #[trigger] stable_order(periods)[rank]
                < periods.len(),
        forall|index: usize|
            index < periods.len() ==> #[trigger] stable_order(periods).contains(index),
        stable_order(periods).no_duplicates(),
        forall|i: int, j: int|
            0 <= i < j < periods.len() ==> comes_before(
                periods,
                #[trigger] stable_order(periods)[i],
                #[trigger] stable_order(periods)[j],
            ),
        forall|i: int, j: int|
            0 <= i < j < periods.len() ==> #[trigger] ordered_periods(periods)[i]
                <= #[trigger] ordered_periods(periods)[j],
        ordered_periods(periods).to_multiset() == periods.to_multiset(),
{
    broadcast use vstd::seq_lib::group_to_multiset_ensures;

    let leq = |a: usize, b: usize| comes_before(periods, a, b);
    let id = identity_order(periods.len());
    let o = stable_order(periods);
    lemma_comes_before_is_total(periods);
    id.lemma_sort_by_ensures(leq);
    id.to_multiset_ensures();
    o.to_multiset_ensures();
    assert(o.len() == periods.len());
    assert forall|rank: int| 0 <= rank < periods.len() implies 0 <= #[trigger] o[rank]
        < periods.len() by {
        assert(o.contains(o[rank]));
        assert(id.to_multiset().count(o[rank]) > 0);
        assert(id.contains(o[rank]));
    }
    assert(o.no_duplicates()) by {
        assert(id.no_duplicates());
        id.lemma_multiset_has_no_duplicates();
        o.lemma_multiset_has_no_duplicates_conv();
    }
    assert forall|index: usize| index < periods.len() implies #[trigger] o.contains(index) by {
        assert(id[index as int] == index);
        assert(id.contains(index));
        assert(o.to_multiset().count(index) > 0);
    }
    assert forall|i: int, j: int| 0 <= i < j < periods.len() implies comes_before(
        periods,
        #[trigger] o[i],
        #[trigger] o[j],
    ) by {
        assert(leq(o[i], o[j]));
    }
    assert forall|i: int, j: int| 0 <= i < j < periods.len() implies #[trigger] ordered_periods(
        periods,
    )[i] <= #[trigger] ordered_periods(periods)[j] by {
        assert(leq(o[i], o[j]));
    }
    let f = |a: usize| periods[a as int];
    lemma_images_keep_contents(o, id, f);
    assert(o.map_values(f) =~= ordered_periods(periods));
    assert(id.map_values(f) =~= periods);
}

/// Law: the order does not depend on how the caller lists the periods. Two lists that hold
/// the same periods are handled as the same sequence of periods.
pub proof fn lemma_order_ignores_listing(a: Seq<usize>, b: Seq<usize>)
    requires
        a.len() <= usize::MAX,
        a.to_multiset() == b.to_multiset(),
    ensures
        a.len() == b.len(),
        ordered_periods(a) == ordered_periods(b),
{
    broadcast use vstd::seq_lib::group_to_multiset_ensures;

    a.to_multiset_ensures();
    b.to_multiset_ensures();
    lemma_stable_order(a);
    lemma_stable_order(b);
    let leq = |x: usize, y: usize| x <= y;
    assert(total_ordering(leq)) by {
        assert forall|x: usize, y: usize| #[trigger] leq(x, y) && leq(y, x) implies x == y by {}
    }
    assert(sorted_by(ordered_periods(a), leq)) by {
        assert forall|i: int, j: int| 0 <= i < j < ordered_periods(a).len() implies #[trigger] leq(
            ordered_periods(a)[i],
            ordered_periods(a)[j],
        ) by {}
    }
    assert(sorted_by(ordered_periods(b), leq)) by {
        assert forall|i: int, j: int| 0 <= i < j < ordered_periods(b).len() implies #[trigger] leq(
            ordered_periods(b)[i],
            ordered_periods(b)[j],
        ) by {}
    }
    lemma_sorted_unique(ordered_periods(a), ordered_periods(b), leq);
}

/// Sorts the indices of the periods by period, keeping the given order among equal periods.
pub fn sorted_order(periods: &[usize]) -> (r: Vec<usize>)
    ensures
        r@ == stable_order(periods@),
{
    let n = periods.len();
    let ghost leq = |a: usize, b: usize| comes_before(periods@, a, b);
    let mut order: Vec<usize> = Vec::new();
    let mut k: usize = 0;
    assert(order@ =~= identity_order(0));
    while k < n
        invariant
            n == periods.len(),
            k <= n,
            order.len() == k,
            forall|i: int| 0 <= i < k ==> order[i] < k,
            forall|a: int, b: int|
                0 <= a < b < k ==> comes_before(periods@, #[trigger] order[a], #[trigger] order[b]),
            order@.to_multiset() == identity_order(k as nat).to_multiset(),
        decreases n - k,
    {
        proof {
            to_multiset_build(order@, k);
            assert(identity_order(k as nat).push(k) =~= identity_order((k + 1) as nat));
            to_multiset_build(identity_order(k as nat), k);
        }
        order.push(k);
        let mut j: usize = k;
        while j > 0 && periods[order[j - 1]] > periods[k]
            invariant
                n == periods.len(),
                k < n,
                j <= k,
                order.len() == k + 1,
                order[j as int] == k,
                forall|i: int| 0 <= i <= k ==> order[i] <= k,
                forall|a: int, b: int|
                    0 <= a < b <= k && b != j ==> comes_before(
                        periods@,
                        #[trigger] order[a],
                        #[trigger] order[b],
                    ),
                order@.to_multiset() == identity_order((k + 1) as nat).to_multiset(),
            decreases j,
        {
            let earlier = order[j - 1];
            proof {
                lemma_exchange_keeps_contents(order@, j - 1, j as int);
            }
            order.set(j - 1, k);
            order.set(j, earlier);
            j = j - 1;
        }
        k = k + 1;
    }
    proof {
        let id = identity_order(n as nat);
        lemma_comes_before_is_total(periods@);
        id.lemma_sort_by_ensures(leq);
        assert(sorted_by(order@, leq)) by {
            assert forall|a: int, b: int| 0 <= a < b < order@.len() implies #[trigger] leq(
                order@[a],
                order@[b],
            ) by {
                assert(comes_before(periods@, order[a], order[b]));
            }
        }
        lemma_sorted_unique(order@, stable_order(periods@), leq);
    }
    order
}

} // verus!
