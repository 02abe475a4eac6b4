//! The order lists of sessions, projects and checkouts come in: by rank, then
//! by when each was last worked in, then the newest by id, and the list's own
//! order between two that nothing else tells apart.

use crate::text::{
    lemma_text_lt_irreflexive, lemma_text_lt_total, lemma_text_lt_transitive, text_before, text_lt,
};
use vstd::prelude::*;

verus! {

/// When something was last worked in: the moment it counts as interacted
/// with, and the raw stamp that breaks the tie between two that count as
/// interacting now.
#[derive(Debug, Clone, Copy, PartialEq, Eq, Structural)]
pub struct Recency {
    pub interacted: i64,
    pub stamped: i64,
}

/// What one entry of a list is ordered by.
#[derive(Debug)]
pub struct Key {
    /// The higher rank comes first.
    pub rank: u8,
    /// Then the more recent.
    pub recency: Recency,
    /// Then the later id.
    pub id: String,
}

/// `a` is told apart from `b` and comes first.
pub open spec fn ahead(a: Key, b: Key) -> bool {
    if a.rank != b.rank {
        a.rank > b.rank
    } else if a.recency.interacted != b.recency.interacted {
        a.recency.interacted > b.recency.interacted
    } else if a.recency.stamped != b.recency.stamped {
        a.recency.stamped > b.recency.stamped
    } else {
        text_lt(b.id@, a.id@)
    }
}

/// Entry `i` of the list comes before entry `j`.
pub open spec fn comes_before(keys: Seq<Key>, i: int, j: int) -> bool {
    ahead(keys[i], keys[j]) || (!ahead(keys[j], keys[i]) && i < j)
}

/// `order` names every entry of the list once, each before the later ones.
pub open spec fn is_order(keys: Seq<Key>, order: Seq<int>) -> bool {
    &&& order.len() == keys.len()
    &&& forall|a: int| 0 <= a < order.len() ==> 0 <= #[trigger] order[a] < keys.len()
    &&& forall|i: int| 0 <= i < keys.len() ==> #[trigger] order.contains(i)
    &&& forall|a: int, b: int|
        0 <= a < b < order.len() ==> comes_before(keys, #[trigger] order[a], #[trigger] order[b])
}

/// The order of the list: the one sequence of its places that [`is_order`].
pub open spec fn order_of(keys: Seq<Key>) -> Seq<int> {
    choose|order: Seq<int>| is_order(keys, order)
}

/// `r` as whole numbers.
pub open spec fn places(r: Seq<usize>) -> Seq<int> {
    Seq::new(r.len(), |i: int| r[i] as int)
}

proof fn lemma_ahead_irreflexive(a: Key)
    ensures
        !ahead(a, a),
{
    lemma_text_lt_irreflexive(a.id@);
}

proof fn lemma_ahead_transitive(a: Key, b: Key, c: Key)
    requires
        ahead(a, b),
        ahead(b, c),
    ensures
        ahead(a, c),
{
    if a.rank == c.rank && a.recency == c.recency && a.rank == b.rank && a.recency == b.recency {
        lemma_text_lt_transitive(c.id@, b.id@, a.id@);
    }
}

/// Where neither is ahead of the other, the two keys agree on everything.
proof fn lemma_not_ahead(a: Key, b: Key)
    requires
        !ahead(a, b),
        !ahead(b, a),
    ensures
        a.rank == b.rank,
        a.recency == b.recency,
        a.id@ == b.id@,
{
    lemma_text_lt_total(a.id@, b.id@);
}

proof fn lemma_comes_before_total(keys: Seq<Key>, i: int, j: int)
    ensures
        i != j ==> comes_before(keys, i, j) || comes_before(keys, j, i),
        !(comes_before(keys, i, j) && comes_before(keys, j, i)),
{
    lemma_ahead_irreflexive(keys[i]);
    if ahead(keys[i], keys[j]) && ahead(keys[j], keys[i]) {
        lemma_ahead_transitive(keys[i], keys[j], keys[i]);
    }
}

proof fn lemma_comes_before_transitive(keys: Seq<Key>, i: int, j: int, k: int)
    requires
        comes_before(keys, i, j),
        comes_before(keys, j, k),
    ensures
        comes_before(keys, i, k),
{
    let (a, b, c) = (keys[i], keys[j], keys[k]);
    if ahead(a, b) && ahead(b, c) {
        lemma_ahead_transitive(a, b, c);
    } else if ahead(a, b) {
        lemma_not_ahead(b, c);
    } else if ahead(b, c) {
        lemma_not_ahead(a, b);
    } else {
        lemma_not_ahead(a, b);
        lemma_not_ahead(b, c);
        lemma_ahead_irreflexive(a);
    }
}

/// Two sequences in which each place comes before the later ones, over the
/// same places, are the same.
proof fn lemma_sorted_unique(keys: Seq<Key>, a: Seq<int>, b: Seq<int>)
    requires
        forall|x: int, y: int|
            0 <= x < y < a.len() ==> comes_before(keys, #[trigger] a[x], #[trigger] a[y]),
        forall|x: int, y: int|
            0 <= x < y < b.len() ==> comes_before(keys, #[trigger] b[x], #[trigger] b[y]),
        forall|i: int| #[trigger] a.contains(i) <==> b.contains(i),
    ensures
        a == b,
    decreases a.len(),
{
    if a.len() == 0 {
        if b.len() > 0 {
            assert(b.contains(b[0]));
            assert(a.contains(b[0]));
        }
        assert(a =~= b);
    } else if b.len() == 0 {
        assert(a.contains(a[0]));
        assert(b.contains(a[0]));
    } else {
        assert(a.contains(a[0]));
        assert(b.contains(a[0]));
        assert(b.contains(b[0]));
        assert(a.contains(b[0]));
        let i = choose|i: int| 0 <= i < b.len() && b[i] == a[0];
        let j = choose|j: int| 0 <= j < a.len() && a[j] == b[0];
        if a[0] != b[0] {
            assert(comes_before(keys, b[0], b[i]));
            assert(comes_before(keys, a[0], a[j]));
            lemma_comes_before_total(keys, a[0], b[0]);
        }
        let ra = a.drop_first();
        let rb = b.drop_first();
        assert forall|x: int| #[trigger] ra.contains(x) <==> rb.contains(x) by {
            lemma_comes_before_total(keys, x, x);
            if ra.contains(x) {
                let k = choose|k: int| 0 <= k < ra.len() && ra[k] == x;
                assert(a[k + 1] == x);
                assert(a.contains(x));
                assert(comes_before(keys, a[0], a[k + 1]));
                let m = choose|m: int| 0 <= m < b.len() && b[m] == x;
                assert(m > 0);
                assert(rb[m - 1] == x);
            }
            if rb.contains(x) {
                let k = choose|k: int| 0 <= k < rb.len() && rb[k] == x;
                assert(b[k + 1] == x);
                assert(b.contains(x));
                assert(a.contains(x));
                assert(comes_before(keys, b[0], b[k + 1]));
                let m = choose|m: int| 0 <= m < a.len() && a[m] == x;
                assert(m > 0);
                assert(ra[m - 1] == x);
            }
        }
        assert forall|x: int, y: int| 0 <= x < y < ra.len() implies comes_before(
            keys,
            #[trigger] ra[x],
            #[trigger] ra[y],
        ) by {
            assert(comes_before(keys, a[x + 1], a[y + 1]));
        }
        assert forall|x: int, y: int| 0 <= x < y < rb.len() implies comes_before(
            keys,
            #[trigger] rb[x],
            #[trigger] rb[y],
        ) by {
            assert(comes_before(keys, b[x + 1], b[y + 1]));
        }
        lemma_sorted_unique(keys, ra, rb);
        assert(a =~= seq![a[0]] + ra);
        assert(b =~= seq![b[0]] + rb);
    }
}

/// A list has one order: what [`is_order`] is [`order_of`].
pub proof fn lemma_order_is(keys: Seq<Key>, order: Seq<int>)
    requires
        is_order(keys, order),
    ensures
        order == order_of(keys),
        is_order(keys, order_of(keys)),
{
    let other = order_of(keys);
    assert(is_order(keys, other));
    assert forall|i: int| #[trigger] order.contains(i) <==> other.contains(i) by {
        if order.contains(i) {
            let a = choose|a: int| 0 <= a < order.len() && order[a] == i;
            assert(0 <= order[a] < keys.len());
        }
        if other.contains(i) {
            let a = choose|a: int| 0 <= a < other.len() && other[a] == i;
            assert(0 <= other[a] < keys.len());
        }
    }
    lemma_sorted_unique(keys, order, other);
}

fn is_ahead(a: &Key, b: &Key) -> (r: bool)
    ensures
        r == ahead(*a, *b),
{
    if a.rank != b.rank {
        a.rank > b.rank
    } else if a.recency.interacted != b.recency.interacted {
        a.recency.interacted > b.recency.interacted
    } else if a.recency.stamped != b.recency.stamped {
        a.recency.stamped > b.recency.stamped
    } else {
        text_before(&b.id, &a.id)
    }
}

/// The places of the list in order.
pub fn ordered(keys: &Vec<Key>) -> (r: Vec<usize>)
    ensures
        is_order(keys@, places(r@)),
        places(r@) == order_of(keys@),
{
    let mut out: Vec<usize> = Vec::new();
    let mut i: usize = 0;
    while i < keys.len()
        invariant
            i <= keys@.len(),
            is_order(keys@.take(i as int), places(out@)),
        decreases keys@.len() - i,
    {
        let ghost before = places(out@);
        let ghost seen = keys@.take(i as int);
        let ghost next = keys@.take(i + 1);
        let mut at: usize = 0;
        assert(out@.len() == i);
        let mut found: bool = false;
        while !found && at < out.len()
            invariant
                i < keys@.len(),
                before == places(out@),
                seen == keys@.take(i as int),
                is_order(seen, before),
                at <= out@.len(),
                forall|a: int| 0 <= a < at ==> !ahead(keys@[i as int], keys@[#[trigger] before[a]]),
                found ==> at < out@.len() && ahead(keys@[i as int], keys@[before[at as int]]),
            decreases (out@.len() - at) + (if found {
                0int
            } else {
                1int
            }),
        {
            assert(0 <= before[at as int] < i);
            if is_ahead(&keys[i], &keys[out[at]]) {
                found = true;
            } else {
                at += 1;
            }
        }
        out.insert(at, i);
        proof {
            let after = places(out@);
            assert(after =~= before.insert(at as int, i as int));
            assert forall|a: int| 0 <= a < after.len() implies 0 <= #[trigger] after[a]
                < next.len() by {
                if a < at {
                    assert(after[a] == before[a]);
                } else if a > at {
                    assert(after[a] == before[a - 1]);
                }
            }
            assert forall|k: int| 0 <= k < next.len() implies #[trigger] after.contains(k) by {
                if k == i {
                    assert(after[at as int] == k);
                } else {
                    assert(before.contains(k));
                    let a = choose|a: int| 0 <= a < before.len() && before[a] == k;
                    if a < at {
                        assert(after[a] == k);
                    } else {
                        assert(after[a + 1] == k);
                    }
                }
            }
            assert forall|a: int, b: int| 0 <= a < b < after.len() implies comes_before(
                next,
                #[trigger] after[a],
                #[trigger] after[b],
            ) by {
                let pa = if a < at { a } else { a - 1 };
                let pb = if b < at { b } else { b - 1 };
                if a != at && b != at {
                    assert(after[a] == before[pa] && after[b] == before[pb]);
                    assert(comes_before(seen, before[pa], before[pb]));
                    assert(0 <= before[pa] < i && 0 <= before[pb] < i);
                } else if b == at {
                    assert(after[a] == before[a]);
                    assert(0 <= before[a] < i);
                } else {
                    // What stood at `at` is behind the new entry, and so is
                    // all that comes after it.
                    assert(after[b] == before[b - 1]);
                    assert(0 <= before[b - 1] < i && 0 <= before[at as int] < i);
                    assert(ahead(keys@[i as int], keys@[before[at as int]]));
                    if b - 1 > at {
                        assert(comes_before(seen, before[at as int], before[b - 1]));
                        lemma_comes_before_transitive(
                            next,
                            i as int,
                            before[at as int],
                            before[b - 1],
                        );
                    }
                }
            }
        }
        i += 1;
    }
    assert(keys@.take(i as int) =~= keys@);
    proof {
        lemma_order_is(keys@, places(out@));
    }
    out
}

/// The items of a list in the order given.
pub fn in_order_given<T>(items: Vec<T>, order: &Vec<usize>) -> (r: Vec<T>)
    requires
        order@.len() == items@.len(),
        forall|a: int| 0 <= a < order@.len() ==> #[trigger] order@[a] < items@.len(),
        forall|a: int, b: int|
            0 <= a < b < order@.len() ==> #[trigger] order@[a] != #[trigger] order@[b],
    ensures
        r@ == Seq::new(order@.len(), |a: int| items@[order@[a] as int]),
{
    let ghost all = items@;
    let mut slots: Vec<Option<T>> = Vec::new();
    for item in it: items
        invariant
            it.seq() == all,
            slots@.len() == it.index(),
            forall|k: int| 0 <= k < slots@.len() ==> slots@[k] == Some(all[k]),
    {
        slots.push(Some(item));
    }
    let mut out: Vec<T> = Vec::new();
    let mut a: usize = 0;
    while a < order.len()
        invariant
            a <= order@.len(),
            order@.len() == all.len(),
            slots@.len() == all.len(),
            forall|b: int| 0 <= b < order@.len() ==> #[trigger] order@[b] < all.len(),
            forall|b: int, c: int|
                0 <= b < c < order@.len() ==> #[trigger] order@[b] != #[trigger] order@[c],
            forall|b: int|
                a <= b < order@.len() ==> slots@[#[trigger] order@[b] as int] == Some(
                    all[order@[b] as int],
                ),
            out@ == Seq::new(a as nat, |b: int| all[order@[b] as int]),
        decreases order@.len() - a,
    {
        let at: usize = order[a];
        let item = slots[at].take();
        match item {
            Some(t) => {
                out.push(t);
            },
            None => {},
        }
        a += 1;
        assert(out@ =~= Seq::new(a as nat, |b: int| all[order@[b] as int]));
    }
    assert(out@ =~= Seq::new(order@.len(), |b: int| all[order@[b] as int]));
    out
}

/// An order names no entry twice.
pub proof fn lemma_order_distinct(keys: Seq<Key>, r: Seq<usize>)
    requires
        is_order(keys, places(r)),
    ensures
        r.len() == keys.len(),
        forall|a: int| 0 <= a < r.len() ==> #[trigger] r[a] < keys.len(),
        forall|a: int, b: int| 0 <= a < b < r.len() ==> #[trigger] r[a] != #[trigger] r[b],
{
    assert forall|a: int| 0 <= a < r.len() implies #[trigger] r[a] < keys.len() by {
        assert(places(r)[a] == r[a]);
    }
    assert forall|a: int, b: int| 0 <= a < b < r.len() implies #[trigger] r[a] != #[trigger] r[b] by {
        assert(comes_before(keys, places(r)[a], places(r)[b]));
        lemma_comes_before_total(keys, r[a] as int, r[b] as int);
    }
}

// ---- what holds of it ----

/// Every list has an order, and in it no entry stands behind one it is ahead
/// of.
pub proof fn law_order_sorts(keys: Seq<Key>)
    ensures
        is_order(keys, order_of(keys)),
{
    lemma_order_exists(keys);
}

proof fn lemma_order_exists(keys: Seq<Key>)
    ensures
        exists|order: Seq<int>| is_order(keys, order),
    decreases keys.len(),
{
    if keys.len() == 0 {
        assert(is_order(keys, Seq::empty()));
    } else {
        let n = keys.len() - 1;
        let seen = keys.take(n);
        lemma_order_exists(seen);
        let before = choose|order: Seq<int>| is_order(seen, order);
        let at = lemma_place(keys, before, n, 0);
        let after = before.insert(at, n);
        assert forall|a: int| 0 <= a < after.len() implies 0 <= #[trigger] after[a] < keys.len() by {
            if a < at {
                assert(after[a] == before[a]);
            } else if a > at {
                assert(after[a] == before[a - 1]);
            }
        }
        assert forall|k: int| 0 <= k < keys.len() implies #[trigger] after.contains(k) by {
            if k == n {
                assert(after[at] == k);
            } else {
                assert(before.contains(k));
                let a = choose|a: int| 0 <= a < before.len() && before[a] == k;
                if a < at {
                    assert(after[a] == k);
                } else {
                    assert(after[a + 1] == k);
                }
            }
        }
        assert forall|a: int, b: int| 0 <= a < b < after.len() implies comes_before(
            keys,
            #[trigger] after[a],
            #[trigger] after[b],
        ) by {
            let pa = if a < at { a } else { a - 1 };
            let pb = if b < at { b } else { b - 1 };
            if a != at && b != at {
                assert(after[a] == before[pa] && after[b] == before[pb]);
                assert(comes_before(seen, before[pa], before[pb]));
                assert(0 <= before[pa] < n && 0 <= before[pb] < n);
            } else if b == at {
                assert(after[a] == before[a]);
                assert(0 <= before[a] < n);
            } else {
                assert(after[b] == before[b - 1]);
                assert(0 <= before[b - 1] < n && 0 <= before[at] < n);
                if b - 1 > at {
                    assert(comes_before(seen, before[at], before[b - 1]));
                    lemma_comes_before_transitive(keys, n, before[at], before[b - 1]);
                }
            }
        }
        assert(is_order(keys, after));
    }
}

/// The place the last entry goes among the ones before it.
proof fn lemma_place(keys: Seq<Key>, before: Seq<int>, n: int, from: int) -> (at: int)
    requires
        n == keys.len() - 1,
        is_order(keys.take(n), before),
        0 <= from <= before.len(),
        forall|a: int| 0 <= a < from ==> !ahead(keys[n], keys[#[trigger] before[a]]),
    ensures
        0 <= at <= before.len(),
        forall|a: int| 0 <= a < at ==> !ahead(keys[n], keys[#[trigger] before[a]]),
        at < before.len() ==> ahead(keys[n], keys[before[at]]),
    decreases before.len() - from,
{
    if from < before.len() && !ahead(keys[n], keys[before[from]]) {
        lemma_place(keys, before, n, from + 1)
    } else {
        from
    }
}

} // verus!
