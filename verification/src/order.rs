//! Results of work on many nodes: the first failure, and the order of the stripes.
use crate::model::ChunkLocation;
use prost::bytes::Bytes;
use vstd::prelude::*;

verus! {

/// The values of results that are all good.
pub open spec fn ok_values<T, E>(results: Seq<Result<T, E>>) -> Seq<T> {
    Seq::new(results.len(), |i: int| results[i]->Ok_0)
}

/// Whether results are all good.
pub open spec fn all_ok<T, E>(results: Seq<Result<T, E>>) -> bool {
    forall|i: int| 0 <= i < results.len() ==> (#[trigger] results[i]) is Ok
}

/// Whether `e` is the first failure among results.
pub open spec fn is_first_error<T, E>(results: Seq<Result<T, E>>, e: E) -> bool {
    exists|i: int|
        0 <= i < results.len() && #[trigger] results[i] == Err::<T, E>(e) && all_ok(results.take(i))
}

/// Collects results that are all good, or hands out the first failure.
pub fn all_or_first_error<T, E>(results: Vec<Result<T, E>>) -> (r: Result<Vec<T>, E>)
    ensures
        match r {
            Ok(values) => all_ok(results@) && values@ == ok_values(results@),
            Err(e) => is_first_error(results@, e),
        },
{
    let mut values: Vec<T> = Vec::new();
    for result in iter: results
        invariant
            iter.seq() == results@,
            values.len() == iter.index(),
            forall|i: int|
                0 <= i < values.len() ==> #[trigger] results@[i] == Ok::<T, E>(values@[i]),
    {
        let ghost n = values.len() as int;
        assert(result == results@[n]);
        match result {
            Ok(value) => {
                values.push(value);
            },
            Err(e) => {
                assert(all_ok(results@.take(n)));
                return Err(e);
            },
        }
    }
    assert(values@ =~= ok_values(results@));
    Ok(values)
}

/// Results either are all good or have a first failure, never both.
pub proof fn results_are_good_or_fail<T, E>(results: Seq<Result<T, E>>, e: E)
    ensures
        is_first_error(results, e) ==> !all_ok(results),
        !all_ok(results) ==> exists|f: E| is_first_error(results, f),
    decreases results.len(),
{
    if !all_ok(results) {
        let i = choose|i: int| 0 <= i < results.len() && !((#[trigger] results[i]) is Ok);
        if all_ok(results.take(i)) {
            assert(is_first_error(results, results[i]->Err_0));
        } else {
            results_are_good_or_fail(results.take(i), e);
            let f = choose|f: E| is_first_error(results.take(i), f);
            let j = choose|j: int|
                0 <= j < i && #[trigger] results.take(i)[j] == Err::<T, E>(f) && all_ok(
                    results.take(i).take(j),
                );
            assert(results[j] == Err::<T, E>(f));
            assert(results.take(i).take(j) =~= results.take(j));
            assert(is_first_error(results, f));
        }
    }
}

/// What belongs to one stripe of an object.
pub trait Striped: Sized {
    /// The index of the stripe.
    spec fn stripe(&self) -> u32;

    /// The index of the stripe.
    fn stripe_index(&self) -> (i: u32)
        ensures
            i == self.stripe(),
    ;
}

impl Striped for ChunkLocation {
    open spec fn stripe(&self) -> u32 {
        self.stripe_index
    }

    fn stripe_index(&self) -> (i: u32) {
        self.stripe_index
    }
}

impl Striped for (u32, Bytes) {
    open spec fn stripe(&self) -> u32 {
        self.0
    }

    fn stripe_index(&self) -> (i: u32) {
        self.0
    }
}

/// Whether the stripes stand in the order of their indices.
pub open spec fn in_stripe_order<T: Striped>(items: Seq<T>) -> bool {
    forall|i: int, j: int|
        0 <= i < j < items.len() ==> (#[trigger] items[i]).stripe() <= (
        #[trigger] items[j]).stripe()
}

/// Those of `items` that belong to stripe `k`, in the order in which they stand.
pub open spec fn of_stripe<T: Striped>(items: Seq<T>, k: u32) -> Seq<T> {
    items.filter(|x: T| x.stripe() == k)
}

/// Whether `sorted` holds what `items` holds, in the order of the stripes' indices, where what
/// belongs to one stripe keeps its order.
pub open spec fn is_stripe_sort<T: Striped>(items: Seq<T>, sorted: Seq<T>) -> bool {
    &&& in_stripe_order(sorted)
    &&& forall|k: u32| #[trigger] of_stripe(sorted, k) == of_stripe(items, k)
}

pub(crate) proof fn lemma_no_stripe<T: Striped>(items: Seq<T>, k: u32)
    requires
        forall|i: int| 0 <= i < items.len() ==> (#[trigger] items[i]).stripe() != k,
    ensures
        of_stripe(items, k).len() == 0,
    decreases items.len(),
{
    reveal(Seq::filter);
    if items.len() > 0 {
        lemma_no_stripe(items.drop_last(), k);
    }
}

proof fn lemma_of_stripe_push<T: Striped>(items: Seq<T>, item: T, k: u32)
    ensures
        of_stripe(items.push(item), k) == (if item.stripe() == k {
            of_stripe(items, k).push(item)
        } else {
            of_stripe(items, k)
        }),
{
    reveal(Seq::filter);
    assert(items.push(item).drop_last() =~= items);
}

proof fn lemma_of_stripe_insert<T: Striped>(items: Seq<T>, p: int, item: T, k: u32)
    requires
        0 <= p <= items.len(),
        forall|i: int| p <= i < items.len() ==> (#[trigger] items[i]).stripe() > item.stripe(),
    ensures
        of_stripe(items.insert(p, item), k) == (if item.stripe() == k {
            of_stripe(items, k).push(item)
        } else {
            of_stripe(items, k)
        }),
{
    let pred = |x: T| x.stripe() == k;
    let head = items.take(p);
    let tail = items.skip(p);
    assert(items =~= head + tail);
    assert(items.insert(p, item) =~= head.push(item) + tail);
    Seq::filter_distributes_over_add(head, tail, pred);
    Seq::filter_distributes_over_add(head.push(item), tail, pred);
    lemma_of_stripe_push(head, item, k);
    if item.stripe() == k {
        assert forall|i: int| 0 <= i < tail.len() implies (#[trigger] tail[i]).stripe() != k by {
            assert(tail[i] == items[p + i]);
        }
        lemma_no_stripe(tail, k);
        assert(of_stripe(items, k) =~= of_stripe(head, k));
        assert(of_stripe(items.insert(p, item), k) =~= of_stripe(items, k).push(item));
    }
}

proof fn lemma_insert_sorts<T: Striped>(items: Seq<T>, before: Seq<T>, p: int, item: T)
    requires
        is_stripe_sort(items, before),
        0 <= p <= before.len(),
        p > 0 ==> before[p - 1].stripe() <= item.stripe(),
        forall|i: int| p <= i < before.len() ==> (#[trigger] before[i]).stripe() > item.stripe(),
    ensures
        is_stripe_sort(items.push(item), before.insert(p, item)),
{
    let after = before.insert(p, item);
    assert forall|k: u32| #[trigger] of_stripe(after, k) == of_stripe(items.push(item), k) by {
        lemma_of_stripe_insert(before, p, item, k);
        lemma_of_stripe_push(items, item, k);
        assert(of_stripe(before, k) == of_stripe(items, k));
    }
    assert forall|i: int, j: int| 0 <= i < j < after.len() implies (
    #[trigger] after[i]).stripe() <= (#[trigger] after[j]).stripe() by {
        let a = if i < p {
            before[i]
        } else if i == p {
            item
        } else {
            before[i - 1]
        };
        let b = if j < p {
            before[j]
        } else if j == p {
            item
        } else {
            before[j - 1]
        };
        assert(after[i] == a && after[j] == b);
        if p > 0 {
            assert(before[p - 1].stripe() <= item.stripe());
        }
    }
}

proof fn lemma_insert_position<T: Striped>(sorted: Seq<T>, k: u32) -> (p: int)
    requires
        in_stripe_order(sorted),
    ensures
        0 <= p <= sorted.len(),
        p > 0 ==> sorted[p - 1].stripe() <= k,
        forall|i: int| p <= i < sorted.len() ==> (#[trigger] sorted[i]).stripe() > k,
    decreases sorted.len(),
{
    if sorted.len() == 0 || sorted.last().stripe() <= k {
        sorted.len() as int
    } else {
        let p = lemma_insert_position(sorted.drop_last(), k);
        assert forall|i: int| p <= i < sorted.len() implies (#[trigger] sorted[i]).stripe() > k by {
            if i < sorted.len() - 1 {
                assert(sorted.drop_last()[i].stripe() > k);
            }
        }
        p
    }
}

/// `items` in the order of the stripes' indices, where what belongs to one stripe keeps its
/// order.
pub open spec fn stripe_sorted<T: Striped>(items: Seq<T>) -> Seq<T> {
    choose|sorted: Seq<T>| is_stripe_sort(items, sorted)
}

/// Puts what belongs to the stripes of an object into the order of the stripes' indices. What
/// belongs to one stripe keeps its order.
pub fn sort_by_stripe<T: Striped>(items: Vec<T>) -> (sorted: Vec<T>)
    ensures
        is_stripe_sort(items@, sorted@),
        sorted@ == stripe_sorted(items@),
        sorted.len() == items.len(),
{
    let mut sorted: Vec<T> = Vec::new();
    assert(items@.take(0) =~= sorted@);
    for item in iter: items
        invariant
            iter.seq() == items@,
            sorted.len() == iter.index(),
            is_stripe_sort(items@.take(iter.index()), sorted@),
    {
        let ghost n = iter.index();
        let ghost before = sorted@;
        let index: u32 = item.stripe_index();
        let mut p: usize = sorted.len();
        while p > 0 && sorted[p - 1].stripe_index() > index
            invariant
                p <= sorted.len(),
                sorted@ == before,
                in_stripe_order(before),
                index == item.stripe(),
                forall|i: int| p <= i < before.len() ==> (#[trigger] before[i]).stripe() > index,
            decreases p,
        {
            p = p - 1;
        }
        proof {
            assert(items@.take(n + 1) =~= items@.take(n).push(item));
            lemma_insert_sorts(items@.take(n), before, p as int, item);
        }
        sorted.insert(p, item);
    }
    assert(items@.take(items@.len() as int) =~= items@);
    proof {
        sort_is_stripe_sorted(items@, sorted@);
    }
    sorted
}

/// There is only one way to put what belongs to the stripes into order, so the order of the
/// results does not depend on how it was found.
pub proof fn stripe_sort_is_unique<T: Striped>(a: Seq<T>, b: Seq<T>)
    requires
        in_stripe_order(a),
        in_stripe_order(b),
        forall|k: u32| #[trigger] of_stripe(a, k) == of_stripe(b, k),
    ensures
        a == b,
    decreases a.len(),
{
    if a.len() == 0 {
        if b.len() > 0 {
            let k = b.last().stripe();
            lemma_no_stripe(a, k);
            assert(b =~= b.drop_last().push(b.last()));
            lemma_of_stripe_push(b.drop_last(), b.last(), k);
            assert(of_stripe(a, k) == of_stripe(b, k));
            assert(false);
        }
        assert(a =~= b);
    } else {
        lemma_same_last(a, b);
        let a1 = a.drop_last();
        let b1 = b.drop_last();
        assert(a =~= a1.push(a.last()));
        assert(b =~= b1.push(b.last()));
        assert forall|k: u32| #[trigger] of_stripe(a1, k) == of_stripe(b1, k) by {
            lemma_of_stripe_push(a1, a.last(), k);
            lemma_of_stripe_push(b1, b.last(), k);
            assert(of_stripe(a, k) == of_stripe(b, k));
            if a.last().stripe() == k {
                assert(of_stripe(a, k).drop_last() =~= of_stripe(a1, k));
                assert(of_stripe(b, k).drop_last() =~= of_stripe(b1, k));
            }
        }
        stripe_sort_is_unique(a1, b1);
    }
}

proof fn lemma_last_stripe<T: Striped>(a: Seq<T>, b: Seq<T>)
    requires
        a.len() > 0,
        in_stripe_order(b),
        of_stripe(a, a.last().stripe()) == of_stripe(b, a.last().stripe()),
    ensures
        b.len() > 0,
        a.last().stripe() <= b.last().stripe(),
{
    let k = a.last().stripe();
    assert(a =~= a.drop_last().push(a.last()));
    lemma_of_stripe_push(a.drop_last(), a.last(), k);
    if forall|i: int| 0 <= i < b.len() ==> (#[trigger] b[i]).stripe() != k {
        lemma_no_stripe(b, k);
    }
    let i = choose|i: int| 0 <= i < b.len() && (#[trigger] b[i]).stripe() == k;
    assert(b[i].stripe() <= b[b.len() - 1].stripe());
}

proof fn lemma_same_last<T: Striped>(a: Seq<T>, b: Seq<T>)
    requires
        a.len() > 0,
        in_stripe_order(a),
        in_stripe_order(b),
        forall|k: u32| #[trigger] of_stripe(a, k) == of_stripe(b, k),
    ensures
        b.len() > 0,
        a.last() == b.last(),
{
    let k = a.last().stripe();
    assert(of_stripe(a, k) == of_stripe(b, k));
    lemma_last_stripe(a, b);
    assert(of_stripe(a, b.last().stripe()) == of_stripe(b, b.last().stripe()));
    lemma_last_stripe(b, a);
    assert(a =~= a.drop_last().push(a.last()));
    assert(b =~= b.drop_last().push(b.last()));
    lemma_of_stripe_push(a.drop_last(), a.last(), k);
    lemma_of_stripe_push(b.drop_last(), b.last(), k);
    assert(of_stripe(a, k).last() == a.last());
    assert(of_stripe(b, k).last() == b.last());
}

/// Whatever belongs to the stripes can be put into order: the sort of `items` is a sort of them.
pub proof fn stripe_sort_exists<T: Striped>(items: Seq<T>)
    ensures
        is_stripe_sort(items, stripe_sorted(items)),
    decreases items.len(),
{
    if items.len() == 0 {
        assert(is_stripe_sort(items, items));
    } else {
        let before = items.drop_last();
        stripe_sort_exists(before);
        let sorted = stripe_sorted(before);
        let p = lemma_insert_position(sorted, items.last().stripe());
        lemma_insert_sorts(before, sorted, p, items.last());
        assert(before.push(items.last()) =~= items);
        assert(is_stripe_sort(items, sorted.insert(p, items.last())));
    }
}

/// Whatever is a sort of `items` is the sort of `items`.
pub proof fn sort_is_stripe_sorted<T: Striped>(items: Seq<T>, sorted: Seq<T>)
    requires
        is_stripe_sort(items, sorted),
    ensures
        sorted == stripe_sorted(items),
{
    let s = stripe_sorted(items);
    assert(is_stripe_sort(items, s));
    assert forall|k: u32| #[trigger] of_stripe(sorted, k) == of_stripe(s, k) by {
        assert(of_stripe(s, k) == of_stripe(items, k));
    }
    stripe_sort_is_unique(sorted, s);
}

/// What already stands in the order of the stripes stays as it is.
pub proof fn ordered_stripes_stay<T: Striped>(items: Seq<T>)
    requires
        in_stripe_order(items),
    ensures
        stripe_sorted(items) == items,
{
    sort_is_stripe_sorted(items, items);
}

} // verus!
