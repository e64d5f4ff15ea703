//! Lists: picking items, pages of items, and putting items in order.

use crate::order::is_stable_order;
use crate::order::Ranked;
use vstd::prelude::*;

verus! {

/// The items whose flag is set.
pub open spec fn kept<T>(v: Seq<T>, flags: Seq<bool>) -> Seq<T>
    decreases v.len(),
{
    if v.len() == 0 {
        Seq::empty()
    } else if flags[v.len() - 1] {
        kept(v.drop_last(), flags).push(v.last())
    } else {
        kept(v.drop_last(), flags)
    }
}

/// Keeps the items whose flag is set.
pub fn keep<T>(v: Vec<T>, flags: &Vec<bool>) -> (r: Vec<T>)
    requires
        v@.len() == flags@.len(),
    ensures
        r@ == kept(v@, flags@),
{
    let ghost all = v@;
    let len: usize = v.len();
    let mut out: Vec<T> = Vec::new();
    let mut i: usize = 0;
    assert(all.take(0) =~= Seq::empty());
    for x in it: v
        invariant
            it.seq() == all,
            all.len() == flags@.len(),
            all.len() == len,
            i == it.index(),
            out@ == kept(all.take(i as int), flags@),
    {
        assert(all.take(i + 1).drop_last() =~= all.take(i as int));
        assert(all.take(i + 1).last() == x);
        if flags[i] {
            out.push(x);
        }
        i += 1;
    }
    assert(all.take(all.len() as int) =~= all);
    out
}

/// Where the flags tell which items pass a test, those kept are those that pass.
pub proof fn lemma_kept_is_filter<T>(v: Seq<T>, flags: Seq<bool>, test: spec_fn(T) -> bool)
    requires
        v.len() <= flags.len(),
        forall|i: int| 0 <= i < v.len() ==> #[trigger] flags[i] == test(v[i]),
    ensures
        kept(v, flags) == v.filter(test),
    decreases v.len(),
{
    reveal(Seq::filter);
    if v.len() > 0 {
        lemma_kept_is_filter(v.drop_last(), flags, test);
    }
}

/// The items of a page: so many of them, after so many others.
pub open spec fn paged<T>(v: Seq<T>, offset: int, size: int) -> Seq<T> {
    let from = if offset <= v.len() {
        offset
    } else {
        v.len() as int
    };
    let to = if from + size <= v.len() {
        from + size
    } else {
        v.len() as int
    };
    v.subrange(from, to)
}

/// The items of a page.
pub fn page<T>(items: Vec<T>, offset: u32, size: u32) -> (r: Vec<T>)
    ensures
        r@ == paged(items@, offset as int, size as int),
{
    let ghost all = items@;
    let len: usize = items.len();
    let from: usize = if offset as u64 <= len as u64 {
        offset as usize
    } else {
        len
    };
    let to: usize = if size as u64 <= (len - from) as u64 {
        from + size as usize
    } else {
        len
    };
    let mut out: Vec<T> = Vec::new();
    let mut i: usize = 0;
    for x in it: items
        invariant
            it.seq() == all,
            all.len() == len,
            i == it.index(),
            from <= to <= all.len(),
            out@ == (if i <= from {
                Seq::empty()
            } else if i <= to {
                all.subrange(from as int, i as int)
            } else {
                all.subrange(from as int, to as int)
            }),
    {
        if from <= i && i < to {
            out.push(x);
            assert(out@ =~= all.subrange(from as int, i + 1));
        }
        i += 1;
    }
    assert(out@ =~= all.subrange(from as int, to as int));
    out
}

/// A page and the one that follows it are the page that is as long as both.
pub proof fn law_pages_follow_on<T>(v: Seq<T>, offset: int, first: int, second: int)
    requires
        0 <= offset,
        0 <= first,
        0 <= second,
    ensures
        paged(v, offset, first) + paged(v, offset + first, second) == paged(
            v,
            offset,
            first + second,
        ),
{
    assert(paged(v, offset, first) + paged(v, offset + first, second) =~= paged(
        v,
        offset,
        first + second,
    ));
}

/// The items at these places.
pub open spec fn arranged<T>(v: Seq<T>, order: Seq<usize>) -> Seq<T> {
    order.map_values(|i: usize| v[i as int])
}

/// `r` holds the items in the order of their keys; equal ones in the order they had.
pub open spec fn is_sorted<T, K: Ranked>(r: Seq<T>, v: Seq<T>, keys: Seq<K>) -> bool {
    exists|order: Seq<usize>| #[trigger]
        is_stable_order(keys, order) && keys.len() == v.len() && r == arranged(v, order)
}

/// Puts the items in an order that names each place once.
pub fn arrange<T>(v: Vec<T>, order: &Vec<usize>) -> (r: Vec<T>)
    requires
        order@.len() == v@.len(),
        forall|i: int| 0 <= i < order@.len() ==> (#[trigger] order@[i]) < v@.len(),
        forall|i: int, j: int|
            0 <= i < j < order@.len() ==> #[trigger] order@[i] != #[trigger] order@[j],
    ensures
        r@ == arranged(v@, order@),
{
    let ghost all = v@;
    let mut slots: Vec<Option<T>> = Vec::new();
    for x in it: v
        invariant
            it.seq() == all,
            slots@.len() == it.index(),
            forall|i: int| 0 <= i < slots@.len() ==> #[trigger] slots@[i] == Some(all[i]),
    {
        slots.push(Some(x));
    }
    let mut out: Vec<T> = Vec::new();
    let mut k: usize = 0;
    while k < order.len()
        invariant
            k <= order@.len(),
            order@.len() == all.len(),
            slots@.len() == all.len(),
            forall|i: int| 0 <= i < order@.len() ==> (#[trigger] order@[i]) < all.len(),
            forall|i: int, j: int|
                0 <= i < j < order@.len() ==> #[trigger] order@[i] != #[trigger] order@[j],
            forall|i: int|
                k <= i < order@.len() ==> slots@[#[trigger] order@[i] as int] == Some(
                    all[order@[i] as int],
                ),
            out@ =~= arranged(all, order@).take(k as int),
        decreases order@.len() - k,
    {
        let mut slot: Option<T> = None;
        let at: usize = order[k];
        slots.set_and_swap(at, &mut slot);
        assert(slot == Some(all[order@[k as int] as int]));
        match slot {
            Some(x) => out.push(x),
            None => {
                assert(false);
            },
        }
        k += 1;
    }
    assert(arranged(all, order@).take(k as int) =~= arranged(all, order@));
    out
}

/// Sorts items by their keys; equal ones stay in the order they have.
pub fn sort_by_keys<T, K: Ranked>(v: Vec<T>, keys: &Vec<K>) -> (r: Vec<T>)
    requires
        keys@.len() == v@.len(),
    ensures
        is_sorted(r@, v@, keys@),
{
    let order = crate::order::stable_order(keys);
    let r = arrange(v, &order);
    assert(is_stable_order(keys@, order@));
    r
}

/// `order` holds the place of every item once, so that the items are in the order that `le`
/// says; items that are equal in it keep theirs.
pub open spec fn sorts<T>(order: Seq<usize>, v: Seq<T>, le: spec_fn(T, T) -> bool) -> bool {
    &&& order.len() == v.len()
    &&& forall|i: int| 0 <= i < order.len() ==> (#[trigger] order[i]) < v.len()
    &&& forall|i: int, j: int|
        0 <= i < j < order.len() ==> {
            let a = #[trigger] order[i] as int;
            let b = #[trigger] order[j] as int;
            a != b && le(v[a], v[b]) && (le(v[b], v[a]) ==> a < b)
        }
}

/// `r` holds the items in the order that `le` says; items that are equal in it keep theirs.
pub open spec fn sorted_by<T>(r: Seq<T>, v: Seq<T>, le: spec_fn(T, T) -> bool) -> bool {
    exists|order: Seq<usize>| #[trigger] sorts(order, v, le) && r == arranged(v, order)
}

/// Items sorted by keys are sorted by what the keys stand for.
pub proof fn lemma_sorted_by<T, K: Ranked>(
    r: Seq<T>,
    v: Seq<T>,
    keys: Seq<K>,
    le: spec_fn(T, T) -> bool,
)
    requires
        is_sorted(r, v, keys),
        forall|a: int, b: int|
            #![trigger keys[a], keys[b]]
            0 <= a < v.len() && 0 <= b < v.len() ==> keys[a].at_most(&keys[b]) == le(v[a], v[b]),
    ensures
        sorted_by(r, v, le),
{
    let order = choose|order: Seq<usize>| #[trigger]
        is_stable_order(keys, order) && keys.len() == v.len() && r == arranged(v, order);
    assert forall|i: int, j: int| 0 <= i < j < order.len() implies {
        let a = #[trigger] order[i] as int;
        let b = #[trigger] order[j] as int;
        a != b && le(v[a], v[b]) && (le(v[b], v[a]) ==> a < b)
    } by {
        let a = order[i] as int;
        let b = order[j] as int;
        assert(order[i] != order[j] && crate::order::comes_before(keys, a, b));
        assert(keys[a].at_most(&keys[b]) == le(v[a], v[b]));
        assert(keys[b].at_most(&keys[a]) == le(v[b], v[a]));
    }
    assert(sorts(order, v, le));
}

/// The places of an order are all places there are, each once.
proof fn lemma_order_covers(order: Seq<usize>, n: nat, place: int)
    requires
        order.len() == n,
        forall|i: int| 0 <= i < order.len() ==> (#[trigger] order[i]) < n,
        forall|i: int, j: int|
            0 <= i < j < order.len() ==> #[trigger] order[i] != #[trigger] order[j],
        0 <= place < n,
    ensures
        exists|i: int| 0 <= i < order.len() && #[trigger] order[i] == place,
    decreases n,
{
    if !(exists|i: int| 0 <= i < order.len() && #[trigger] order[i] == place) {
        let all = Set::<int>::new(|p: int| 0 <= p < n);
        let got = order.map_values(|x: usize| x as int);
        assert(got.no_duplicates()) by {
            assert forall|i: int, j: int| 0 <= i < got.len() && 0 <= j < got.len() && i != j implies got[i]
                != got[j] by {
                if i < j {
                    assert(order[i] != order[j]);
                } else {
                    assert(order[j] != order[i]);
                }
            }
        }
        got.unique_seq_to_set();
        vstd::set_lib::lemma_int_range(0, n as int);
        let range = vstd::set_lib::set_int_range(0, n as int);
        let less = range.remove(place);
        assert(got.to_set().subset_of(less)) by {
            assert forall|p: int| got.to_set().contains(p) implies less.contains(p) by {
                let i = choose|i: int| 0 <= i < got.len() && got[i] == p;
                assert(order[i] != place);
            }
        }
        vstd::set_lib::lemma_len_subset(got.to_set(), less);
    }
}

/// A sorted list holds each item of the list it was made from as often as that list does, and no
/// other; an item comes no later than one behind it; and of two items that tie, that which
/// stood first stays first.
pub proof fn law_sorting_keeps_all_and_their_order<T>(
    r: Seq<T>,
    v: Seq<T>,
    le: spec_fn(T, T) -> bool,
)
    requires
        sorted_by(r, v, le),
    ensures
        r.len() == v.len(),
        forall|x: T| r.contains(x) <==> v.contains(x),
        forall|i: int, j: int|
            0 <= i < j < r.len() ==> le(#[trigger] r[i], #[trigger] r[j]),
{
    let order = choose|order: Seq<usize>| #[trigger] sorts(order, v, le) && r == arranged(v, order);
    assert forall|i: int, j: int| 0 <= i < j < r.len() implies le(
        #[trigger] r[i],
        #[trigger] r[j],
    ) by {
        assert(order[i] != order[j]);
        assert(r[i] == v[order[i] as int] && r[j] == v[order[j] as int]);
    }
    assert forall|x: T| r.contains(x) <==> v.contains(x) by {
        if r.contains(x) {
            let i = choose|i: int| 0 <= i < r.len() && r[i] == x;
            assert(v[order[i] as int] == x);
        }
        if v.contains(x) {
            let p = choose|p: int| 0 <= p < v.len() && v[p] == x;
            lemma_order_covers(order, v.len(), p);
            let i = choose|i: int| 0 <= i < order.len() && #[trigger] order[i] == p;
            assert(r[i] == x);
        }
    }
}

/// A list that is in order already is sorted as it is.
pub proof fn law_sorting_is_stable<T>(r: Seq<T>, v: Seq<T>, le: spec_fn(T, T) -> bool)
    requires
        sorted_by(r, v, le),
        forall|i: int, j: int| 0 <= i <= j < v.len() ==> le(#[trigger] v[i], #[trigger] v[j]),
    ensures
        r == v,
{
    let order = choose|order: Seq<usize>| #[trigger] sorts(order, v, le) && r == arranged(v, order);
    assert forall|i: int, j: int| 0 <= i < j < order.len() implies #[trigger] order[i]
        < #[trigger] order[j] by {
        let a = order[i] as int;
        let b = order[j] as int;
        assert(a != b && le(v[a], v[b]) && (le(v[b], v[a]) ==> a < b));
        if b < a {
            assert(le(v[b], v[a]));
        }
    }
    assert forall|i: int| 0 <= i < order.len() implies order[i] == i by {
        lemma_ascending_is_identity(order, v.len(), i);
    }
    assert(r =~= v);
}

proof fn lemma_ascending_is_identity(order: Seq<usize>, n: nat, i: int)
    requires
        order.len() == n,
        forall|i: int| 0 <= i < order.len() ==> (#[trigger] order[i]) < n,
        forall|i: int, j: int| 0 <= i < j < order.len() ==> #[trigger] order[i] < #[trigger] order[j],
        0 <= i < n,
    ensures
        order[i] == i,
{
    lemma_at_least(order, n, i);
    lemma_at_most_place(order, n, i);
}

proof fn lemma_at_least(order: Seq<usize>, n: nat, i: int)
    requires
        order.len() == n,
        forall|i: int, j: int| 0 <= i < j < order.len() ==> #[trigger] order[i] < #[trigger] order[j],
        0 <= i < n,
    ensures
        order[i] >= i,
    decreases i,
{
    if i > 0 {
        lemma_at_least(order, n, i - 1);
        assert(order[i - 1] < order[i]);
    }
}

proof fn lemma_at_most_place(order: Seq<usize>, n: nat, i: int)
    requires
        order.len() == n,
        forall|i: int| 0 <= i < order.len() ==> (#[trigger] order[i]) < n,
        forall|i: int, j: int| 0 <= i < j < order.len() ==> #[trigger] order[i] < #[trigger] order[j],
        0 <= i < n,
    ensures
        order[i] <= i,
    decreases n - i,
{
    if i + 1 < n {
        lemma_at_most_place(order, n, i + 1);
        assert(order[i] < order[i + 1]);
    }
}

/// A page holds the items from its offset on, in their order, as many as it is long and as there
/// are.
pub proof fn law_a_page_is_a_stretch_of_the_list<T>(v: Seq<T>, offset: int, size: int)
    requires
        0 <= offset,
        0 <= size,
    ensures
        ({
            let left = if offset <= v.len() {
                v.len() - offset
            } else {
                0
            };
            &&& paged(v, offset, size).len() == if size <= left {
                size
            } else {
                left
            }
            &&& forall|i: int|
                0 <= i < paged(v, offset, size).len() ==> #[trigger] paged(v, offset, size)[i]
                    == v[offset + i]
        }),
{
}

/// Only the items that are there are kept, in their order: an item at the end is kept behind the
/// others, and a gap adds nothing.
pub proof fn law_gaps_are_left_out<T>(v: Seq<Option<T>>, x: T)
    ensures
        somes(v.push(Some(x))) == somes(v).push(x),
        somes(v.push(None)) == somes(v),
        somes(Seq::<Option<T>>::empty()).len() == 0,
{
    assert(v.push(Some(x)).drop_last() =~= v);
    assert(v.push(None).drop_last() =~= v);
}

/// The items that are there.
pub open spec fn somes<T>(v: Seq<Option<T>>) -> Seq<T>
    decreases v.len(),
{
    if v.len() == 0 {
        Seq::empty()
    } else {
        match v.last() {
            Some(x) => somes(v.drop_last()).push(x),
            None => somes(v.drop_last()),
        }
    }
}

/// Where every item is there, all are kept, in their order.
pub proof fn law_all_that_is_there_is_kept<T>(v: Seq<Option<T>>)
    requires
        forall|i: int| 0 <= i < v.len() ==> (#[trigger] v[i]) is Some,
    ensures
        somes(v).len() == v.len(),
        forall|i: int| 0 <= i < v.len() ==> Some(#[trigger] somes(v)[i]) == v[i],
    decreases v.len(),
{
    if v.len() > 0 {
        let w = v.drop_last();
        assert forall|i: int| 0 <= i < w.len() implies (#[trigger] w[i]) is Some by {
            assert(w[i] == v[i]);
        }
        law_all_that_is_there_is_kept(w);
        assert(v.last() == v[v.len() - 1]);
        assert forall|i: int| 0 <= i < v.len() implies Some(#[trigger] somes(v)[i]) == v[i] by {
            if i < w.len() {
                assert(somes(v)[i] == somes(w)[i]);
                assert(w[i] == v[i]);
            }
        }
    }
}

/// Keeps the items that are there.
pub fn found<T>(v: Vec<Option<T>>) -> (r: Vec<T>)
    ensures
        r@ == somes(v@),
{
    let ghost all = v@;
    let ghost mut n: int = 0;
    let mut out: Vec<T> = Vec::new();
    assert(all.take(0) =~= Seq::empty());
    for x in it: v
        invariant
            it.seq() == all,
            n == it.index(),
            out@ == somes(all.take(n)),
    {
        assert(all.take(n + 1).drop_last() =~= all.take(n));
        assert(all.take(n + 1).last() == x);
        if let Some(y) = x {
            out.push(y);
        }
        proof {
            n = n + 1;
        }
    }
    assert(all.take(all.len() as int) =~= all);
    out
}

/// Turns a list round.
pub fn reversed<T>(v: Vec<T>) -> (r: Vec<T>)
    ensures
        r@ == v@.reverse(),
{
    let mut rest = v;
    let mut out: Vec<T> = Vec::new();
    assert(rest@.reverse() =~= out@ + rest@.reverse());
    while rest.len() > 0
        invariant
            v@.reverse() == out@ + rest@.reverse(),
        decreases rest@.len(),
    {
        let ghost before = rest@;
        let ghost had = out@;
        match rest.pop() {
            Some(x) => {
                out.push(x);
                assert(before.reverse() =~= seq![x] + rest@.reverse());
                assert(out@ + rest@.reverse() =~= had + before.reverse());
            },
            None => {},
        }
    }
    assert(out@ =~= v@.reverse());
    out
}

} // verus!
