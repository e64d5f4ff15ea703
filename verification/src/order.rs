//! Sorting that keeps the order of equal items.

use vstd::prelude::*;

verus! {

/// A kind of key by which things are sorted.
pub trait Ranked: Sized {
    /// This key comes no later than the other.
    spec fn at_most(&self, other: &Self) -> bool;

    proof fn total(a: &Self, b: &Self)
        ensures
            a.at_most(b) || b.at_most(a),
    ;

    proof fn transitive(a: &Self, b: &Self, c: &Self)
        requires
            a.at_most(b),
            b.at_most(c),
        ensures
            a.at_most(c),
    ;

    fn is_at_most(&self, other: &Self) -> (r: bool)
        ensures
            r == self.at_most(other),
    ;
}

impl Ranked for i128 {
    open spec fn at_most(&self, other: &Self) -> bool {
        *self <= *other
    }

    proof fn total(a: &Self, b: &Self) {
    }

    proof fn transitive(a: &Self, b: &Self, c: &Self) {
    }

    fn is_at_most(&self, other: &Self) -> (r: bool) {
        *self <= *other
    }
}

/// `s` comes no later than `t` in the order of their characters.
pub open spec fn text_at_most(s: Seq<char>, t: Seq<char>) -> bool
    decreases s.len(),
{
    if s.len() == 0 {
        true
    } else if t.len() == 0 {
        false
    } else if s[0] == t[0] {
        text_at_most(s.drop_first(), t.drop_first())
    } else {
        s[0] < t[0]
    }
}

pub proof fn lemma_text_total(s: Seq<char>, t: Seq<char>)
    ensures
        text_at_most(s, t) || text_at_most(t, s),
        text_at_most(s, t) && text_at_most(t, s) ==> s == t,
    decreases s.len(),
{
    if s.len() > 0 && t.len() > 0 && s[0] == t[0] {
        lemma_text_total(s.drop_first(), t.drop_first());
        if s.drop_first() == t.drop_first() {
            assert(s =~= seq![s[0]] + s.drop_first());
            assert(t =~= seq![t[0]] + t.drop_first());
        }
    } else if s.len() == 0 && t.len() == 0 {
        assert(s =~= t);
    }
}

pub proof fn lemma_text_transitive(s: Seq<char>, t: Seq<char>, u: Seq<char>)
    requires
        text_at_most(s, t),
        text_at_most(t, u),
    ensures
        text_at_most(s, u),
    decreases s.len(),
{
    if s.len() > 0 && t.len() > 0 && u.len() > 0 && s[0] == t[0] && t[0] == u[0] {
        lemma_text_transitive(s.drop_first(), t.drop_first(), u.drop_first());
    }
}

/// The first character in which two texts differ decides their order, and where one goes on
/// beyond the other, the shorter comes first.
pub proof fn law_the_first_difference_decides(p: Seq<char>, a: Seq<char>, b: Seq<char>)
    ensures
        a.len() > 0 && b.len() > 0 && a[0] < b[0] ==> text_at_most(p + a, p + b) && !text_at_most(
            p + b,
            p + a,
        ),
        a.len() > 0 ==> text_at_most(p, p + a) && !text_at_most(p + a, p),
        text_at_most(p, p),
    decreases p.len(),
{
    if p.len() == 0 {
        assert(p + a =~= a);
        assert(p + b =~= b);
    } else {
        let q = p.drop_first();
        law_the_first_difference_decides(q, a, b);
        assert((p + a).drop_first() =~= q + a);
        assert((p + b).drop_first() =~= q + b);
    }
}

/// Texts that come no later than each other are the same text, of two texts one comes no later
/// than the other, and what comes no later than something comes no later than what follows it.
pub proof fn law_texts_are_in_one_order(s: Seq<char>, t: Seq<char>, u: Seq<char>)
    ensures
        text_at_most(s, t) || text_at_most(t, s),
        text_at_most(s, t) && text_at_most(t, s) ==> s == t,
        text_at_most(s, t) && text_at_most(t, u) ==> text_at_most(s, u),
{
    lemma_text_total(s, t);
    if text_at_most(s, t) && text_at_most(t, u) {
        lemma_text_transitive(s, t, u);
    }
}

impl Ranked for Vec<char> {
    open spec fn at_most(&self, other: &Self) -> bool {
        text_at_most(self@, other@)
    }

    proof fn total(a: &Self, b: &Self) {
        lemma_text_total(a@, b@);
    }

    proof fn transitive(a: &Self, b: &Self, c: &Self) {
        lemma_text_transitive(a@, b@, c@);
    }

    fn is_at_most(&self, other: &Self) -> (r: bool) {
        let mut i: usize = 0;
        proof {
            assert(self@.skip(0) =~= self@);
            assert(other@.skip(0) =~= other@);
        }
        while i < self.len()
            invariant
                i <= self@.len(),
                i <= other@.len(),
                text_at_most(self@, other@) == text_at_most(
                    self@.skip(i as int),
                    other@.skip(i as int),
                ),
            decreases self@.len() - i,
        {
            let ghost s = self@.skip(i as int);
            let ghost t = other@.skip(i as int);
            if i >= other.len() {
                return false;
            }
            assert(s[0] == self@[i as int]);
            assert(t[0] == other@[i as int]);
            if self[i] != other[i] {
                return self[i] < other[i];
            }
            assert(s.drop_first() =~= self@.skip(i + 1));
            assert(t.drop_first() =~= other@.skip(i + 1));
            i += 1;
        }
        true
    }
}

/// Two keys of which the first decides, and the second where the first are equal.
pub struct Then<A, B>(pub A, pub B);

impl<A: Ranked, B: Ranked> Ranked for Then<A, B> {
    open spec fn at_most(&self, other: &Self) -> bool {
        self.0.at_most(&other.0) && (other.0.at_most(&self.0) ==> self.1.at_most(&other.1))
    }

    proof fn total(a: &Self, b: &Self) {
        A::total(&a.0, &b.0);
        B::total(&a.1, &b.1);
    }

    proof fn transitive(a: &Self, b: &Self, c: &Self) {
        A::transitive(&a.0, &b.0, &c.0);
        if c.0.at_most(&a.0) {
            A::transitive(&b.0, &c.0, &a.0);
            A::transitive(&c.0, &a.0, &b.0);
            B::transitive(&a.1, &b.1, &c.1);
        }
    }

    fn is_at_most(&self, other: &Self) -> (r: bool) {
        self.0.is_at_most(&other.0) && (!other.0.is_at_most(&self.0) || self.1.is_at_most(&other.1))
    }
}

/// The item at `a` comes before the item at `b`: by its key, and by its place where the keys
/// are equal.
pub open spec fn comes_before<K: Ranked>(keys: Seq<K>, a: int, b: int) -> bool {
    keys[a].at_most(&keys[b]) && (keys[b].at_most(&keys[a]) ==> a < b)
}

/// `order` holds the place of every item once, sorted by the keys.
pub open spec fn is_stable_order<K: Ranked>(keys: Seq<K>, order: Seq<usize>) -> bool {
    &&& order.len() == keys.len()
    &&& forall|i: int| 0 <= i < order.len() ==> (#[trigger] order[i]) < keys.len()
    &&& forall|i: int, j: int|
        0 <= i < j < order.len() ==> #[trigger] order[i] != #[trigger] order[j] && comes_before(
            keys,
            order[i] as int,
            order[j] as int,
        )
}

/// The places of the items in the order of their keys; equal items stay in the order they have.
pub fn stable_order<K: Ranked>(keys: &Vec<K>) -> (r: Vec<usize>)
    ensures
        is_stable_order(keys@, r@),
{
    let mut out: Vec<usize> = Vec::new();
    let mut i: usize = 0;
    while i < keys.len()
        invariant
            i <= keys@.len(),
            out@.len() == i,
            forall|a: int| 0 <= a < out@.len() ==> (#[trigger] out@[a]) < i,
            forall|a: int, b: int|
                0 <= a < b < out@.len() ==> #[trigger] out@[a] != #[trigger] out@[b]
                    && comes_before(keys@, out@[a] as int, out@[b] as int),
        decreases keys@.len() - i,
    {
        let mut p: usize = i;
        while p > 0 && !keys[out[p - 1]].is_at_most(&keys[i])
            invariant
                p <= i,
                i < keys@.len(),
                out@.len() == i,
                forall|a: int| 0 <= a < out@.len() ==> (#[trigger] out@[a]) < i,
                forall|a: int|
                    p <= a < i ==> !keys@[#[trigger] out@[a] as int].at_most(&keys@[i as int]),
            decreases p,
        {
            p -= 1;
        }
        let ghost before = out@;
        out.insert(p, i);
        proof {
            assert forall|a: int| 0 <= a < p implies keys@[#[trigger] before[a] as int].at_most(
                &keys@[i as int],
            ) by {
                if a < p - 1 {
                    assert(comes_before(keys@, before[a] as int, before[p - 1] as int));
                    K::transitive(
                        &keys@[before[a] as int],
                        &keys@[before[p - 1] as int],
                        &keys@[i as int],
                    );
                }
            }
            assert forall|a: int, b: int| 0 <= a < b < out@.len() implies #[trigger] out@[a]
                != #[trigger] out@[b] && comes_before(keys@, out@[a] as int, out@[b] as int) by {
                let a0 = if a < p {
                    a
                } else {
                    a - 1
                };
                let b0 = if b < p {
                    b
                } else {
                    b - 1
                };
                if a == p {
                    assert(out@[b] == before[b0]);
                    K::total(&keys@[i as int], &keys@[before[b0] as int]);
                } else if b == p {
                    assert(out@[a] == before[a0]);
                } else {
                    assert(out@[a] == before[a0] && out@[b] == before[b0]);
                    assert(before[a0] != before[b0]);
                }
            }
            assert forall|a: int| 0 <= a < out@.len() implies (#[trigger] out@[a]) < i + 1 by {
                if a < p {
                    assert(out@[a] == before[a]);
                } else if a > p {
                    assert(out@[a] == before[a - 1]);
                }
            }
        }
        i += 1;
    }
    out
}

/// Sorted by numbers, every item is there once, smaller numbers come first, and items with the same
/// number stay in the order they had.
pub proof fn law_the_order_is_by_number_and_by_place(keys: Seq<i128>, order: Seq<usize>, i: int, j: int)
    requires
        is_stable_order(keys, order),
        0 <= i < j < order.len(),
    ensures
        order.len() == keys.len(),
        order[i] < keys.len() && order[j] < keys.len(),
        order[i] != order[j],
        keys[order[i] as int] <= keys[order[j] as int],
        keys[order[i] as int] == keys[order[j] as int] ==> order[i] < order[j],
{
    assert(order[i] != order[j] && comes_before(keys, order[i] as int, order[j] as int));
}

/// Of two pairs of keys the first keys decide, and only where they are equal the second do.
pub proof fn law_the_first_key_decides(a: i128, b: i128, c: i128, d: i128)
    ensures
        a < c ==> Then(a, b).at_most(&Then(c, d)) && !Then(c, d).at_most(&Then(a, b)),
        a == c ==> (Then(a, b).at_most(&Then(c, d)) <==> b <= d),
        a.at_most(&c) <==> a <= c,
{
}

} // verus!
