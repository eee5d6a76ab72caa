//! Stable sorting of what the library lists.

use vstd::prelude::*;

verus! {

/// A thing that is listed in an order of its own.
pub trait Listed: View + Sized {
    /// Whether `a` has to be listed later than `b`. Where neither has to be
    /// later, the two keep the order in which they came.
    spec fn later(a: Self::V, b: Self::V) -> bool;

    /// Whether this has to be listed later than `other`.
    fn is_later(&self, other: &Self) -> (later: bool)
        ensures
            later == Self::later(self@, other@),
    ;
}

/// What a sequence of things stands for.
pub open spec fn views<T: View>(things: Seq<T>) -> Seq<T::V> {
    things.map_values(|thing: T| thing@)
}

/// Where `x` goes among `s`: before the first element that has to be later
/// than it, looking no further than `upto`.
pub open spec fn slot<A>(s: Seq<A>, x: A, later: spec_fn(A, A) -> bool, upto: int) -> int
    decreases upto,
{
    if upto <= 0 {
        0
    } else if later(s[upto - 1], x) {
        slot(s, x, later, upto - 1)
    } else {
        upto
    }
}

/// `s` with `x` put behind every element up to the last that need not be later
/// than it.
pub open spec fn placed<A>(s: Seq<A>, x: A, later: spec_fn(A, A) -> bool) -> Seq<A> {
    s.insert(slot(s, x, later, s.len() as int), x)
}

/// `s` in order, with equal elements as they came.
pub open spec fn in_order<A>(s: Seq<A>, later: spec_fn(A, A) -> bool) -> Seq<A>
    decreases s.len(),
{
    if s.len() == 0 {
        s
    } else {
        placed(in_order(s.drop_last(), later), s.last(), later)
    }
}

/// Whether "has to be later" is an order: of two elements at most one has to be
/// later, and what need not be later than a thing that need not be later than
/// a third need not be later than the third.
pub open spec fn is_order<A>(later: spec_fn(A, A) -> bool) -> bool {
    &&& forall|a: A, b: A| #[trigger] later(a, b) ==> !later(b, a)
    &&& forall|a: A, b: A, c: A|
        #![trigger later(a, b), later(b, c)]
        !later(a, b) && !later(b, c) ==> !later(a, c)
}

/// Where `x` goes: it need not be later than what stands before that place, and
/// what stands behind it has to be later than `x`.
proof fn lemma_slot<A>(s: Seq<A>, x: A, later: spec_fn(A, A) -> bool, upto: int)
    requires
        0 <= upto <= s.len(),
    ensures
        0 <= slot(s, x, later, upto) <= upto,
        forall|i: int| slot(s, x, later, upto) <= i < upto ==> later(#[trigger] s[i], x),
        slot(s, x, later, upto) > 0 ==> !later(s[slot(s, x, later, upto) - 1], x),
    decreases upto,
{
    if upto > 0 && later(s[upto - 1], x) {
        lemma_slot(s, x, later, upto - 1);
    }
}

/// Sorting loses nothing and adds nothing.
pub proof fn sorting_keeps_the_elements<A>(s: Seq<A>, later: spec_fn(A, A) -> bool)
    ensures
        in_order(s, later).to_multiset() == s.to_multiset(),
        in_order(s, later).len() == s.len(),
    decreases s.len(),
{
    broadcast use vstd::seq_lib::group_to_multiset_ensures;

    if s.len() > 0 {
        let front = in_order(s.drop_last(), later);
        sorting_keeps_the_elements(s.drop_last(), later);
        lemma_slot(front, s.last(), later, front.len() as int);
        assert(s.drop_last().push(s.last()) =~= s);
    }
}

/// Sorting leaves no element in front of one that it has to be later than.
pub proof fn sorting_orders<A>(s: Seq<A>, later: spec_fn(A, A) -> bool)
    requires
        is_order(later),
    ensures
        forall|i: int, j: int|
            0 <= i < j < in_order(s, later).len() ==> !later(
                #[trigger] in_order(s, later)[i],
                #[trigger] in_order(s, later)[j],
            ),
    decreases s.len(),
{
    if s.len() > 0 {
        let front = in_order(s.drop_last(), later);
        let x = s.last();
        let at = slot(front, x, later, front.len() as int);
        let whole = in_order(s, later);
        sorting_orders(s.drop_last(), later);
        lemma_slot(front, x, later, front.len() as int);
        assert forall|i: int, j: int| 0 <= i < j < whole.len() implies !later(
            #[trigger] whole[i],
            #[trigger] whole[j],
        ) by {
            let from = if i < at {
                i
            } else {
                i - 1
            };
            let to = if j < at {
                j
            } else {
                j - 1
            };
            if i == at {
                assert(later(front[to], x));
            } else if j == at {
                assert(whole[i] == front[i]);
                if i < at - 1 {
                    assert(!later(front[i], front[at - 1]));
                }
                assert(!later(front[i], x));
            } else {
                assert(whole[i] == front[from]);
                assert(whole[j] == front[to]);
            }
        }
    }
}

/// Elements of which none has to be later than another keep the order in which
/// they came.
pub proof fn sorting_is_stable<A>(
    s: Seq<A>,
    later: spec_fn(A, A) -> bool,
    alike: spec_fn(A) -> bool,
)
    requires
        forall|a: A, b: A| alike(a) && alike(b) ==> !#[trigger] later(a, b),
    ensures
        in_order(s, later).filter(alike) == s.filter(alike),
    decreases s.len(),
{
    if s.len() > 0 {
        let front = in_order(s.drop_last(), later);
        let x = s.last();
        let at = slot(front, x, later, front.len() as int);
        sorting_is_stable(s.drop_last(), later, alike);
        lemma_slot(front, x, later, front.len() as int);
        let (head, tail) = (front.take(at), front.skip(at));
        assert(in_order(s, later) =~= head + (seq![x] + tail));
        assert(front =~= head + tail);
        assert(s =~= s.drop_last() + seq![x]);
        Seq::filter_distributes_over_add(head, seq![x] + tail, alike);
        Seq::filter_distributes_over_add(seq![x], tail, alike);
        Seq::filter_distributes_over_add(head, tail, alike);
        Seq::filter_distributes_over_add(s.drop_last(), seq![x], alike);
        lemma_filter_one(x, alike);
        if alike(x) {
            assert forall|i: int| 0 <= i < tail.len() implies !alike(#[trigger] tail[i]) by {
                assert(later(front[at + i], x));
            }
            lemma_filter_none(tail, alike);
            assert(in_order(s, later).filter(alike) =~= s.filter(alike));
        } else {
            assert(in_order(s, later).filter(alike) =~= s.filter(alike));
        }
    }
}

proof fn lemma_filter_one<A>(x: A, pred: spec_fn(A) -> bool)
    ensures
        seq![x].filter(pred) == (if pred(x) {
            seq![x]
        } else {
            Seq::empty()
        }),
{
    reveal_with_fuel(Seq::filter, 2);
    assert(seq![x].drop_last() =~= Seq::<A>::empty());
    assert(Seq::<A>::empty().push(x) =~= seq![x]);
}

proof fn lemma_filter_none<A>(s: Seq<A>, pred: spec_fn(A) -> bool)
    requires
        forall|i: int| 0 <= i < s.len() ==> !pred(#[trigger] s[i]),
    ensures
        s.filter(pred) == Seq::<A>::empty(),
    decreases s.len(),
{
    reveal(Seq::filter);
    if s.len() > 0 {
        assert(!pred(s[s.len() - 1]));
        lemma_filter_none(s.drop_last(), pred);
    }
}

/// Sort in place.
pub fn sort<T: Listed>(things: &mut Vec<T>)
    ensures
        views(final(things)@) == in_order(
            views(old(things)@),
            |a: T::V, b: T::V| T::later(a, b),
        ),
{
    let ghost later = |a: T::V, b: T::V| T::later(a, b);
    let ghost all = views(things@);
    let mut done: usize = 0;
    assert(all.take(0) =~= Seq::<T::V>::empty());
    assert(views(things@).take(0) =~= Seq::<T::V>::empty());
    while done < things.len()
        invariant
            done <= things.len(),
            things.len() == all.len(),
            later == (|a: T::V, b: T::V| T::later(a, b)),
            views(things@).take(done as int) == in_order(all.take(done as int), later),
            views(things@).skip(done as int) == all.skip(done as int),
        decreases things.len() - done,
    {
        let ghost front = views(things@).take(done as int);
        let ghost before = things@;
        let x = things.remove(done);
        let mut at: usize = done;
        assert(x@ == all[done as int]) by {
            assert(views(before).skip(done as int)[0] == all.skip(done as int)[0]);
        }
        while at > 0 && things[at - 1].is_later(&x)
            invariant
                at <= done < all.len(),
                things@ == before.remove(done as int),
                before.len() == all.len(),
                later == (|a: T::V, b: T::V| T::later(a, b)),
                front == views(before).take(done as int),
                slot(front, x@, later, done as int) == slot(front, x@, later, at as int),
            decreases at,
        {
            assert(front[at - 1] == things@[at - 1]@);
            at -= 1;
        }
        assert(at > 0 ==> front[at - 1] == things@[at - 1]@);
        things.insert(at, x);
        proof {
            assert(slot(front, x@, later, done as int) == at);
            assert(all.take(done + 1).drop_last() =~= all.take(done as int));
            assert(front.len() == done);
            assert(views(things@).take(done + 1) =~= front.insert(at as int, x@));
            assert(views(things@).skip(done + 1) =~= all.skip(done + 1)) by {
                assert forall|i: int| 0 <= i < all.len() - (done + 1) implies #[trigger] views(
                    things@,
                ).skip(done + 1)[i] == all.skip(done + 1)[i] by {
                    assert(views(before).skip(done as int)[i + 1] == all.skip(done as int)[i + 1]);
                }
            }
        }
        done += 1;
    }
    assert(views(things@).take(done as int) =~= views(things@));
    assert(all.take(done as int) =~= all);
}

} // verus!
