//! Keeping things in the order of an integer rank, without disturbing the
//! order of things of equal rank.

use vstd::prelude::*;

verus! {

/// Something that is ordered by an integer.
pub trait Ranked {
    /// The integer by which `self` is ordered.
    spec fn rank(&self) -> int;

    fn rank_of(&self) -> (r: i64)
        ensures
            r == self.rank(),
    ;
}

/// The ranks never decrease along the sequence.
pub open spec fn ordered<T: Ranked>(s: Seq<T>) -> bool {
    forall|i: int, j: int| 0 <= i < j < s.len() ==> (#[trigger] s[i]).rank() <= (#[trigger] s[j]).rank()
}

/// The test "has rank `k`".
pub open spec fn of_rank<T: Ranked>(k: int) -> spec_fn(T) -> bool {
    |x: T| x.rank() == k
}

/// `output` is `input` sorted by rank, stably: its ranks never decrease, and
/// for every rank it holds the same items of that rank as `input`, in the
/// same order.
pub open spec fn stably_sorted<T: Ranked>(input: Seq<T>, output: Seq<T>) -> bool {
    &&& ordered(output)
    &&& forall|k: int| #[trigger] output.filter(of_rank(k)) == input.filter(of_rank(k))
}

/// Where an item of rank `rank` belongs in `s`: behind every item whose rank
/// is not greater.
pub open spec fn place_for<T: Ranked>(s: Seq<T>, rank: int) -> int
    decreases s.len(),
{
    if s.len() == 0 {
        0
    } else if s.last().rank() <= rank {
        s.len() as int
    } else {
        place_for(s.drop_last(), rank)
    }
}

/// `s` sorted by rank, stably: each item in turn is put at its place among the
/// items before it.
pub open spec fn sorted_of<T: Ranked>(s: Seq<T>) -> Seq<T>
    decreases s.len(),
{
    if s.len() == 0 {
        Seq::empty()
    } else {
        let before = sorted_of(s.drop_last());
        before.insert(place_for(before, s.last().rank()), s.last())
    }
}

/// In an ordered sequence, `place_for` parts the items whose rank is not
/// greater from those whose rank is.
pub proof fn lemma_place_for<T: Ranked>(s: Seq<T>, rank: int)
    requires
        ordered(s),
    ensures
        0 <= place_for(s, rank) <= s.len(),
        forall|i: int| 0 <= i < place_for(s, rank) ==> (#[trigger] s[i]).rank() <= rank,
        forall|i: int| place_for(s, rank) <= i < s.len() ==> (#[trigger] s[i]).rank() > rank,
    decreases s.len(),
{
    if s.len() > 0 {
        if s.last().rank() <= rank {
            assert forall|i: int| 0 <= i < s.len() implies (#[trigger] s[i]).rank() <= rank by {
                if i < s.len() - 1 {
                    assert(s[i].rank() <= s[s.len() - 1].rank());
                }
            }
        } else {
            let shorter = s.drop_last();
            assert forall|i: int, j: int| 0 <= i < j < shorter.len() implies (
            #[trigger] shorter[i]).rank() <= (#[trigger] shorter[j]).rank() by {
                assert(shorter[i] == s[i] && shorter[j] == s[j]);
            }
            lemma_place_for(shorter, rank);
            assert forall|i: int| place_for(s, rank) <= i < s.len() implies (#[trigger] s[i]).rank()
                > rank by {
                if i < shorter.len() {
                    assert(shorter[i] == s[i]);
                }
            }
            assert forall|i: int| 0 <= i < place_for(s, rank) implies (#[trigger] s[i]).rank()
                <= rank by {
                assert(shorter[i] == s[i]);
            }
        }
    }
}

/// A sequence none of whose items passes a test has nothing left after the
/// test.
pub proof fn lemma_filter_none<T>(s: Seq<T>, pred: spec_fn(T) -> bool)
    requires
        forall|i: int| 0 <= i < s.len() ==> !pred(#[trigger] s[i]),
    ensures
        s.filter(pred) == Seq::<T>::empty(),
    decreases s.len(),
{
    reveal(Seq::filter);
    if s.len() > 0 {
        let shorter = s.drop_last();
        assert forall|i: int| 0 <= i < shorter.len() implies !pred(#[trigger] shorter[i]) by {
            assert(shorter[i] == s[i]);
        }
        lemma_filter_none(shorter, pred);
    }
}

/// Putting an item at its place in an ordered sequence sorts, stably, the
/// sequence with the item added at its end.
pub proof fn lemma_insert_sorts<T: Ranked>(s: Seq<T>, item: T)
    requires
        ordered(s),
    ensures
        stably_sorted(s.push(item), s.insert(place_for(s, item.rank()), item)),
{
    let at = place_for(s, item.rank());
    lemma_place_for(s, item.rank());
    let out = s.insert(at, item);
    assert forall|i: int, j: int| 0 <= i < j < out.len() implies (#[trigger] out[i]).rank() <= (
    #[trigger] out[j]).rank() by {
        if i < at {
            assert(out[i] == s[i]);
        } else if i > at {
            assert(out[i] == s[i - 1]);
        }
        if j < at {
            assert(out[j] == s[j]);
        } else if j > at {
            assert(out[j] == s[j - 1]);
        }
    }
    assert forall|k: int| #[trigger] out.filter(of_rank(k)) == s.push(item).filter(of_rank(k)) by {
        let pred = of_rank::<T>(k);
        let head = s.take(at);
        let tail = s.skip(at);
        let one = seq![item];
        assert(out =~= head + one + tail);
        assert(s.push(item) =~= head + tail + one);
        Seq::filter_distributes_over_add(head + one, tail, pred);
        Seq::filter_distributes_over_add(head, one, pred);
        Seq::filter_distributes_over_add(head + tail, one, pred);
        Seq::filter_distributes_over_add(head, tail, pred);
        if pred(item) {
            assert forall|i: int| 0 <= i < tail.len() implies !pred(#[trigger] tail[i]) by {
                assert(tail[i] == s[at + i]);
            }
            lemma_filter_none(tail, pred);
            assert(head.filter(pred) + one.filter(pred) + tail.filter(pred) =~= head.filter(pred)
                + tail.filter(pred) + one.filter(pred));
        } else {
            lemma_filter_none(one, pred);
            assert(head.filter(pred) + one.filter(pred) + tail.filter(pred) =~= head.filter(pred)
                + tail.filter(pred) + one.filter(pred));
        }
    }
}

/// Puts `item` into the ordered `sorted`, behind every item whose rank is
/// not greater than its own.
pub fn insert_ranked<T: Ranked>(sorted: &mut Vec<T>, item: T)
    requires
        ordered(old(sorted)@),
    ensures
        final(sorted)@ == old(sorted)@.insert(place_for(old(sorted)@, item.rank()), item),
        ordered(final(sorted)@),
        stably_sorted(old(sorted)@.push(item), final(sorted)@),
{
    let rank = item.rank_of();
    let mut at: usize = sorted.len();
    assert(sorted@.take(at as int) =~= sorted@);
    while at > 0 && sorted[at - 1].rank_of() > rank
        invariant
            at <= sorted.len(),
            rank == item.rank(),
            place_for(sorted@, rank as int) == place_for(sorted@.take(at as int), rank as int),
        decreases at,
    {
        assert(sorted@.take(at as int).drop_last() =~= sorted@.take(at - 1));
        at -= 1;
    }
    proof {
        if at > 0 {
            assert(sorted@.take(at as int).last() == sorted@[at - 1]);
        }
        lemma_insert_sorts(sorted@, item);
    }
    sorted.insert(at, item);
}

/// Sorts by rank, stably.
pub fn sort_ranked<T: Ranked>(items: Vec<T>) -> (sorted: Vec<T>)
    ensures
        sorted@ == sorted_of(items@),
        stably_sorted(items@, sorted@),
{
    let mut rest = items;
    let mut sorted: Vec<T> = Vec::new();
    let ghost mut done: Seq<T> = Seq::empty();
    proof {
        assert(done + rest@ =~= items@);
    }
    while rest.len() > 0
        invariant
            done + rest@ == items@,
            sorted@ == sorted_of(done),
            stably_sorted(done, sorted@),
        decreases rest.len(),
    {
        let item = rest.remove(0);
        let ghost before = sorted@;
        insert_ranked(&mut sorted, item);
        proof {
            assert forall|k: int| #[trigger] sorted@.filter(of_rank(k)) == done.push(item).filter(
                of_rank(k),
            ) by {
                let pred = of_rank::<T>(k);
                assert(sorted@.filter(pred) == before.push(item).filter(pred));
                before.lemma_filter_push(item, pred);
                done.lemma_filter_push(item, pred);
                assert(before.filter(pred) == done.filter(pred));
            }
            assert(done.push(item).drop_last() =~= done);
            done = done.push(item);
            assert(done + rest@ =~= items@);
        }
    }
    proof {
        assert(done =~= items@);
    }
    sorted
}

} // verus!
