//! Ranking: a stable ascending sort of rider records by elapsed time.
//!
//! The sort is specified as an insertion sort whose insertion step places a
//! record after every record with a time no greater than its own, so records
//! with equal times keep their arrival order. The lemmas here state the
//! three facts queries rely on: the result is sorted, it is a permutation of
//! the input, and records sharing an elapsed time come out in the order they
//! went in.

use vstd::prelude::*;
use vstd::multiset::Multiset;
use vstd::seq_lib::lemma_multiset_commutative;

use crate::rider::RiderView;

verus! {

/// `s` is in ascending order of elapsed time.
pub open spec fn sorted_by_time(s: Seq<RiderView>) -> bool {
    forall|i: int, j: int| 0 <= i < j < s.len() ==> s[i].elapsedtime <= s[j].elapsedtime
}

/// Inserts `v` after every record whose time is no greater than its own, so
/// a later arrival never overtakes an earlier record with an equal time.
pub open spec fn insert_by_time(v: RiderView, s: Seq<RiderView>) -> Seq<RiderView>
    decreases s.len(),
{
    if s.len() == 0 {
        seq![v]
    } else if s[0].elapsedtime <= v.elapsedtime {
        seq![s[0]] + insert_by_time(v, s.skip(1))
    } else {
        seq![v] + s
    }
}

/// Stable insertion sort by elapsed time.
pub open spec fn sort_by_time(s: Seq<RiderView>) -> Seq<RiderView>
    decreases s.len(),
{
    if s.len() == 0 {
        Seq::empty()
    } else {
        insert_by_time(s.last(), sort_by_time(s.drop_last()))
    }
}

/// Where an insertion lands: the number of leading records with time no
/// greater than the new one.
pub open spec fn insert_pos(v: RiderView, s: Seq<RiderView>) -> int
    decreases s.len(),
{
    if s.len() == 0 {
        0
    } else if s[0].elapsedtime <= v.elapsedtime {
        1 + insert_pos(v, s.skip(1))
    } else {
        0
    }
}

/// The records with elapsed time `t`, as a first-class predicate.
pub open spec fn time_pred(t: u128) -> spec_fn(RiderView) -> bool {
    |v: RiderView| v.elapsedtime == t
}

/// Insertion lands at `insert_pos`: everything before it has a time no
/// greater than the new record's, and the record it displaces, if any, has
/// a strictly greater time.
pub proof fn lemma_insert_pos(v: RiderView, s: Seq<RiderView>)
    ensures
        0 <= insert_pos(v, s) <= s.len(),
        insert_by_time(v, s) == s.take(insert_pos(v, s)) + seq![v] + s.skip(insert_pos(v, s)),
        forall|j: int| 0 <= j < insert_pos(v, s) ==> s[j].elapsedtime <= v.elapsedtime,
        insert_pos(v, s) < s.len() ==> s[insert_pos(v, s)].elapsedtime > v.elapsedtime,
        insert_by_time(v, s).len() == s.len() + 1,
    decreases s.len(),
{
    let p = insert_pos(v, s);
    if s.len() == 0 {
        assert(insert_by_time(v, s) =~= s.take(p) + seq![v] + s.skip(p));
    } else if s[0].elapsedtime <= v.elapsedtime {
        let rest = s.skip(1);
        lemma_insert_pos(v, rest);
        assert(s.take(p) =~= seq![s[0]] + rest.take(p - 1));
        assert(s.skip(p) =~= rest.skip(p - 1));
        assert(insert_by_time(v, s) =~= s.take(p) + seq![v] + s.skip(p));
        assert forall|j: int| 0 <= j < p implies s[j].elapsedtime <= v.elapsedtime by {
            if j > 0 {
                assert(rest[j - 1].elapsedtime <= v.elapsedtime);
            }
        }
    } else {
        assert(s.take(0) =~= Seq::<RiderView>::empty());
        assert(s.skip(0) =~= s);
        assert(insert_by_time(v, s) =~= s.take(p) + seq![v] + s.skip(p));
    }
}

/// Inserting into a sorted sequence keeps it sorted.
pub proof fn lemma_insert_sorted(v: RiderView, s: Seq<RiderView>)
    requires
        sorted_by_time(s),
    ensures
        sorted_by_time(insert_by_time(v, s)),
{
    lemma_insert_pos(v, s);
    let p = insert_pos(v, s);
    let out = insert_by_time(v, s);
    assert forall|i: int, j: int| 0 <= i < j < out.len() implies out[i].elapsedtime
        <= out[j].elapsedtime by {
        assert(forall|k: int| 0 <= k < p ==> out[k] == s[k]);
        assert(out[p] == v);
        assert(forall|k: int| p < k < out.len() ==> out[k] == s[k - 1]);
    }
}

/// Insertion adds exactly the new record to the sequence's contents.
pub proof fn lemma_insert_multiset(v: RiderView, s: Seq<RiderView>)
    ensures
        insert_by_time(v, s).to_multiset() == s.to_multiset().insert(v),
{
    broadcast use Seq::to_multiset_ensures;

    lemma_insert_pos(v, s);
    let p = insert_pos(v, s);
    let pre = s.take(p);
    let post = s.skip(p);
    lemma_multiset_commutative(pre + seq![v], post);
    lemma_multiset_commutative(pre, seq![v]);
    lemma_multiset_commutative(pre, post);
    assert(pre + post =~= s);
    assert(seq![v] =~= Seq::<RiderView>::empty().push(v));
    assert(Seq::<RiderView>::empty().to_multiset() =~= Multiset::<RiderView>::empty()) by {
        assert(Seq::<RiderView>::empty().to_multiset().len() == 0);
    }
    assert(seq![v].to_multiset() =~= Multiset::<RiderView>::empty().insert(v));
    assert(insert_by_time(v, s).to_multiset() =~= s.to_multiset().insert(v));
}

/// The sort returns a permutation of its input.
pub proof fn lemma_sort_multiset(s: Seq<RiderView>)
    ensures
        sort_by_time(s).to_multiset() == s.to_multiset(),
        sort_by_time(s).len() == s.len(),
    decreases s.len(),
{
    broadcast use Seq::to_multiset_ensures;

    if s.len() == 0 {
        assert(s =~= Seq::<RiderView>::empty());
        assert(sort_by_time(s) =~= Seq::<RiderView>::empty());
    } else {
        let rest = s.drop_last();
        lemma_sort_multiset(rest);
        lemma_insert_multiset(s.last(), sort_by_time(rest));
        lemma_insert_pos(s.last(), sort_by_time(rest));
        rest.to_multiset_ensures();
        assert(rest.push(s.last()) =~= s);
        assert(rest.push(s.last()).to_multiset() =~= rest.to_multiset().insert(s.last()));
        assert(sort_by_time(s).to_multiset() =~= s.to_multiset());
    }
}

/// The sort returns a sorted sequence.
pub proof fn lemma_sort_sorted(s: Seq<RiderView>)
    ensures
        sorted_by_time(sort_by_time(s)),
    decreases s.len(),
{
    if s.len() > 0 {
        lemma_sort_sorted(s.drop_last());
        lemma_insert_sorted(s.last(), sort_by_time(s.drop_last()));
    }
}

/// Inserting into a sorted sequence appends to its equal-time class when the
/// new record shares that time, and leaves every other class unchanged.
proof fn lemma_insert_filter_time(v: RiderView, s: Seq<RiderView>, t: u128)
    requires
        sorted_by_time(s),
    ensures
        insert_by_time(v, s).filter(time_pred(t)) == if v.elapsedtime == t {
            s.filter(time_pred(t)).push(v)
        } else {
            s.filter(time_pred(t))
        },
{
    broadcast use vstd::seq_lib::group_filter_ensures;

    lemma_insert_pos(v, s);
    let p = insert_pos(v, s);
    let pre = s.take(p);
    let post = s.skip(p);
    let pred = time_pred(t);
    Seq::filter_distributes_over_add(pre + seq![v], post, pred);
    Seq::filter_distributes_over_add(pre, seq![v], pred);
    Seq::filter_distributes_over_add(pre, post, pred);
    assert(pre + post =~= s);
    assert(seq![v] =~= Seq::<RiderView>::empty().push(v));
    Seq::<RiderView>::empty().lemma_filter_push(v, pred);
    assert(Seq::<RiderView>::empty().filter(pred) =~= Seq::<RiderView>::empty()) by {
        reveal(Seq::filter);
    }
    if v.elapsedtime == t {
        assert forall|k: int| 0 <= k < post.len() implies !pred(#[trigger] post[k]) by {
            assert(post[k] == s[p + k]);
            assert(s[p + k].elapsedtime > v.elapsedtime);
        }
        post.lemma_all_neg_filter_empty(pred);
        assert(seq![v].filter(pred) =~= seq![v]);
        assert(insert_by_time(v, s).filter(pred) =~= s.filter(pred).push(v));
    } else {
        assert(seq![v].filter(pred) =~= Seq::<RiderView>::empty());
        assert(insert_by_time(v, s).filter(pred) =~= s.filter(pred));
    }
}

/// Stability: the records sharing any one elapsed time come out of the sort
/// exactly in the order they went in.
pub proof fn lemma_sort_stable(s: Seq<RiderView>, t: u128)
    ensures
        sort_by_time(s).filter(time_pred(t)) == s.filter(time_pred(t)),
    decreases s.len(),
{
    broadcast use vstd::seq_lib::group_filter_ensures;

    let pred = time_pred(t);
    if s.len() == 0 {
        assert(s.filter(pred) =~= Seq::<RiderView>::empty()) by {
            reveal(Seq::filter);
        }
        assert(sort_by_time(s).filter(pred) =~= Seq::<RiderView>::empty()) by {
            reveal(Seq::filter);
        }
    } else {
        let rest = s.drop_last();
        let v = s.last();
        lemma_sort_stable(rest, t);
        lemma_sort_sorted(rest);
        lemma_insert_filter_time(v, sort_by_time(rest), t);
        rest.lemma_filter_push(v, pred);
        assert(rest.push(v) =~= s);
    }
}

} // verus!
