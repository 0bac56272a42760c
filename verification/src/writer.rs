use vstd::prelude::*;
use crate::track::{TrackRef, ids_of, id_set};

verus! {

/// Largest number of items the remote API accepts in one playlist call.
pub const BATCH_LIMIT: usize = 100;

/// One remote call of the playlist rewrite: a full replacement of the
/// playlist's items, or an append of a batch at its end.
pub enum WriteCall {
    Replace(Vec<String>),
    Append(Vec<String>),
}

/// How many batches a collection of `n` identifiers needs, at 100 per call.
pub open spec fn num_batches(n: int) -> int {
    (n + 99) / 100
}

/// Where the batch with index `i` ends in a collection of `n` identifiers.
pub open spec fn batch_end(n: int, i: int) -> int {
    if (i + 1) * 100 <= n {
        (i + 1) * 100
    } else {
        n
    }
}

/// The call replaces the playlist's items with nothing.
pub open spec fn is_empty_replace(c: WriteCall) -> bool {
    c matches WriteCall::Replace(v) && v@.len() == 0
}

/// The call appends exactly the batch with index `i` of `ids`.
pub open spec fn is_batch_append(c: WriteCall, ids: Seq<Seq<char>>, i: int) -> bool {
    c matches WriteCall::Append(chunk) && chunk.deep_view() == ids.subrange(
        i * 100,
        batch_end(ids.len() as int, i),
    )
}

/// The whole rewrite: one empty replacement first, then one append per
/// batch of `ids`, the batches in order.
pub open spec fn plan_matches(plan: Seq<WriteCall>, ids: Seq<Seq<char>>) -> bool {
    &&& plan.len() == 1 + num_batches(ids.len() as int)
    &&& is_empty_replace(plan[0])
    &&& forall|i: int|
        0 <= i < num_batches(ids.len() as int) ==> is_batch_append(#[trigger] plan[i + 1], ids, i)
}

/// The identifiers a plan appends, over all its append calls in order.
pub open spec fn appended_ids(plan: Seq<WriteCall>) -> Seq<Seq<char>>
    decreases plan.len(),
{
    if plan.len() == 0 {
        Seq::empty()
    } else {
        appended_ids(plan.drop_last()) + (match plan.last() {
            WriteCall::Append(c) => c.deep_view(),
            WriteCall::Replace(_) => Seq::empty(),
        })
    }
}

/// Builds the sequence of remote calls that rewrites the target playlist to
/// hold exactly `ids`, in order: first a replacement with an empty item
/// list, then one append per batch of at most 100 identifiers. An empty
/// collection still gets the replacement call and no append.
pub fn build_write_plan(ids: &Vec<String>) -> (plan: Vec<WriteCall>)
    ensures
        plan_matches(plan@, ids.deep_view()),
        appended_ids(plan@) == ids.deep_view(),
        ids@.len() == 0 ==> plan@.len() == 1,
{
    let ghost idsv = ids.deep_view();
    proof {
        assert(idsv.len() == ids@.len());
    }
    let mut plan: Vec<WriteCall> = Vec::new();
    plan.push(WriteCall::Replace(Vec::new()));
    proof {
        assert(plan@.drop_last() =~= Seq::<WriteCall>::empty());
        assert(appended_ids(Seq::<WriteCall>::empty()) =~= Seq::<Seq<char>>::empty());
        assert(appended_ids(plan@) =~= idsv.take(0));
    }
    let mut pos: usize = 0;
    while pos < ids.len()
        invariant
            idsv == ids.deep_view(),
            idsv.len() == ids@.len(),
            plan@.len() >= 1,
            is_empty_replace(plan@[0]),
            pos <= ids.len(),
            pos as int == batch_end(idsv.len() as int, plan@.len() - 2),
            plan@.len() >= 2 ==> (plan@.len() - 2) * 100 < idsv.len(),
            forall|i: int|
                0 <= i < plan@.len() - 1 ==> is_batch_append(#[trigger] plan@[i + 1], idsv, i),
            appended_ids(plan@) == idsv.take(pos as int),
        decreases ids.len() - pos,
    {
        let end = if ids.len() - pos > BATCH_LIMIT {
            pos + BATCH_LIMIT
        } else {
            ids.len()
        };
        let mut chunk: Vec<String> = Vec::new();
        proof {
            assert(chunk.deep_view() =~= idsv.subrange(pos as int, pos as int));
        }
        let mut j: usize = pos;
        while j < end
            invariant
                pos <= j <= end <= ids.len(),
                idsv == ids.deep_view(),
                idsv.len() == ids@.len(),
                chunk.deep_view() == idsv.subrange(pos as int, j as int),
            decreases end - j,
        {
            let ghost prev = chunk.deep_view();
            proof {
                assert(prev.len() == chunk@.len());
                assert(prev.len() == j - pos);
            }
            chunk.push(ids[j].clone());
            proof {
                assert(chunk@.len() == j - pos + 1);
                assert forall|k: int| 0 <= k < chunk@.len() implies chunk.deep_view()[k]
                    == idsv.subrange(pos as int, j + 1)[k] by {
                    if k < j - pos {
                        assert(chunk.deep_view()[k] == prev[k]);
                        assert(prev[k] == idsv.subrange(pos as int, j as int)[k]);
                    } else {
                        assert(chunk@[k] == ids@[j as int]);
                        assert(chunk.deep_view()[k] == ids@[j as int]@);
                        assert(idsv[j as int] == ids@[j as int]@);
                    }
                }
                assert(chunk.deep_view() =~= idsv.subrange(pos as int, j + 1));
            }
            j += 1;
        }
        proof {
            let k = plan@.len() - 1;
            assert(end as int == batch_end(idsv.len() as int, k - 1 + 1)) by {
                assert(pos as int == batch_end(idsv.len() as int, k - 1));
            }
            let pushed = plan@.push(WriteCall::Append(chunk));
            assert(pushed.drop_last() =~= plan@);
            assert(appended_ids(pushed) == idsv.take(pos as int) + idsv.subrange(
                pos as int,
                end as int,
            ));
            assert(idsv.take(pos as int) + idsv.subrange(pos as int, end as int) =~= idsv.take(
                end as int,
            ));
            assert(is_batch_append(pushed[k + 1], idsv, k)) by {
                assert(pushed[k + 1] == WriteCall::Append(chunk));
            }
            assert(forall|i: int|
                0 <= i < pushed.len() - 1 ==> is_batch_append(#[trigger] pushed[i + 1], idsv, i))
                by {
                assert(forall|i: int|
                    0 <= i < plan@.len() - 1 ==> #[trigger] pushed[i + 1] == plan@[i + 1]);
            }
        }
        plan.push(WriteCall::Append(chunk));
        pos = end;
    }
    proof {
        let k = plan@.len() - 1;
        assert(pos == idsv.len());
        assert(k == num_batches(idsv.len() as int)) by {
            assert(pos as int == batch_end(idsv.len() as int, k - 1));
            if k >= 1 {
                assert((k - 1) * 100 < idsv.len());
                assert(idsv.len() <= k * 100);
                assert((idsv.len() + 99) / 100 == k) by (nonlinear_arith)
                    requires
                        (k - 1) * 100 < idsv.len() <= k * 100,
                ;
            } else {
                assert(idsv.len() == 0);
            }
        }
        assert(idsv.take(idsv.len() as int) =~= idsv);
    }
    plan
}

/// Law of the rewrite: a plan built for any rearrangement of the fetched
/// tracks writes exactly the identifiers that were fetched. The shuffle is
/// a permutation, not a filter: the set of identifiers the plan appends
/// equals the set of identifiers of the fetched collection.
pub proof fn lemma_plan_writes_fetched_ids(
    fetched: Seq<TrackRef>,
    shuffled: Seq<TrackRef>,
    plan: Seq<WriteCall>,
)
    requires
        shuffled.to_multiset() == fetched.to_multiset(),
        appended_ids(plan) == ids_of(shuffled),
    ensures
        appended_ids(plan).to_set() == id_set(fetched),
{
    lemma_permutation_same_id_set(shuffled, fetched);
}

/// Two track sequences with the same multiset of tracks have the same set
/// of identifiers.
pub proof fn lemma_permutation_same_id_set(a: Seq<TrackRef>, b: Seq<TrackRef>)
    requires
        a.to_multiset() == b.to_multiset(),
    ensures
        id_set(a) == id_set(b),
{
    lemma_id_set_subset(a, b);
    lemma_id_set_subset(b, a);
    assert(id_set(a) =~= id_set(b));
}

proof fn lemma_id_set_subset(a: Seq<TrackRef>, b: Seq<TrackRef>)
    requires
        a.to_multiset() == b.to_multiset(),
    ensures
        forall|x: Seq<char>| id_set(a).contains(x) ==> id_set(b).contains(x),
{
    broadcast use vstd::seq_lib::group_to_multiset_ensures;

    assert forall|x: Seq<char>| id_set(a).contains(x) implies id_set(b).contains(x) by {
        let i = choose|i: int| 0 <= i < ids_of(a).len() && ids_of(a)[i] == x;
        let t = a[i];
        assert(a.contains(t));
        assert(a.to_multiset().count(t) > 0);
        assert(b.contains(t));
        let j = choose|j: int| 0 <= j < b.len() && b[j] == t;
        assert(ids_of(b)[j] == x);
        assert(ids_of(b).contains(x));
    }
}

} // verus!
