use vstd::prelude::*;

use crate::candle::{Bucket, UpdateRecord};
use crate::detector::completion_of;
use crate::normalizer::{latest_index, records_of, selected_of};
use crate::tracker::{lookup, state_after};

verus! {

/// The open buckets after the updates `bs` of instrument `id`, one after the
/// other, starting from `m`.
pub open spec fn updates_after<P>(m: Map<Seq<char>, Bucket<P>>, id: Seq<char>, bs: Seq<Bucket<P>>) -> Map<
    Seq<char>,
    Bucket<P>,
>
    decreases bs.len(),
{
    if bs.len() == 0 {
        m
    } else {
        updates_after(m, id, bs.drop_last()).insert(id, bs.last())
    }
}

/// The number of update records that a sequence of messages carries.
pub open spec fn total_records<P>(msgs: Seq<Seq<Vec<UpdateRecord<P>>>>) -> int
    decreases msgs.len(),
{
    if msgs.len() == 0 {
        0
    } else {
        total_records(msgs.drop_last()) + records_of(msgs.last()).len()
    }
}

/// The count and the open buckets after a sequence of messages, starting
/// from count `c` and open buckets `m`.
pub open spec fn session_after<P>(
    c: int,
    m: Map<Seq<char>, Bucket<P>>,
    msgs: Seq<Seq<Vec<UpdateRecord<P>>>>,
) -> (int, Map<Seq<char>, Bucket<P>>)
    decreases msgs.len(),
{
    if msgs.len() == 0 {
        (c, m)
    } else {
        let (c0, m0) = session_after(c, m, msgs.drop_last());
        (c0 + records_of(msgs.last()).len(), state_after(m0, msgs.last()))
    }
}

/// The first update of an instrument that has no open bucket finishes
/// nothing and becomes its open bucket.
pub proof fn lemma_first_sighting<P>(m: Map<Seq<char>, Bucket<P>>, id: Seq<char>, b: Bucket<P>)
    requires
        !m.contains_key(id),
    ensures
        completion_of(lookup(m, id), b) is None,
        lookup(m.insert(id, b), id) == Some(b),
{
}

/// Along updates of one instrument with strictly increasing starts, every
/// update after the first finishes exactly the bucket of the update before.
pub proof fn lemma_monotonic_rollover<P>(
    m: Map<Seq<char>, Bucket<P>>,
    id: Seq<char>,
    bs: Seq<Bucket<P>>,
    i: int,
)
    requires
        forall|j: int| 0 < j < bs.len() ==> bs[j - 1].start < #[trigger] bs[j].start,
        0 < i < bs.len(),
    ensures
        completion_of(lookup(updates_after(m, id, bs.take(i)), id), bs[i]) == Some(bs[i - 1]),
{
    let t = bs.take(i);
    assert(t.last() == bs[i - 1]);
    assert(updates_after(m, id, t) == updates_after(m, id, t.drop_last()).insert(id, t.last()));
}

/// An update that starts no later than the open bucket of its instrument
/// finishes nothing and replaces the open bucket.
pub proof fn lemma_non_increasing_start<P>(m: Map<Seq<char>, Bucket<P>>, id: Seq<char>, b: Bucket<P>)
    requires
        m.contains_key(id),
        b.start <= m[id].start,
    ensures
        completion_of(lookup(m, id), b) is None,
        lookup(m.insert(id, b), id) == Some(b),
{
}

/// After a sequence of messages the count has grown by the number of records
/// they carry, whether each record was applied or not.
pub proof fn lemma_count<P>(c: int, m: Map<Seq<char>, Bucket<P>>, msgs: Seq<Seq<Vec<UpdateRecord<P>>>>)
    ensures
        session_after(c, m, msgs).0 == c + total_records(msgs),
    decreases msgs.len(),
{
    if msgs.len() > 0 {
        lemma_count(c, m, msgs.drop_last());
    }
}

/// A message changes the open bucket of no instrument but the one of the
/// record it applies.
pub proof fn lemma_independence<P>(
    m: Map<Seq<char>, Bucket<P>>,
    groups: Seq<Vec<UpdateRecord<P>>>,
    k: Seq<char>,
)
    requires
        match selected_of(records_of(groups)) {
            Some(r) => r.instrument@ != k,
            None => true,
        },
    ensures
        lookup(state_after(m, groups), k) == lookup(m, k),
{
}

/// Of a message with two records, the second starting later, only the second
/// is applied: the first record's instrument keeps its open bucket even when
/// it differs from the second's.
pub proof fn lemma_single_record<P>(
    m: Map<Seq<char>, Bucket<P>>,
    groups: Seq<Vec<UpdateRecord<P>>>,
    a: UpdateRecord<P>,
    b: UpdateRecord<P>,
)
    requires
        records_of(groups) == seq![a, b],
        a.bucket.start < b.bucket.start,
    ensures
        state_after(m, groups) == m.insert(b.instrument@, b.bucket),
        a.instrument@ != b.instrument@ ==> lookup(state_after(m, groups), a.instrument@)
            == lookup(m, a.instrument@),
{
    let s = records_of(groups);
    assert(s.drop_last() =~= seq![a]);
    assert(latest_index(s.drop_last()) == 0);
    assert(latest_index(s) == 1);
}

} // verus!
