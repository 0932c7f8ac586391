use vstd::prelude::*;

use crate::candle::UpdateRecord;

verus! {

/// The records of a message, group after group, in the order they came.
pub open spec fn records_of<P>(groups: Seq<Vec<UpdateRecord<P>>>) -> Seq<UpdateRecord<P>> {
    groups.map_values(|g: Vec<UpdateRecord<P>>| g@).flatten()
}

/// Index of the first record with the latest bucket start in a non-empty
/// sequence: the record that a stable sort by descending start puts first.
pub open spec fn latest_index<P>(s: Seq<UpdateRecord<P>>) -> int
    decreases s.len(),
{
    if s.len() <= 1 {
        0
    } else {
        let k = latest_index(s.drop_last());
        if s.last().bucket.start > s[k].bucket.start {
            s.len() - 1
        } else {
            k
        }
    }
}

/// The one record of a message that is applied: none for a message without
/// records, else the first record with the latest bucket start.
pub open spec fn selected_of<P>(s: Seq<UpdateRecord<P>>) -> Option<UpdateRecord<P>> {
    if s.len() == 0 {
        None
    } else {
        Some(s[latest_index(s)])
    }
}

/// The selected record starts no earlier than any record of the message, and
/// strictly later than every record that came before it.
pub proof fn lemma_latest_index<P>(s: Seq<UpdateRecord<P>>)
    requires
        s.len() > 0,
    ensures
        0 <= latest_index(s) < s.len(),
        forall|j: int| 0 <= j < s.len() ==> (#[trigger] s[j]).bucket.start <= s[latest_index(s)].bucket.start,
        forall|j: int|
            0 <= j < latest_index(s) ==> (#[trigger] s[j]).bucket.start < s[latest_index(s)].bucket.start,
    decreases s.len(),
{
    if s.len() > 1 {
        let t = s.drop_last();
        lemma_latest_index(t);
        assert(forall|j: int| 0 <= j < t.len() ==> t[j] == s[j]);
    }
}

/// Reduces the candle groups of one message to the record that is applied.
///
/// Returns the number of records that the message carries, over all groups,
/// and the first record among them with the latest bucket start (none when
/// there is no record). All other records are dropped, also those of other
/// instruments.
pub fn normalize<P>(groups: Vec<Vec<UpdateRecord<P>>>) -> (r: (usize, Option<UpdateRecord<P>>))
    requires
        records_of(groups@).len() <= usize::MAX,
    ensures
        r.0 == records_of(groups@).len(),
        r.1 == selected_of(records_of(groups@)),
{
    let ghost all = records_of(groups@);
    let mut rest = groups;
    let mut flat: Vec<UpdateRecord<P>> = Vec::new();
    while rest.len() > 0
        invariant
            flat@ + records_of(rest@) == all,
        decreases rest.len(),
    {
        let ghost before = rest@;
        let mut g = rest.remove(0);
        proof {
            let v = before.map_values(|h: Vec<UpdateRecord<P>>| h@);
            assert(rest@.map_values(|h: Vec<UpdateRecord<P>>| h@) =~= v.drop_first());
            assert(records_of(before) == v.first() + records_of(rest@));
        }
        flat.append(&mut g);
        proof {
            assert(flat@ + records_of(rest@) =~= all);
        }
    }
    proof {
        assert(records_of(rest@) =~= Seq::<UpdateRecord<P>>::empty());
        assert(flat@ =~= all);
    }
    let n = flat.len();
    if n == 0 {
        return (0, None);
    }
    let mut best: usize = 0;
    let mut i: usize = 1;
    while i < n
        invariant
            flat@ == all,
            n == flat.len(),
            1 <= i <= n,
            best < i,
            best as int == latest_index(all.take(i as int)),
        decreases n - i,
    {
        proof {
            let t = all.take(i + 1);
            assert(t.drop_last() =~= all.take(i as int));
            assert(t.last() == all[i as int]);
            assert(t[best as int] == all[best as int]);
        }
        if flat[i].bucket.start > flat[best].bucket.start {
            best = i;
        }
        i = i + 1;
    }
    proof {
        assert(all.take(n as int) =~= all);
    }
    let chosen = flat.swap_remove(best);
    (n, Some(chosen))
}

} // verus!
