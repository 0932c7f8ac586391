use vstd::prelude::*;

use crate::candle::{Bucket, UpdateRecord};
use crate::detector::{completion_of, detect};
use crate::normalizer::{normalize, records_of, selected_of};

verus! {

/// The open bucket of instrument `k` in `m`, if `k` has been seen.
pub open spec fn lookup<P>(m: Map<Seq<char>, Bucket<P>>, k: Seq<char>) -> Option<Bucket<P>> {
    if m.contains_key(k) {
        Some(m[k])
    } else {
        None
    }
}

/// The open buckets after one message: the selected record, if any, becomes
/// the open bucket of its instrument; every other instrument keeps its own.
pub open spec fn state_after<P>(m: Map<Seq<char>, Bucket<P>>, groups: Seq<Vec<UpdateRecord<P>>>) -> Map<
    Seq<char>,
    Bucket<P>,
> {
    match selected_of(records_of(groups)) {
        Some(r) => m.insert(r.instrument@, r.bucket),
        None => m,
    }
}

/// The bucket that one message finishes, given the open buckets before it.
pub open spec fn finished_by<P>(m: Map<Seq<char>, Bucket<P>>, groups: Seq<Vec<UpdateRecord<P>>>) -> Option<
    Bucket<P>,
> {
    match selected_of(records_of(groups)) {
        Some(r) => completion_of(lookup(m, r.instrument@), r.bucket),
        None => None,
    }
}

/// A finished bucket, with the instrument it belongs to and the number of
/// records processed when it was finished.
pub struct Completion<P> {
    /// Records processed so far in the session, this message's included.
    pub processed: usize,
    /// The instrument whose bucket finished.
    pub instrument: String,
    /// The finished bucket, as it was last stored.
    pub bucket: Bucket<P>,
}

/// The state of one watching session: how many update records were seen, and
/// the open bucket of each instrument seen so far.
pub struct TaskTracker<P> {
    /// Total processed candle records.
    processed: usize,
    /// The most recent bucket of each instrument, one entry per instrument.
    candles: Vec<UpdateRecord<P>>,
    /// The open buckets, by instrument.
    state: Ghost<Map<Seq<char>, Bucket<P>>>,
}

impl<P> TaskTracker<P> {
    /// The number of update records seen so far.
    pub closed spec fn count(&self) -> nat {
        self.processed as nat
    }

    /// The open bucket of each instrument seen so far.
    pub closed spec fn current(&self) -> Map<Seq<char>, Bucket<P>> {
        self.state@
    }

    /// The entries hold exactly the open buckets, one entry per instrument.
    pub closed spec fn wf(&self) -> bool {
        &&& forall|i: int|
            0 <= i < self.candles@.len() ==> {
                let e = #[trigger] self.candles@[i];
                &&& self.state@.contains_key(e.instrument@)
                &&& self.state@[e.instrument@] == e.bucket
            }
        &&& forall|k: Seq<char>|
            #![trigger self.state@.contains_key(k)]
            self.state@.contains_key(k) ==> exists|i: int|
                0 <= i < self.candles@.len() && (#[trigger] self.candles@[i]).instrument@ == k
        &&& forall|i: int, j: int|
            0 <= i < self.candles@.len() && 0 <= j < self.candles@.len() && i != j
                ==> (#[trigger] self.candles@[i]).instrument@ != (#[trigger] self.candles@[j]).instrument@
    }

    /// A session that has seen nothing.
    pub fn new() -> (r: TaskTracker<P>)
        ensures
            r.wf(),
            r.count() == 0,
            r.current() == Map::<Seq<char>, Bucket<P>>::empty(),
    {
        TaskTracker { processed: 0, candles: Vec::new(), state: Ghost(Map::empty()) }
    }

    /// The number of update records seen so far.
    pub fn processed(&self) -> (r: usize)
        ensures
            r == self.count(),
    {
        self.processed
    }

    /// The start of the open bucket of `instrument`, if it has been seen.
    pub fn current_start(&self, instrument: &String) -> (r: Option<u64>)
        requires
            self.wf(),
        ensures
            r == (match lookup(self.current(), instrument@) {
                Some(b) => Some(b.start),
                None => None::<u64>,
            }),
    {
        match self.position(instrument) {
            Some(i) => Some(self.candles[i].bucket.start),
            None => None,
        }
    }

    /// Where the entry of `instrument` stands, if it has one.
    fn position(&self, instrument: &String) -> (r: Option<usize>)
        requires
            self.wf(),
        ensures
            match r {
                Some(i) => i < self.candles@.len() && self.candles@[i as int].instrument@
                    == instrument@,
                None => !self.state@.contains_key(instrument@),
            },
    {
        let mut i: usize = 0;
        while i < self.candles.len()
            invariant
                self.wf(),
                i <= self.candles@.len(),
                forall|j: int| 0 <= j < i ==> (#[trigger] self.candles@[j]).instrument@ != instrument@,
            decreases self.candles@.len() - i,
        {
            if self.candles[i].instrument == *instrument {
                return Some(i);
            }
            i = i + 1;
        }
        None
    }

    /// Stores `new_candle` as the open bucket of `product_id`, and returns the
    /// bucket it finishes: the previous open bucket, when `new_candle` starts
    /// strictly later than it.
    pub fn check_candle(&mut self, product_id: String, new_candle: Bucket<P>) -> (r: Option<
        Bucket<P>,
    >)
        requires
            old(self).wf(),
        ensures
            final(self).wf(),
            final(self).count() == old(self).count(),
            final(self).current() == old(self).current().insert(product_id@, new_candle),
            r == completion_of(lookup(old(self).current(), product_id@), new_candle),
    {
        let ghost id = product_id@;
        let ghost before = self.candles@;
        let pos = self.position(&product_id);
        let current = match pos {
            Some(i) => {
                let old_entry = self.candles.remove(i);
                Some(old_entry.bucket)
            },
            None => None,
        };
        let ghost mid = self.candles@;
        let (b, done) = detect(current, new_candle);
        self.candles.push(UpdateRecord { instrument: product_id, bucket: b });
        let ghost old_state = self.state@;
        self.state = Ghost(self.state@.insert(id, b));
        proof {
            let after = self.candles@;
            let n = after.len() - 1;
            assert(after[n].instrument@ == id);
            match pos {
                Some(p) => {
                    assert(forall|j: int| 0 <= j < p ==> mid[j] == before[j]);
                    assert(forall|j: int| p <= j < mid.len() ==> mid[j] == before[j + 1]);
                },
                None => {
                    assert(mid == before);
                },
            }
            assert(forall|j: int| 0 <= j < mid.len() ==> #[trigger] after[j] == mid[j]);
            assert(forall|j: int| 0 <= j < mid.len() ==> (#[trigger] mid[j]).instrument@ != id);
            assert forall|k: Seq<char>| #[trigger] self.state@.contains_key(k) implies exists|i: int|
                0 <= i < after.len() && (#[trigger] after[i]).instrument@ == k by {
                if k == id {
                    assert(after[n].instrument@ == k);
                } else {
                    assert(old_state.contains_key(k));
                    let i = choose|i: int| 0 <= i < before.len() && (#[trigger] before[i]).instrument@ == k;
                    match pos {
                        Some(p) => {
                            if i < p {
                                assert(after[i] == before[i]);
                            } else {
                                assert(i != p);
                                assert(after[i - 1] == before[i]);
                            }
                        },
                        None => {
                            assert(after[i] == before[i]);
                        },
                    }
                }
            }
        }
        done
    }

    /// Handles the candle groups of one message.
    ///
    /// Every record of the message is counted; only the first record with the
    /// latest start is applied to its instrument, and the bucket that it
    /// finishes, if any, is returned with the count and the instrument.
    pub fn message_callback(&mut self, groups: Vec<Vec<UpdateRecord<P>>>) -> (r: Option<
        Completion<P>,
    >)
        requires
            old(self).wf(),
            old(self).count() + records_of(groups@).len() <= usize::MAX,
        ensures
            final(self).wf(),
            final(self).count() == old(self).count() + records_of(groups@).len(),
            final(self).current() == state_after(old(self).current(), groups@),
            match r {
                Some(c) => {
                    &&& finished_by(old(self).current(), groups@) == Some(c.bucket)
                    &&& c.processed == final(self).count()
                    &&& selected_of(records_of(groups@)).unwrap().instrument == c.instrument
                },
                None => finished_by(old(self).current(), groups@) is None,
            },
    {
        let (n, selected) = normalize(groups);
        let ghost prev = *self;
        self.processed = self.processed + n;
        proof {
            assert(self.candles == prev.candles && self.state == prev.state);
            assert(self.wf());
        }
        let update = match selected {
            Some(u) => u,
            None => return None,
        };
        let product_id = update.instrument.clone();
        let candle = match self.check_candle(update.instrument, update.bucket) {
            Some(c) => c,
            None => return None,
        };
        Some(Completion { processed: self.processed, instrument: product_id, bucket: candle })
    }
}

} // verus!
