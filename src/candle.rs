use vstd::prelude::*;

verus! {

/// One time bucket of an instrument: the start of its window and the
/// aggregate it carries, which this library never reads.
pub struct Bucket<P> {
    /// Start of the bucket's window (a timestamp aligned to the bucket size).
    pub start: u64,
    /// The aggregate fields of the bucket.
    pub payload: P,
}

/// A bucket snapshot for one named instrument, as one update carries it.
pub struct UpdateRecord<P> {
    /// Identifier of the instrument (for example `BTC-USD`).
    pub instrument: String,
    /// The snapshot of the instrument's bucket.
    pub bucket: Bucket<P>,
}

impl<P> Bucket<P> {
    /// Makes a bucket from its start and its aggregate.
    pub fn new(start: u64, payload: P) -> (r: Bucket<P>)
        ensures
            r.start == start,
            r.payload == payload,
    {
        Bucket { start, payload }
    }
}

impl<P> UpdateRecord<P> {
    /// Makes an update of `instrument` to `bucket`.
    pub fn new(instrument: String, bucket: Bucket<P>) -> (r: UpdateRecord<P>)
        ensures
            r.instrument == instrument,
            r.bucket == bucket,
    {
        UpdateRecord { instrument, bucket }
    }
}

} // verus!
