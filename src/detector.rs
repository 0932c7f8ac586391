use vstd::prelude::*;

use crate::candle::Bucket;

verus! {

/// The bucket that `incoming` finishes when `current` is the open bucket:
/// the open bucket itself when `incoming` starts strictly later, else none.
pub open spec fn completion_of<P>(current: Option<Bucket<P>>, incoming: Bucket<P>) -> Option<
    Bucket<P>,
> {
    match current {
        Some(c) => if incoming.start > c.start {
            Some(c)
        } else {
            None
        },
        None => None,
    }
}

/// Decides what an incoming bucket does to the open bucket of its instrument.
///
/// The incoming bucket always becomes the open one. When it starts strictly
/// later than the open bucket, the open bucket is returned as finished; a
/// first sighting, a refinement of the same window and an older window finish
/// nothing.
pub fn detect<P>(current: Option<Bucket<P>>, incoming: Bucket<P>) -> (r: (
    Bucket<P>,
    Option<Bucket<P>>,
))
    ensures
        r.0 == incoming,
        r.1 == completion_of(current, incoming),
{
    match current {
        Some(c) => {
            if incoming.start > c.start {
                (incoming, Some(c))
            } else {
                (incoming, None)
            }
        },
        None => (incoming, None),
    }
}

} // verus!
