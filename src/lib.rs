//! Detection of completed candles in a stream of partial candle updates.
//!
//! A candle is a time bucket of trading activity for one instrument. Updates
//! for the bucket that is still open arrive again and again; once an update
//! with a later start arrives, the previous bucket is finished and is handed
//! out exactly once.
mod candle;
mod detector;
mod laws;
mod normalizer;
mod products;
mod tracker;

pub use candle::{Bucket, UpdateRecord};
pub use detector::{completion_of, detect};
pub use laws::{
    lemma_count, lemma_first_sighting, lemma_independence, lemma_monotonic_rollover,
    lemma_non_increasing_start, lemma_single_record, session_after, total_records, updates_after,
};
pub use normalizer::{latest_index, lemma_latest_index, normalize, records_of, selected_of};
pub use products::{products_quoted_in, quoted_ids, Product};
pub use tracker::{finished_by, lookup, state_after, Completion, TaskTracker};
