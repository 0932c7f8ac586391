use candle_tracker::{
    detect, normalize, products_quoted_in, Bucket, Product, TaskTracker, UpdateRecord,
};

fn rec(id: &str, start: u64, tag: u32) -> UpdateRecord<u32> {
    UpdateRecord::new(id.to_string(), Bucket::new(start, tag))
}

fn start_of(t: &TaskTracker<u32>, id: &str) -> Option<u64> {
    t.current_start(&id.to_string())
}

#[test]
fn detect_first_sighting_finishes_nothing() {
    let (cur, done) = detect(None, Bucket::new(1000, 7u32));
    assert_eq!(cur.start, 1000);
    assert_eq!(cur.payload, 7);
    assert!(done.is_none());
}

#[test]
fn detect_later_start_finishes_previous() {
    let (cur, done) = detect(Some(Bucket::new(1000, 1u32)), Bucket::new(1060, 2u32));
    assert_eq!(cur.start, 1060);
    assert_eq!(cur.payload, 2);
    let done = done.unwrap();
    assert_eq!(done.start, 1000);
    assert_eq!(done.payload, 1);
}

#[test]
fn detect_equal_or_older_start_overwrites() {
    let (cur, done) = detect(Some(Bucket::new(1000, 1u32)), Bucket::new(1000, 2u32));
    assert_eq!((cur.start, cur.payload), (1000, 2));
    assert!(done.is_none());
    let (cur, done) = detect(Some(Bucket::new(2000, 1u32)), Bucket::new(1500, 3u32));
    assert_eq!((cur.start, cur.payload), (1500, 3));
    assert!(done.is_none());
}

#[test]
fn normalize_empty_message() {
    let (n, r) = normalize::<u32>(vec![]);
    assert_eq!(n, 0);
    assert!(r.is_none());
    let (n, r) = normalize::<u32>(vec![vec![], vec![]]);
    assert_eq!(n, 0);
    assert!(r.is_none());
}

#[test]
fn normalize_picks_latest_across_groups() {
    let groups = vec![
        vec![rec("ETH-USD", 500, 1), rec("SOL-USD", 300, 2)],
        vec![],
        vec![rec("BTC-USD", 600, 3), rec("XRP-USD", 100, 4)],
    ];
    let (n, r) = normalize(groups);
    assert_eq!(n, 4);
    let r = r.unwrap();
    assert_eq!(r.instrument, "BTC-USD");
    assert_eq!(r.bucket.start, 600);
    assert_eq!(r.bucket.payload, 3);
}

#[test]
fn normalize_ties_keep_first_in_arrival_order() {
    let groups = vec![vec![rec("A-USD", 700, 1)], vec![rec("B-USD", 700, 2), rec("C-USD", 700, 3)]];
    let (n, r) = normalize(groups);
    assert_eq!(n, 3);
    let r = r.unwrap();
    assert_eq!(r.instrument, "A-USD");
    assert_eq!(r.bucket.payload, 1);
}

#[test]
fn normalize_single_record() {
    let (n, r) = normalize(vec![vec![rec("BTC-USD", 42, 9)]]);
    assert_eq!(n, 1);
    let r = r.unwrap();
    assert_eq!((r.instrument.as_str(), r.bucket.start), ("BTC-USD", 42));
}

#[test]
fn first_sighting_sets_state() {
    let mut t: TaskTracker<u32> = TaskTracker::new();
    assert_eq!(start_of(&t, "BTC-USD"), None);
    let done = t.check_candle("BTC-USD".to_string(), Bucket::new(1000, 1));
    assert!(done.is_none());
    assert_eq!(start_of(&t, "BTC-USD"), Some(1000));
}

#[test]
fn monotonic_rollover_reports_previous_start() {
    let mut t: TaskTracker<u32> = TaskTracker::new();
    assert!(t.check_candle("ETH-USD".to_string(), Bucket::new(60, 0)).is_none());
    for (i, s) in [120u64, 180, 240, 300].iter().enumerate() {
        let done = t.check_candle("ETH-USD".to_string(), Bucket::new(*s, i as u32 + 1)).unwrap();
        assert_eq!(done.start, s - 60);
        assert_eq!(done.payload, i as u32);
    }
}

#[test]
fn non_increasing_start_overwrites() {
    let mut t: TaskTracker<u32> = TaskTracker::new();
    t.check_candle("BTC-USD".to_string(), Bucket::new(1000, 1));
    assert!(t.check_candle("BTC-USD".to_string(), Bucket::new(1000, 2)).is_none());
    assert!(t.check_candle("BTC-USD".to_string(), Bucket::new(900, 3)).is_none());
    assert_eq!(start_of(&t, "BTC-USD"), Some(900));
    // The overwrite is the bucket that a later rollover reports.
    let done = t.check_candle("BTC-USD".to_string(), Bucket::new(960, 4)).unwrap();
    assert_eq!((done.start, done.payload), (900, 3));
}

#[test]
fn count_sums_records_of_all_messages() {
    let mut t: TaskTracker<u32> = TaskTracker::new();
    t.message_callback(vec![vec![rec("A-USD", 1, 0), rec("B-USD", 2, 0)], vec![rec("C-USD", 3, 0)]]);
    t.message_callback(vec![]);
    t.message_callback(vec![vec![rec("A-USD", 5, 0)]]);
    t.message_callback(vec![vec![], vec![rec("B-USD", 1, 0), rec("B-USD", 9, 0)]]);
    assert_eq!(t.processed(), 6);
}

#[test]
fn instruments_are_independent() {
    let mut t: TaskTracker<u32> = TaskTracker::new();
    t.check_candle("A-USD".to_string(), Bucket::new(100, 0));
    t.check_candle("B-USD".to_string(), Bucket::new(5000, 0));
    let done = t.check_candle("A-USD".to_string(), Bucket::new(160, 0)).unwrap();
    assert_eq!(done.start, 100);
    assert_eq!(start_of(&t, "B-USD"), Some(5000));
    assert_eq!(start_of(&t, "A-USD"), Some(160));
}

#[test]
fn single_record_per_message() {
    let mut t: TaskTracker<u32> = TaskTracker::new();
    let r = t.message_callback(vec![vec![rec("A-USD", 100, 1), rec("B-USD", 200, 2)]]);
    assert!(r.is_none());
    assert_eq!(t.processed(), 2);
    assert_eq!(start_of(&t, "A-USD"), None);
    assert_eq!(start_of(&t, "B-USD"), Some(200));
}

#[test]
fn scenario_btc_sequence() {
    let mut t: TaskTracker<u32> = TaskTracker::new();
    assert!(t.message_callback(vec![vec![rec("BTC-USD", 1000, 1)]]).is_none());
    assert_eq!(start_of(&t, "BTC-USD"), Some(1000));
    assert!(t.message_callback(vec![vec![rec("BTC-USD", 1000, 2)]]).is_none());
    assert_eq!(start_of(&t, "BTC-USD"), Some(1000));
    let c = t.message_callback(vec![vec![rec("BTC-USD", 1060, 3)]]).unwrap();
    assert_eq!(c.bucket.start, 1000);
    assert_eq!(c.bucket.payload, 2);
    assert_eq!(c.instrument, "BTC-USD");
    assert_eq!(c.processed, 3);
    assert_eq!(start_of(&t, "BTC-USD"), Some(1060));
}

#[test]
fn scenario_two_groups_one_applied() {
    let mut t: TaskTracker<u32> = TaskTracker::new();
    t.message_callback(vec![vec![rec("ETH-USD", 440, 0)]]);
    let before = t.processed();
    let r = t.message_callback(vec![vec![rec("ETH-USD", 500, 1)], vec![rec("BTC-USD", 600, 2)]]);
    assert!(r.is_none());
    assert_eq!(t.processed(), before + 2);
    assert_eq!(start_of(&t, "ETH-USD"), Some(440));
    assert_eq!(start_of(&t, "BTC-USD"), Some(600));
}

#[test]
fn scenario_out_of_order() {
    let mut t: TaskTracker<u32> = TaskTracker::new();
    t.message_callback(vec![vec![rec("XRP-USD", 2000, 1)]]);
    assert!(t.message_callback(vec![vec![rec("XRP-USD", 1500, 2)]]).is_none());
    assert_eq!(start_of(&t, "XRP-USD"), Some(1500));
}

#[test]
fn scenario_empty_batch() {
    let mut t: TaskTracker<u32> = TaskTracker::new();
    t.message_callback(vec![vec![rec("BTC-USD", 1000, 1)]]);
    assert!(t.message_callback(vec![]).is_none());
    assert!(t.message_callback(vec![vec![]]).is_none());
    assert_eq!(t.processed(), 1);
    assert_eq!(start_of(&t, "BTC-USD"), Some(1000));
}

#[test]
fn products_filtered_by_quote_currency() {
    let listing = vec![
        Product::new("BTC-USD".to_string(), "USD".to_string()),
        Product::new("BTC-EUR".to_string(), "EUR".to_string()),
        Product::new("ETH-USD".to_string(), "USD".to_string()),
        Product::new("ETH-USDC".to_string(), "USDC".to_string()),
    ];
    let ids = products_quoted_in(&listing, &"USD".to_string());
    assert_eq!(ids, vec!["BTC-USD".to_string(), "ETH-USD".to_string()]);
    assert!(products_quoted_in(&vec![], &"USD".to_string()).is_empty());
}
