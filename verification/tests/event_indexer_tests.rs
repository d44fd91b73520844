use perigee::event_indexer::{Error, EventIndexer, DEFAULT_MAX_EVENTS_PER_TOPIC};

type Payload = Vec<(String, i128)>;
type Log = EventIndexer<String, String, Payload>;

fn payload(price: i128, amount: i128) -> Payload {
    vec![("price".to_string(), price), ("amount".to_string(), amount)]
}

#[test]
fn test_record_and_query() {
    let mut log: Log = EventIndexer::new();
    let key = "claim-1".to_string();
    let seq1 = log.record(1000, "created".to_string(), key.clone(), payload(100, 10));
    let seq2 = log.record(1000, "confirmed".to_string(), key.clone(), payload(110, 10));
    assert_eq!(seq1, 1);
    assert_eq!(seq2, 2);
    assert_eq!(log.count(), 2);

    let latest = log.latest().unwrap();
    assert_eq!(latest.seq, 2);
    assert_eq!(latest.event_name, "confirmed");
    assert_eq!(latest.timestamp, 1000);

    let all = log.query(1, 10).unwrap();
    assert_eq!(all.len(), 2);
    assert_eq!(all[0].seq, 1);
    assert_eq!(all[1].seq, 2);

    let tail = log.query(2, 10).unwrap();
    assert_eq!(tail.len(), 1);
    assert_eq!(tail[0].seq, 2);
}

#[test]
fn test_topics_are_independent() {
    let mut payment: Log = EventIndexer::new();
    let mut aloop: Log = EventIndexer::new();
    payment.record(0, "created".to_string(), "k1".to_string(), payload(1, 2));
    aloop.record(0, "changed".to_string(), "k2".to_string(), payload(3, 4));
    assert_eq!(payment.count(), 1);
    assert_eq!(aloop.count(), 1);
}

#[test]
fn test_topic_limit_evicts_oldest() {
    let mut log: Log = EventIndexer::new();
    assert_eq!(log.set_topic_limit(2), Ok(()));
    assert_eq!(log.get_topic_limit(), 2);
    for key_name in ["k1", "k2", "k3"] {
        log.record(0, "created".to_string(), key_name.to_string(), payload(0, 0));
    }
    assert_eq!(log.count(), 2);
    let remaining = log.query(1, 10).unwrap();
    assert_eq!(remaining.len(), 2);
    assert_eq!(remaining[0].seq, 2);
    assert_eq!(remaining[1].seq, 3);
}

#[test]
fn test_empty_topic() {
    let log: Log = EventIndexer::new();
    assert_eq!(log.count(), 0);
    assert!(log.latest().is_none());
    assert_eq!(log.query(1, 10).unwrap().len(), 0);
}

#[test]
fn test_limit_validation() {
    let mut log: Log = EventIndexer::new();
    assert_eq!(log.set_topic_limit(0), Err(Error::LimitTooSmall));
    assert!(matches!(log.query(1, 0), Err(Error::InvalidQueryLimit)));
    assert_eq!(log.get_topic_limit(), DEFAULT_MAX_EVENTS_PER_TOPIC);
}

#[test]
fn query_limit_caps_the_page_and_sequence_keeps_counting_after_eviction() {
    let mut log: Log = EventIndexer::new();
    log.set_topic_limit(3).unwrap();
    for i in 0..5 {
        log.record(i, "tick".to_string(), "k".to_string(), payload(i as i128, 0));
    }
    // Seqs 3, 4, 5 are retained; the next one is 6.
    let page = log.query(0, 2).unwrap();
    assert_eq!(page.len(), 2);
    assert_eq!(page[0].seq, 3);
    assert_eq!(page[1].seq, 4);
    assert_eq!(log.record(9, "tick".to_string(), "k".to_string(), payload(9, 0)), 6);
    // Lowering the limit trims the window at once, keeping the newest event.
    log.set_topic_limit(1).unwrap();
    assert_eq!(log.count(), 1);
    assert_eq!(log.latest().unwrap().seq, 6);
    log.record(10, "tick".to_string(), "k".to_string(), payload(10, 0));
    assert_eq!(log.count(), 1);
    assert_eq!(log.latest().unwrap().seq, 7);
}

#[test]
fn lowering_the_limit_trims_three_events_to_one() {
    let mut log: Log = EventIndexer::new();
    for key_name in ["k1", "k2", "k3"] {
        log.record(0, "created".to_string(), key_name.to_string(), payload(0, 0));
    }
    assert_eq!(log.count(), 3);
    assert_eq!(log.set_topic_limit(1), Ok(()));
    assert_eq!(log.count(), 1);
    let page = log.query(0, 10).unwrap();
    assert_eq!(page.len(), 1);
    assert_eq!(page[0].seq, 3);
    // Raising it again keeps what is retained.
    assert_eq!(log.set_topic_limit(5), Ok(()));
    assert_eq!(log.count(), 1);
}
