use papertrail_logger::facade::forward_frame;
use papertrail_logger::intake::{offer_for, Intake, Offer, SendOutcome, DEFAULT_CAPACITY};
use papertrail_logger::{Level, LogMessage};

fn record(n: usize) -> LogMessage {
    LogMessage { level: Level::Info, target: "test".to_string(), body: format!("record {}", n) }
}

#[test]
fn default_capacity_is_one_hundred() {
    assert_eq!(DEFAULT_CAPACITY, 100);
}

#[test]
fn offer_for_each_outcome() {
    assert_eq!(offer_for(SendOutcome::Sent), Offer::Accepted);
    assert_eq!(offer_for(SendOutcome::Full), Offer::Dropped);
    assert_eq!(offer_for(SendOutcome::Closed), Offer::Dropped);
}

#[test]
fn drop_on_overflow() {
    let (intake, mut outlet) = Intake::<LogMessage>::channel(DEFAULT_CAPACITY);
    let mut offers: Vec<Offer> = Vec::new();
    for n in 0..1000 {
        offers.push(intake.offer(record(n)));
    }
    assert!(offers[..100].iter().all(|o| *o == Offer::Accepted));
    assert!(offers[100..].iter().all(|o| *o == Offer::Dropped));
    let mut bodies: Vec<String> = Vec::new();
    while let Ok(m) = outlet.try_recv() {
        bodies.push(m.body);
    }
    assert_eq!(bodies.len(), 100);
    let expected: Vec<String> = (0..100).map(|n| format!("record {}", n)).collect();
    assert_eq!(bodies, expected);
}

#[test]
fn at_most_capacity_records_are_accepted() {
    for capacity in [1usize, 2, 5, 17] {
        let (intake, _outlet) = Intake::<LogMessage>::channel(capacity);
        let mut accepted = 0usize;
        for n in 0..(capacity * 3) {
            if intake.offer(record(n)) == Offer::Accepted {
                accepted += 1;
            }
        }
        assert_eq!(accepted, capacity);
    }
}

#[test]
fn room_returns_when_the_consumer_takes_a_record() {
    let (intake, mut outlet) = Intake::<LogMessage>::channel(1);
    assert_eq!(intake.offer(record(0)), Offer::Accepted);
    assert_eq!(intake.offer(record(1)), Offer::Dropped);
    assert_eq!(outlet.try_recv().ok().map(|m| m.body), Some("record 0".to_string()));
    assert_eq!(intake.offer(record(2)), Offer::Accepted);
    assert_eq!(outlet.try_recv().ok().map(|m| m.body), Some("record 2".to_string()));
}

#[test]
fn offer_to_a_closed_queue_is_dropped() {
    let (intake, outlet) = Intake::<LogMessage>::channel(4);
    drop(outlet);
    assert_eq!(intake.offer(record(0)), Offer::Dropped);
}

#[test]
fn intake_over_an_existing_sender() {
    let (sender, mut receiver) = tokio::sync::mpsc::channel::<String>(2);
    let intake = Intake::new(sender);
    assert_eq!(intake.offer("a".to_string()), Offer::Accepted);
    assert_eq!(intake.offer("b".to_string()), Offer::Accepted);
    assert_eq!(intake.offer("c".to_string()), Offer::Dropped);
    assert_eq!(receiver.try_recv().ok(), Some("a".to_string()));
    assert_eq!(receiver.try_recv().ok(), Some("b".to_string()));
    assert!(receiver.try_recv().is_err());
}

#[test]
fn forward_frame_filters_then_offers() {
    let (intake, mut outlet) = Intake::<String>::channel(1);
    let r = record(7);
    assert_eq!(forward_frame(&intake, "web-1", Level::Warn, &r), None);
    assert!(outlet.try_recv().is_err());
    assert_eq!(forward_frame(&intake, "web-1", Level::Info, &r), Some(Offer::Accepted));
    assert_eq!(forward_frame(&intake, "web-1", Level::Trace, &r), Some(Offer::Dropped));
    let frame = outlet.try_recv().unwrap();
    assert!(frame.starts_with("<14>1 "));
    assert!(frame.ends_with(" web-1 test - - - [INFO] record 7\n"));
    assert!(outlet.try_recv().is_err());
}
