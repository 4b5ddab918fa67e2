use eventflow::bus::{Bus, PublishError};
use eventflow::delivery::Delivery;
use serde_json::Value;

fn num(n: i64) -> Value {
    Value::from(n)
}

#[test]
fn capacity_is_rounded_up_to_a_power_of_two() {
    assert_eq!(Bus::new(1).unwrap().capacity(), 1);
    assert_eq!(Bus::new(2).unwrap().capacity(), 2);
    assert_eq!(Bus::new(3).unwrap().capacity(), 4);
    assert_eq!(Bus::new(1000).unwrap().capacity(), 1024);
}

#[test]
fn no_bus_of_capacity_zero() {
    assert!(Bus::new(0).is_none());
    assert!(Bus::new(usize::MAX).is_none());
    assert!(Bus::new(usize::MAX / 2 + 1).is_none());
}

#[test]
fn publish_without_subscribers_is_refused() {
    let mut bus = Bus::new(4).unwrap();
    assert_eq!(bus.publish(num(1)), Err(PublishError::NoSubscribers));
    let id = bus.subscribe();
    assert_eq!(bus.receive(id), Some(Delivery::Empty));
    assert_eq!(bus.publish(num(2)), Ok(()));
    assert_eq!(bus.receive(id), Some(Delivery::Envelope(num(2))));
}

#[test]
fn slow_subscriber_lags_and_fast_one_does_not() {
    let mut bus = Bus::new(2).unwrap();
    let a = bus.subscribe();
    let b = bus.subscribe();
    let mut heard_a = Vec::new();
    let mut heard_b = Vec::new();
    for k in 1..=5 {
        bus.publish(num(k)).unwrap();
        heard_a.push(bus.receive(a).unwrap());
        if k % 2 == 0 {
            heard_b.push(bus.receive(b).unwrap());
        }
    }
    bus.close();
    assert_eq!(
        heard_a,
        vec![
            Delivery::Envelope(num(1)),
            Delivery::Envelope(num(2)),
            Delivery::Envelope(num(3)),
            Delivery::Envelope(num(4)),
            Delivery::Envelope(num(5)),
        ]
    );
    assert_eq!(bus.receive(a), Some(Delivery::Closed));
    // B read once after two publishes (envelope 1), once after four (it was
    // then three behind on a bus that retains two).
    assert_eq!(heard_b, vec![Delivery::Envelope(num(1)), Delivery::Lagged(1)]);
    assert_eq!(bus.receive(b), Some(Delivery::Lagged(1)));
    assert_eq!(bus.receive(b), Some(Delivery::Envelope(num(4))));
    assert_eq!(bus.receive(b), Some(Delivery::Envelope(num(5))));
    assert_eq!(bus.receive(b), Some(Delivery::Closed));
    assert_eq!(bus.receive(b), Some(Delivery::Closed));
}

#[test]
fn unknown_subscription_receives_nothing() {
    let mut bus = Bus::new(2).unwrap();
    assert_eq!(bus.receive(0), None);
    let id = bus.subscribe();
    assert_eq!(bus.receive(id + 1), None);
}

#[test]
fn late_subscriber_misses_earlier_envelopes() {
    let mut bus = Bus::new(4).unwrap();
    let early = bus.subscribe();
    bus.publish(num(10)).unwrap();
    let late = bus.subscribe();
    bus.publish(num(20)).unwrap();
    assert_eq!(bus.receive(early), Some(Delivery::Envelope(num(10))));
    assert_eq!(bus.receive(early), Some(Delivery::Envelope(num(20))));
    assert_eq!(bus.receive(late), Some(Delivery::Envelope(num(20))));
    assert_eq!(bus.receive(late), Some(Delivery::Empty));
}

#[test]
fn closed_bus_refuses_publish() {
    let mut bus = Bus::new(2).unwrap();
    let id = bus.subscribe();
    bus.publish(num(1)).unwrap();
    bus.close();
    bus.close();
    assert!(bus.is_closed());
    assert_eq!(bus.publish(num(2)), Err(PublishError::Closed));
    assert_eq!(bus.receive(id), Some(Delivery::Envelope(num(1))));
    assert_eq!(bus.receive(id), Some(Delivery::Closed));
}

#[test]
fn within_capacity_every_subscriber_gets_everything_in_order() {
    for subscribers in 0..4 {
        let mut bus = Bus::new(8).unwrap();
        let ids: Vec<usize> = (0..subscribers).map(|_| bus.subscribe()).collect();
        assert_eq!(ids, (0..subscribers).collect::<Vec<usize>>());
        for k in 1..=8 {
            let outcome = bus.publish(num(k));
            if subscribers == 0 {
                assert_eq!(outcome, Err(PublishError::NoSubscribers));
            } else {
                assert_eq!(outcome, Ok(()));
            }
        }
        bus.close();
        for id in ids {
            for k in 1..=8 {
                assert_eq!(bus.receive(id), Some(Delivery::Envelope(num(k))));
            }
            assert_eq!(bus.receive(id), Some(Delivery::Closed));
        }
    }
}

#[test]
fn lag_counts_exactly_what_was_dropped() {
    let mut bus = Bus::new(4).unwrap();
    let id = bus.subscribe();
    for k in 1..=4 {
        bus.publish(num(k)).unwrap();
    }
    // four behind on a bus that retains four: nothing is lost yet
    assert_eq!(bus.receive(id), Some(Delivery::Envelope(num(1))));
    for k in 5..=11 {
        bus.publish(num(k)).unwrap();
    }
    // ten behind: six were dropped, 8 is the oldest that is left
    assert_eq!(bus.receive(id), Some(Delivery::Lagged(6)));
    assert_eq!(bus.receive(id), Some(Delivery::Envelope(num(8))));
    for k in 12..=16 {
        bus.publish(num(k)).unwrap();
    }
    // 9..=16 wait, four are retained
    assert_eq!(bus.receive(id), Some(Delivery::Lagged(4)));
    for k in 13..=16 {
        assert_eq!(bus.receive(id), Some(Delivery::Envelope(num(k))));
    }
    assert_eq!(bus.receive(id), Some(Delivery::Empty));
    // 2 delivered before the lags, 5 after, 10 reported missed, 16 published
}

#[test]
fn subscribers_do_not_disturb_each_other() {
    let mut bus = Bus::new(4).unwrap();
    let quiet = bus.subscribe();
    let busy = bus.subscribe();
    for k in 1..=3 {
        bus.publish(num(k)).unwrap();
        assert_eq!(bus.receive(busy), Some(Delivery::Envelope(num(k))));
        assert_eq!(bus.receive(busy), Some(Delivery::Empty));
    }
    for k in 1..=3 {
        assert_eq!(bus.receive(quiet), Some(Delivery::Envelope(num(k))));
    }
    assert_eq!(bus.subscriber_count(), 2);
}

#[test]
fn each_subscriber_owns_its_copy() {
    let mut bus = Bus::new(2).unwrap();
    let a = bus.subscribe();
    let b = bus.subscribe();
    bus.publish(Value::from(vec![1, 2, 3])).unwrap();
    match bus.receive(a) {
        Some(Delivery::Envelope(mut mine)) => {
            mine.as_array_mut().unwrap().clear();
            assert_eq!(mine, Value::from(Vec::<i64>::new()));
        }
        other => panic!("unexpected delivery {:?}", other),
    }
    assert_eq!(bus.receive(b), Some(Delivery::Envelope(Value::from(vec![1, 2, 3]))));
}
