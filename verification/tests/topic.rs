use host_metrics::topic::{Delivery, Subscription, Topic};
use std::sync::Arc;

fn value<T>(delivery: Delivery<Arc<T>>) -> Option<Arc<T>> {
    match delivery {
        Delivery::Value(shared) => Some(shared),
        _ => None,
    }
}

#[test]
fn new_topic_is_open_and_empty() {
    let topic: Topic<u32> = Topic::new();
    assert!(topic.is_open());
    assert_eq!(topic.subscriber_count(), 0);
    assert!(topic.latest().is_none());
}

#[test]
fn late_receiver_sees_only_the_last_value() {
    let mut topic: Topic<u32> = Topic::new();
    let subscription = topic.subscribe().unwrap();
    for n in 1..=100u32 {
        topic.publish(n);
    }
    assert_eq!(topic.receive(&subscription), Delivery::Value(Arc::new(100)));
    assert_eq!(topic.receive(&subscription), Delivery::Pending);
}

#[test]
fn late_receiver_after_one_publish() {
    let mut topic: Topic<&str> = Topic::new();
    let subscription = topic.subscribe().unwrap();
    topic.publish("only");
    assert_eq!(topic.receive(&subscription), Delivery::Value(Arc::new("only")));
}

#[test]
fn paced_receiver_sees_every_value_in_order() {
    let mut topic: Topic<u32> = Topic::new();
    let subscription = topic.subscribe().unwrap();
    let mut seen = Vec::new();
    for n in 1..=50u32 {
        topic.publish(n);
        seen.push(*value(topic.receive(&subscription)).unwrap());
    }
    let expected: Vec<u32> = (1..=50).collect();
    assert_eq!(seen, expected);
    assert_eq!(topic.receive(&subscription), Delivery::Pending);
}

#[test]
fn publishing_without_subscribers_keeps_one_value() {
    let mut topic: Topic<Vec<u8>> = Topic::new();
    for n in 0..1000u32 {
        topic.publish(vec![n as u8; 16]);
        assert_eq!(topic.subscriber_count(), 0);
    }
    let kept = topic.latest().unwrap();
    assert_eq!(*kept, vec![231u8; 16]);
    // The slot is the only owner besides this test: nothing else was kept.
    assert_eq!(Arc::strong_count(&kept), 2);
}

#[test]
fn earlier_values_are_dropped_when_replaced() {
    let mut topic: Topic<u32> = Topic::new();
    topic.publish(1);
    let first = topic.latest().unwrap();
    assert_eq!(Arc::strong_count(&first), 2);
    topic.publish(2);
    assert_eq!(Arc::strong_count(&first), 1);
    assert_eq!(*topic.latest().unwrap(), 2);
}

#[test]
fn subscriber_between_two_publishes_gets_the_second() {
    let mut topic: Topic<Vec<f32>> = Topic::new();
    topic.publish(vec![12.0, 45.5]);
    let subscription = topic.subscribe().unwrap();
    assert_eq!(topic.receive(&subscription), Delivery::Pending);
    topic.publish(vec![13.0, 46.0]);
    let first = value(topic.receive(&subscription)).unwrap();
    assert_eq!(*first, vec![13.0f32, 46.0]);
    assert_eq!(topic.receive(&subscription), Delivery::Pending);
}

#[test]
fn fast_and_slow_subscribers_both_reach_the_final_value() {
    let mut topic: Topic<u32> = Topic::new();
    let fast = topic.subscribe().unwrap();
    let slow = topic.subscribe().unwrap();
    let mut fast_seen = Vec::new();
    let mut slow_seen = Vec::new();
    for tick in 1..=9u32 {
        topic.publish(tick);
        fast_seen.push(*value(topic.receive(&fast)).unwrap());
        if tick % 3 == 0 {
            slow_seen.push(*value(topic.receive(&slow)).unwrap());
        }
    }
    assert_eq!(fast_seen, vec![1, 2, 3, 4, 5, 6, 7, 8, 9]);
    assert_eq!(slow_seen, vec![3, 6, 9]);
    assert_eq!(fast_seen.last(), slow_seen.last());
}

#[test]
fn slow_subscriber_catches_up_with_the_final_value() {
    let mut topic: Topic<u32> = Topic::new();
    let fast = topic.subscribe().unwrap();
    let slow = topic.subscribe().unwrap();
    let mut slow_seen = Vec::new();
    for tick in 1..=10u32 {
        topic.publish(tick);
        assert_eq!(topic.receive(&fast), Delivery::Value(Arc::new(tick)));
        if tick % 3 == 0 {
            slow_seen.push(*value(topic.receive(&slow)).unwrap());
        }
    }
    // Tick 10 came after the slow subscriber's last turn.
    assert_eq!(slow_seen, vec![3, 6, 9]);
    assert_eq!(topic.receive(&slow), Delivery::Value(Arc::new(10)));
}

#[test]
fn keys_are_handed_out_in_order_and_never_again() {
    let mut topic: Topic<u8> = Topic::new();
    let a = topic.subscribe().unwrap();
    let b = topic.subscribe().unwrap();
    assert_eq!(a.id(), 0);
    assert_eq!(b.id(), 1);
    topic.unsubscribe(a);
    let c = topic.subscribe().unwrap();
    assert_eq!(c.id(), 2);
    assert_eq!(topic.subscriber_count(), 2);
}

#[test]
fn releasing_one_subscription_leaves_the_others() {
    let mut topic: Topic<u32> = Topic::new();
    let a = topic.subscribe().unwrap();
    let b = topic.subscribe().unwrap();
    let c = topic.subscribe().unwrap();
    topic.publish(7);
    assert_eq!(topic.receive(&b), Delivery::Value(Arc::new(7)));
    topic.unsubscribe(a);
    assert_eq!(topic.subscriber_count(), 2);
    assert!(topic.is_subscribed(&b));
    assert!(topic.is_subscribed(&c));
    assert_eq!(topic.receive(&b), Delivery::Pending);
    assert_eq!(topic.receive(&c), Delivery::Value(Arc::new(7)));
}

#[test]
fn key_that_a_topic_never_gave_is_closed() {
    let mut one: Topic<u32> = Topic::new();
    let mut other: Topic<u32> = Topic::new();
    let _first = one.subscribe().unwrap();
    let second = one.subscribe().unwrap();
    other.publish(1);
    assert!(!other.is_subscribed(&second));
    assert_eq!(other.receive(&second), Delivery::Closed);
    other.unsubscribe(second);
    assert_eq!(other.subscriber_count(), 0);
    assert_eq!(one.subscriber_count(), 2);
}

#[test]
fn closing_releases_every_subscription() {
    let mut topic: Topic<u32> = Topic::new();
    let a = topic.subscribe().unwrap();
    let b = topic.subscribe().unwrap();
    topic.publish(4);
    topic.close();
    assert!(!topic.is_open());
    assert_eq!(topic.subscriber_count(), 0);
    assert_eq!(topic.receive(&a), Delivery::Closed);
    assert_eq!(topic.receive(&b), Delivery::Closed);
    assert!(topic.subscribe().is_none());
    assert_eq!(*topic.latest().unwrap(), 4);
    topic.publish(5);
    assert_eq!(*topic.latest().unwrap(), 5);
}

#[test]
fn latest_uses_up_nobodys_turn() {
    let mut topic: Topic<u32> = Topic::new();
    let subscription = topic.subscribe().unwrap();
    topic.publish(11);
    assert_eq!(*topic.latest().unwrap(), 11);
    assert_eq!(*topic.latest().unwrap(), 11);
    assert_eq!(topic.receive(&subscription), Delivery::Value(Arc::new(11)));
}

#[test]
fn subscribers_share_one_value() {
    let mut topic: Topic<Vec<u64>> = Topic::new();
    let a = topic.subscribe().unwrap();
    let b = topic.subscribe().unwrap();
    topic.publish(vec![1, 2, 3]);
    let for_a = value(topic.receive(&a)).unwrap();
    let for_b = value(topic.receive(&b)).unwrap();
    assert!(Arc::ptr_eq(&for_a, &for_b));
    assert!(Arc::ptr_eq(&for_a, &topic.latest().unwrap()));
    assert_eq!(*for_a, vec![1, 2, 3]);
}

/// A step of a small linear congruential generator.
fn next_random(state: &mut u64) -> u64 {
    *state = state.wrapping_mul(6364136223846793005).wrapping_add(1442695040888963407);
    *state >> 33
}

#[test]
fn many_subscribers_with_disconnects_between_publishes() {
    let mut topic: Topic<u32> = Topic::new();
    let mut live: Vec<(Subscription, Option<u32>)> = Vec::new();
    for _ in 0..50 {
        live.push((topic.subscribe().unwrap(), None));
    }
    let mut random = 2024u64;
    for n in 1..=10_000u32 {
        topic.publish(n);
        // Some subscribers take their turn, in no particular order.
        for _ in 0..3 {
            if live.is_empty() {
                break;
            }
            let at = (next_random(&mut random) as usize) % live.len();
            let (subscription, last) = &mut live[at];
            match topic.receive(subscription) {
                Delivery::Value(shared) => {
                    assert_eq!(*shared, n);
                    assert!(last.map_or(true, |earlier| earlier < n));
                    *last = Some(n);
                }
                Delivery::Pending => assert_eq!(*last, Some(n)),
                Delivery::Closed => panic!("a live subscription was closed"),
            }
        }
        // Now and then one disconnects.
        if next_random(&mut random) % 250 == 0 && live.len() > 1 {
            let at = (next_random(&mut random) as usize) % live.len();
            let (gone, _) = live.swap_remove(at);
            topic.unsubscribe(gone);
            assert_eq!(topic.subscriber_count(), live.len());
        }
    }
    assert!(live.len() < 50);
    assert_eq!(topic.subscriber_count(), live.len());
    for (subscription, last) in &live {
        match topic.receive(subscription) {
            Delivery::Value(shared) => assert_eq!(*shared, 10_000),
            Delivery::Pending => assert_eq!(*last, Some(10_000)),
            Delivery::Closed => panic!("a live subscription was closed"),
        }
    }
}
