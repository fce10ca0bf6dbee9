use host_metrics::connection::{ConnectionHandler, Phase, Step};
use host_metrics::topic::Topic;
use std::sync::Arc;

#[test]
fn connection_starts_out_connecting() {
    let handler = ConnectionHandler::new();
    assert_eq!(handler.phase(), Phase::Connecting);
}

#[test]
fn upgrade_subscribes_and_streams() {
    let mut topic: Topic<u32> = Topic::new();
    let mut handler = ConnectionHandler::new();
    handler.on_upgrade(&mut topic, true);
    assert_eq!(handler.phase(), Phase::Streaming);
    assert_eq!(topic.subscriber_count(), 1);
}

#[test]
fn failed_upgrade_closes_and_creates_nothing() {
    let mut topic: Topic<u32> = Topic::new();
    let mut handler = ConnectionHandler::new();
    handler.on_upgrade(&mut topic, false);
    assert_eq!(handler.phase(), Phase::Closed);
    assert_eq!(topic.subscriber_count(), 0);
    assert_eq!(handler.next(&mut topic), Step::Stop);
}

#[test]
fn upgrade_on_a_closed_topic_closes_the_connection() {
    let mut topic: Topic<u32> = Topic::new();
    topic.close();
    let mut handler = ConnectionHandler::new();
    handler.on_upgrade(&mut topic, true);
    assert_eq!(handler.phase(), Phase::Closed);
    assert_eq!(topic.subscriber_count(), 0);
}

#[test]
fn connecting_handler_has_nothing_to_send() {
    let mut topic: Topic<u32> = Topic::new();
    topic.publish(1);
    let mut handler = ConnectionHandler::new();
    assert_eq!(handler.next(&mut topic), Step::Wait);
    assert_eq!(handler.phase(), Phase::Connecting);
}

#[test]
fn streaming_forwards_each_new_value_once() {
    let mut topic: Topic<u32> = Topic::new();
    let mut handler = ConnectionHandler::new();
    handler.on_upgrade(&mut topic, true);
    assert_eq!(handler.next(&mut topic), Step::Wait);
    topic.publish(21);
    assert_eq!(handler.next(&mut topic), Step::Send(Arc::new(21)));
    handler.on_sent(&mut topic, true);
    assert_eq!(handler.phase(), Phase::Streaming);
    assert_eq!(handler.next(&mut topic), Step::Wait);
    topic.publish(22);
    topic.publish(23);
    assert_eq!(handler.next(&mut topic), Step::Send(Arc::new(23)));
}

#[test]
fn first_message_is_the_first_value_published_after_the_upgrade() {
    let mut topic: Topic<Vec<f32>> = Topic::new();
    topic.publish(vec![12.0, 45.5]);
    let mut handler = ConnectionHandler::new();
    handler.on_upgrade(&mut topic, true);
    assert_eq!(handler.next(&mut topic), Step::Wait);
    topic.publish(vec![13.0, 46.0]);
    assert_eq!(handler.next(&mut topic), Step::Send(Arc::new(vec![13.0f32, 46.0])));
}

#[test]
fn failed_send_closes_and_releases_the_subscription() {
    let mut topic: Topic<u32> = Topic::new();
    let mut failing = ConnectionHandler::new();
    let mut healthy = ConnectionHandler::new();
    failing.on_upgrade(&mut topic, true);
    healthy.on_upgrade(&mut topic, true);
    topic.publish(1);
    assert_eq!(failing.next(&mut topic), Step::Send(Arc::new(1)));
    failing.on_sent(&mut topic, false);
    assert_eq!(failing.phase(), Phase::Closed);
    assert_eq!(topic.subscriber_count(), 1);
    // The send is not tried again, and the other connection goes on.
    assert_eq!(failing.next(&mut topic), Step::Stop);
    assert_eq!(healthy.next(&mut topic), Step::Send(Arc::new(1)));
    healthy.on_sent(&mut topic, true);
    topic.publish(2);
    assert_eq!(failing.next(&mut topic), Step::Stop);
    assert_eq!(healthy.next(&mut topic), Step::Send(Arc::new(2)));
}

#[test]
fn client_close_releases_the_subscription() {
    let mut topic: Topic<u32> = Topic::new();
    let mut handler = ConnectionHandler::new();
    handler.on_upgrade(&mut topic, true);
    handler.on_client_close(&mut topic);
    assert_eq!(handler.phase(), Phase::Closed);
    assert_eq!(topic.subscriber_count(), 0);
}

#[test]
fn client_close_before_the_upgrade_closes() {
    let mut topic: Topic<u32> = Topic::new();
    let mut handler = ConnectionHandler::new();
    handler.on_client_close(&mut topic);
    assert_eq!(handler.phase(), Phase::Closed);
    handler.on_upgrade(&mut topic, true);
    assert_eq!(handler.phase(), Phase::Closed);
    assert_eq!(topic.subscriber_count(), 0);
}

#[test]
fn closing_the_topic_stops_its_connections() {
    let mut topic: Topic<u32> = Topic::new();
    let mut handler = ConnectionHandler::new();
    handler.on_upgrade(&mut topic, true);
    topic.publish(1);
    topic.close();
    assert_eq!(handler.next(&mut topic), Step::Stop);
    assert_eq!(handler.phase(), Phase::Closed);
}

#[test]
fn closed_connection_stays_closed() {
    let mut topic: Topic<u32> = Topic::new();
    let mut handler = ConnectionHandler::new();
    handler.on_upgrade(&mut topic, true);
    handler.on_client_close(&mut topic);
    let mut other = ConnectionHandler::new();
    other.on_upgrade(&mut topic, true);
    handler.on_upgrade(&mut topic, true);
    handler.on_sent(&mut topic, true);
    handler.on_sent(&mut topic, false);
    handler.on_client_close(&mut topic);
    topic.publish(9);
    assert_eq!(handler.next(&mut topic), Step::Stop);
    assert_eq!(handler.phase(), Phase::Closed);
    assert_eq!(topic.subscriber_count(), 1);
    assert_eq!(other.next(&mut topic), Step::Send(Arc::new(9)));
}

#[test]
fn successful_send_changes_nothing() {
    let mut topic: Topic<u32> = Topic::new();
    let mut handler = ConnectionHandler::new();
    handler.on_sent(&mut topic, false);
    assert_eq!(handler.phase(), Phase::Connecting);
    handler.on_upgrade(&mut topic, true);
    handler.on_sent(&mut topic, true);
    assert_eq!(handler.phase(), Phase::Streaming);
    assert_eq!(topic.subscriber_count(), 1);
}
