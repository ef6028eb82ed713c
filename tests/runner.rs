use pulsar_consumer::config::{load_config, ConfigError};
use pulsar_consumer::runner::{Action, Event, Phase, Runner, SubscriptionKind};

fn configured(topic: &str, subscription: &str) -> Runner {
    let mut r = Runner::new();
    let loaded = load_config(None, None, Some(topic.to_string()), Some(subscription.to_string()));
    assert_eq!(r.step(Event::Loaded(loaded)), Action::Connect("pulsar://localhost:6650".to_string()));
    r
}

fn subscribed(topic: &str, subscription: &str) -> Runner {
    let mut r = configured(topic, subscription);
    r.step(Event::Connected);
    assert_eq!(r.step(Event::Subscribed), Action::Receive);
    r
}

#[test]
fn three_pending_messages_are_acked_in_order() {
    let mut r = configured("orders", "sub1");
    assert_eq!(
        r.step(Event::Connected),
        Action::Subscribe("orders".to_string(), "sub1".to_string(), SubscriptionKind::Failover)
    );
    assert_eq!(r.step(Event::Subscribed), Action::Receive);
    let mut actions = Vec::new();
    for id in 0..3u64 {
        actions.push(r.step(Event::Delivered(id)));
        actions.push(r.step(Event::Acknowledged));
    }
    assert_eq!(
        actions,
        vec![
            Action::Ack(0),
            Action::Receive,
            Action::Ack(1),
            Action::Receive,
            Action::Ack(2),
            Action::Receive,
        ]
    );
    assert_eq!(r.phase, Phase::Receiving);
}

#[test]
fn missing_subscription_name_aborts_without_connecting() {
    let mut r = Runner::new();
    let loaded = load_config(None, None, Some("orders".to_string()), None);
    assert_eq!(loaded, Err(ConfigError::MissingSubscriptionName));
    assert_eq!(
        r.step(Event::Loaded(loaded)),
        Action::Abort("invalid configuration: PULSAR_SUBSCRIPTION_NAME is missing".to_string())
    );
    assert_eq!(r.phase, Phase::Aborted);
    assert_eq!(r.step(Event::Connected), Action::Ignore);
    assert_eq!(r.phase, Phase::Aborted);
}

#[test]
fn missing_topic_aborts_without_connecting() {
    let mut r = Runner::new();
    let loaded = load_config(None, None, None, Some("sub1".to_string()));
    assert_eq!(
        r.step(Event::Loaded(loaded)),
        Action::Abort("invalid configuration: PULSAR_TOPIC is missing".to_string())
    );
    assert_eq!(r.phase, Phase::Aborted);
}

#[test]
fn unreachable_broker_is_reported_and_stops() {
    let mut r = configured("orders", "sub1");
    assert_eq!(
        r.step(Event::ConnectFailed("connection refused".to_string())),
        Action::Report("connect failed: connection refused".to_string())
    );
    assert_eq!(r.phase, Phase::Stopped);
    assert_eq!(r.step(Event::Subscribed), Action::Ignore);
    assert_eq!(r.step(Event::Delivered(0)), Action::Ignore);
    assert_eq!(r.phase, Phase::Stopped);
}

#[test]
fn rejected_subscription_is_reported_and_stops() {
    let mut r = configured("orders", "sub1");
    r.step(Event::Connected);
    assert_eq!(
        r.step(Event::SubscribeFailed("topic not found".to_string())),
        Action::Report("create consumer failed: topic not found".to_string())
    );
    assert_eq!(r.phase, Phase::Stopped);
}

#[test]
fn stream_end_closes() {
    let mut r = subscribed("orders", "sub1");
    assert_eq!(r.step(Event::StreamEnded), Action::Finish);
    assert_eq!(r.phase, Phase::Closed);
}

#[test]
fn stream_failure_while_receiving_faults() {
    let mut r = subscribed("orders", "sub1");
    assert_eq!(r.step(Event::StreamFailed("eof".to_string())), Action::Abort("stream failed: eof".to_string()));
    assert_eq!(r.phase, Phase::Faulted);
}

#[test]
fn ack_failure_faults() {
    let mut r = subscribed("orders", "sub1");
    assert_eq!(r.step(Event::Delivered(9)), Action::Ack(9));
    assert_eq!(r.phase, Phase::Acknowledging(9));
    assert_eq!(r.step(Event::StreamFailed("closed".to_string())), Action::Abort("stream failed: closed".to_string()));
    assert_eq!(r.phase, Phase::Faulted);
}

#[test]
fn no_second_delivery_before_ack_confirmed() {
    let mut r = subscribed("orders", "sub1");
    assert_eq!(r.step(Event::Delivered(1)), Action::Ack(1));
    assert_eq!(r.step(Event::Delivered(2)), Action::Ignore);
    assert_eq!(r.phase, Phase::Acknowledging(1));
    assert_eq!(r.step(Event::Acknowledged), Action::Receive);
}

#[test]
fn events_out_of_turn_are_ignored() {
    let mut r = Runner::new();
    assert_eq!(r.step(Event::Connected), Action::Ignore);
    assert_eq!(r.step(Event::Acknowledged), Action::Ignore);
    assert_eq!(r.phase, Phase::Unconfigured);
}
