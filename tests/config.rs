use pulsar_consumer::config::{default_6650, default_localhost, load_config, parse_port, ConfigError, ConsumerConfig};

fn some(s: &str) -> Option<String> {
    Some(s.to_string())
}

#[test]
fn defaults_are_localhost_and_6650() {
    assert_eq!(default_localhost(), "localhost");
    assert_eq!(default_6650(), 6650);
}

#[test]
fn parse_port_reads_decimal() {
    assert_eq!(parse_port("6650"), Some(6650));
    assert_eq!(parse_port("0"), Some(0));
    assert_eq!(parse_port("+12"), Some(12));
    assert_eq!(parse_port("-1"), Some(-1));
    assert_eq!(parse_port("007"), Some(7));
}

#[test]
fn parse_port_takes_the_i32_extremes() {
    assert_eq!(parse_port("2147483647"), Some(i32::MAX));
    assert_eq!(parse_port("-2147483648"), Some(i32::MIN));
    assert_eq!(parse_port("2147483648"), None);
    assert_eq!(parse_port("-2147483649"), None);
    assert_eq!(parse_port("99999999999999999999"), None);
}

#[test]
fn parse_port_rejects_malformed_text() {
    assert_eq!(parse_port(""), None);
    assert_eq!(parse_port("-"), None);
    assert_eq!(parse_port("+"), None);
    assert_eq!(parse_port("12a"), None);
    assert_eq!(parse_port(" 12"), None);
    assert_eq!(parse_port("1-2"), None);
}

#[test]
fn parse_port_agrees_with_std() {
    for text in ["6650", "-0", "+0", "--1", "+-1", "2147483647", "-2147483648", "12 ", "x", "65536"] {
        assert_eq!(parse_port(text), text.parse::<i32>().ok(), "{}", text);
    }
}

#[test]
fn omitted_host_and_port_take_defaults() {
    let c = load_config(None, None, some("orders"), some("sub1")).unwrap();
    assert_eq!(
        c,
        ConsumerConfig {
            host: "localhost".to_string(),
            port: 6650,
            topic: "orders".to_string(),
            subscription_name: "sub1".to_string(),
        }
    );
}

#[test]
fn given_host_and_port_are_kept() {
    let c = load_config(some("broker.local"), some("7000"), some("t"), some("s")).unwrap();
    assert_eq!(c.host, "broker.local");
    assert_eq!(c.port, 7000);
    assert_eq!(c.topic, "t");
    assert_eq!(c.subscription_name, "s");
}

#[test]
fn missing_topic_is_an_error() {
    assert_eq!(load_config(None, None, None, some("sub1")), Err(ConfigError::MissingTopic));
    assert_eq!(load_config(None, None, some(""), some("sub1")), Err(ConfigError::MissingTopic));
}

#[test]
fn missing_subscription_name_is_an_error() {
    assert_eq!(load_config(None, None, some("orders"), None), Err(ConfigError::MissingSubscriptionName));
    assert_eq!(load_config(None, None, some("orders"), some("")), Err(ConfigError::MissingSubscriptionName));
}

#[test]
fn missing_topic_is_reported_before_missing_subscription_name() {
    assert_eq!(load_config(None, None, None, None), Err(ConfigError::MissingTopic));
}

#[test]
fn invalid_port_is_an_error() {
    assert_eq!(load_config(None, some("http"), some("orders"), some("sub1")), Err(ConfigError::InvalidPort));
    assert_eq!(load_config(None, some(""), None, None), Err(ConfigError::InvalidPort));
}

#[test]
fn config_error_messages_name_the_variable() {
    assert_eq!(ConfigError::InvalidPort.message(), "PULSAR_PORT is not a valid port number");
    assert_eq!(ConfigError::MissingTopic.message(), "PULSAR_TOPIC is missing");
    assert_eq!(ConfigError::MissingSubscriptionName.message(), "PULSAR_SUBSCRIPTION_NAME is missing");
}
