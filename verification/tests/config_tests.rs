use channel_gate::config::{
    health_port, parse_u64, ping_interval_secs, ping_url, u64_to_string, DEFAULT_HEALTH_PORT,
    DEFAULT_PING_INTERVAL_SECS,
};
use channel_gate::orchestrator::{first_failure, TaskOutcome};

#[test]
fn parse_u64_reads_plain_decimals() {
    assert_eq!(parse_u64("0"), Some(0));
    assert_eq!(parse_u64("20"), Some(20));
    assert_eq!(parse_u64("+7"), Some(7));
    assert_eq!(parse_u64("007"), Some(7));
    assert_eq!(parse_u64("18446744073709551615"), Some(u64::MAX));
}

#[test]
fn parse_u64_rejects_everything_else() {
    assert_eq!(parse_u64(""), None);
    assert_eq!(parse_u64("+"), None);
    assert_eq!(parse_u64("-1"), None);
    assert_eq!(parse_u64("1x"), None);
    assert_eq!(parse_u64(" 5"), None);
    assert_eq!(parse_u64("18446744073709551616"), None);
    assert_eq!(parse_u64("99999999999999999999999999"), None);
}

#[test]
fn health_port_defaults_on_bad_input() {
    assert_eq!(health_port(None), DEFAULT_HEALTH_PORT);
    assert_eq!(health_port(Some("8080")), 8080);
    assert_eq!(health_port(Some("0")), 0);
    assert_eq!(health_port(Some("65535")), 65535);
    assert_eq!(health_port(Some("65536")), DEFAULT_HEALTH_PORT);
    assert_eq!(health_port(Some("port")), DEFAULT_HEALTH_PORT);
}

#[test]
fn ping_interval_defaults_on_bad_input() {
    assert_eq!(ping_interval_secs(None), DEFAULT_PING_INTERVAL_SECS);
    assert_eq!(ping_interval_secs(Some("5")), 5);
    assert_eq!(ping_interval_secs(Some("soon")), DEFAULT_PING_INTERVAL_SECS);
}

#[test]
fn u64_renders_in_decimal() {
    assert_eq!(u64_to_string(0), "0");
    assert_eq!(u64_to_string(8000), "8000");
    assert_eq!(u64_to_string(12345), "12345");
    assert_eq!(u64_to_string(u64::MAX), "18446744073709551615");
}

#[test]
fn ping_url_prefers_the_configured_target() {
    assert_eq!(ping_url(Some("https://example.com/x"), 8000), "https://example.com/x");
}

#[test]
fn ping_url_defaults_to_the_own_listener() {
    assert_eq!(ping_url(None, 8000), "http://127.0.0.1:8000/");
    assert_eq!(ping_url(None, 443), "http://127.0.0.1:443/");
}

#[test]
fn first_failure_picks_the_first_failed_task() {
    let all_done = vec![
        TaskOutcome::Completed,
        TaskOutcome::Completed,
        TaskOutcome::Completed,
    ];
    assert_eq!(first_failure(&all_done), None);
    let middle = vec![
        TaskOutcome::Completed,
        TaskOutcome::Failed,
        TaskOutcome::Failed,
    ];
    assert_eq!(first_failure(&middle), Some(1));
    assert_eq!(first_failure(&Vec::new()), None);
}
