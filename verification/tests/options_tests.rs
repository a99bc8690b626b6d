use tcping::options::{OptionsError, PingOptions};

#[test]
fn test_zero_timeout_rejected() {
    // tcping localhost 22 -t 0, with the other settings at their defaults
    let result = PingOptions::new("localhost".to_string(), 22, 10, 0, 500);
    assert!(result.is_err());
    let err = result.err().unwrap();
    assert_eq!(err, OptionsError::ZeroTimeout);
    assert!(err.message().contains("Timeout must be greater than 0"));
}

#[test]
fn accepted_options_are_kept() {
    let options = PingOptions::new("localhost".to_string(), 22, 15, 2, 750).ok().unwrap();
    assert_eq!(options.host, "localhost");
    assert_eq!(options.port, 22);
    assert_eq!(options.num_pings, 15);
    assert_eq!(options.timeout_secs, 2);
    assert_eq!(options.interval_ms, 750);
}

#[test]
fn zero_counts_and_interval_are_accepted() {
    let options = PingOptions::new("localhost".to_string(), 22, 0, 1, 0).ok().unwrap();
    assert_eq!(options.num_pings, 0);
    assert_eq!(options.interval_ms, 0);
}
