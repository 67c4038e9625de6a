use proxy_pulse::config::{
    checker_config_from_settings, checker_config_settings, default_check_targets,
    default_fail_intervals_secs, validate_checker_config, CheckerConfig, CheckerConfigError,
};

fn config(interval: u64, timeout: u64, max: usize, targets: Vec<&str>) -> CheckerConfig {
    CheckerConfig {
        interval_secs: interval,
        timeout_secs: timeout,
        max_concurrent: max,
        targets: targets.into_iter().map(String::from).collect(),
        fail_intervals_secs: default_fail_intervals_secs(),
    }
}

#[test]
fn checker_defaults() {
    let c = CheckerConfig::default();
    assert_eq!(c.interval_secs, 60);
    assert_eq!(c.timeout_secs, 10);
    assert_eq!(c.max_concurrent, 200);
    assert_eq!(c.targets, vec!["https://httpbin.org/ip", "https://www.cloudflare.com/cdn-cgi/trace"]);
    assert_eq!(c.fail_intervals_secs, vec![180, 600, 1800, 3600, 10800, 21600, 43200, 86400, 172800, 172800]);
    assert_eq!(default_check_targets(), c.targets);
}

#[test]
fn stored_settings_round_trip() {
    let c = config(90, 7, 350, vec!["http://a.example/x", "https://b.example/\"q\""]);
    let ws = checker_config_settings(&c).expect("settings");
    let keys: Vec<&str> = ws.iter().map(|w| w.key.as_str()).collect();
    assert_eq!(keys, vec!["checker.interval_secs", "checker.timeout_secs", "checker.max_concurrent", "checker.targets"]);
    assert_eq!(ws[0].value, "90");
    assert_eq!(ws[1].value, "7");
    assert_eq!(ws[2].value, "350");
    assert_eq!(ws[3].value, "[\"http://a.example/x\",\"https://b.example/\\\"q\\\"\"]");
    let back = checker_config_from_settings(Some(&ws[0].value), Some(&ws[1].value), Some(&ws[2].value), Some(&ws[3].value));
    assert_eq!(back.interval_secs, 90);
    assert_eq!(back.timeout_secs, 7);
    assert_eq!(back.max_concurrent, 350);
    assert_eq!(back.targets, c.targets);
}

#[test]
fn settings_fall_back_to_defaults() {
    let c = checker_config_from_settings(None, Some("x"), Some("+12"), None);
    assert_eq!(c.interval_secs, 60);
    assert_eq!(c.timeout_secs, 10);
    assert_eq!(c.max_concurrent, 12);
    assert_eq!(c.targets, default_check_targets());
    let d = checker_config_from_settings(Some("-1"), Some("18446744073709551616"), None, Some("not json"));
    assert_eq!(d.interval_secs, 60);
    assert_eq!(d.timeout_secs, 10);
    assert_eq!(d.max_concurrent, 200);
    assert!(d.targets.is_empty());
}

#[test]
fn checker_config_limits() {
    assert_eq!(validate_checker_config(&config(9, 10, 10, vec!["t"])), Err(CheckerConfigError::IntervalOutOfRange));
    assert_eq!(validate_checker_config(&config(86401, 10, 10, vec!["t"])), Err(CheckerConfigError::IntervalOutOfRange));
    assert_eq!(validate_checker_config(&config(10, 0, 10, vec!["t"])), Err(CheckerConfigError::TimeoutOutOfRange));
    assert_eq!(validate_checker_config(&config(10, 121, 10, vec!["t"])), Err(CheckerConfigError::TimeoutOutOfRange));
    assert_eq!(validate_checker_config(&config(10, 1, 0, vec!["t"])), Err(CheckerConfigError::ConcurrencyOutOfRange));
    assert_eq!(validate_checker_config(&config(10, 1, 10001, vec!["t"])), Err(CheckerConfigError::ConcurrencyOutOfRange));
    assert_eq!(validate_checker_config(&config(86400, 120, 10000, vec![])), Err(CheckerConfigError::NoTargets));
    assert_eq!(validate_checker_config(&config(86400, 120, 10000, vec!["t"])), Ok(()));
    assert_eq!(CheckerConfigError::NoTargets.message(), "At least one target URL is required");
    assert_eq!(CheckerConfigError::IntervalOutOfRange.message(), "interval_secs must be between 10 and 86400");
}
