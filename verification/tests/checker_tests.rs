use proxy_pulse::checker::{
    accepted_country_code, anonymity_body_too_large, anonymity_from_body, anonymity_from_headers,
    check_failure_text, check_status_passes, country_from_answer, country_lookup_urls,
    country_tier, cycle_tally, due_check_limit, metadata_update, needs_detection,
    next_check_delay_secs, protocol_points, proxy_address, proxy_url, AnonymityError,
    CountryService, CountryTier,
};
use proxy_pulse::config::CheckerConfig;

#[test]
fn next_check_after_success_and_failures() {
    let cfg = CheckerConfig::default();
    assert_eq!(next_check_delay_secs(5, true, &cfg), 60);
    assert_eq!(next_check_delay_secs(0, false, &cfg), 180);
    assert_eq!(next_check_delay_secs(1, false, &cfg), 600);
    assert_eq!(next_check_delay_secs(2, false, &cfg), 1800);
    assert_eq!(next_check_delay_secs(3, false, &cfg), 3600);
    assert_eq!(next_check_delay_secs(4, false, &cfg), 10800);
    assert_eq!(next_check_delay_secs(7, false, &cfg), 86400);
    assert_eq!(next_check_delay_secs(8, false, &cfg), 172800);
    assert_eq!(next_check_delay_secs(9, false, &cfg), 172800);
    assert_eq!(next_check_delay_secs(500, false, &cfg), 172800);
    assert_eq!(next_check_delay_secs(-3, false, &cfg), 180);
    let short = CheckerConfig { fail_intervals_secs: vec![0, 5], ..CheckerConfig::default() };
    assert_eq!(next_check_delay_secs(0, false, &short), 1);
    assert_eq!(next_check_delay_secs(1, false, &short), 5);
    assert_eq!(next_check_delay_secs(2, false, &short), 60);
}

#[test]
fn proxy_addressing() {
    assert_eq!(due_check_limit(200), 400);
    assert_eq!(proxy_address("1.2.3.4", 8080), "1.2.3.4:8080");
    assert_eq!(proxy_url("socks5", "1.2.3.4", 1080), "socks5://1.2.3.4:1080");
    assert_eq!(proxy_url("socks4", "1.2.3.4", 1080), "socks4://1.2.3.4:1080");
    assert_eq!(proxy_url("https", "h", 0), "http://h:0");
}

#[test]
fn check_answers() {
    assert!(check_status_passes(200));
    assert!(check_status_passes(302));
    assert!(check_status_passes(399));
    assert!(!check_status_passes(400));
    assert!(!check_status_passes(199));
    assert_eq!(check_failure_text(503), "HTTP 503");
    assert_eq!(cycle_tally(&vec![Some(true), Some(false), None, Some(true)]), (2, 2));
    assert_eq!(cycle_tally(&vec![]), (0, 0));
}

#[test]
fn anonymity_judgement() {
    assert!(anonymity_body_too_large(8193));
    assert!(!anonymity_body_too_large(8192));
    let names = |v: &[&str]| v.iter().map(|s| s.to_string()).collect::<Vec<String>>();
    assert_eq!(anonymity_from_headers(Some(&names(&["Host", "Accept"]))), "elite");
    assert_eq!(anonymity_from_headers(Some(&names(&["Via", "X-Forwarded-For"]))), "transparent");
    assert_eq!(anonymity_from_headers(Some(&names(&["Via"]))), "anonymous");
    assert_eq!(anonymity_from_headers(None), "unknown");
    assert_eq!(anonymity_from_body(br#"{"headers":{"Host":"x","Via":"1.1 p"}}"#), Ok("anonymous"));
    assert_eq!(anonymity_from_body(br#"{"headers":{"X-Forwarded-For":"1.2.3.4"}}"#), Ok("transparent"));
    assert_eq!(anonymity_from_body(br#"{"headers":{"Host":"x"}}"#), Ok("elite"));
    assert_eq!(anonymity_from_body(br#"{"origin":"x"}"#), Ok("unknown"));
    assert_eq!(anonymity_from_body(b"<html>"), Err(AnonymityError::NotJson));
    let big = vec![b' '; 8193];
    assert_eq!(anonymity_from_body(&big), Err(AnonymityError::TooLarge));
}

#[test]
fn metadata_changes() {
    assert!(needs_detection("unknown"));
    assert!(!needs_detection("us"));
    assert_eq!(metadata_update("unknown", "elite", "http", "unknown", "elite"), None);
    assert_eq!(
        metadata_update("unknown", "unknown", "socks5", "de", "elite"),
        Some(("de".to_string(), "elite".to_string(), "socks5".to_string()))
    );
}

#[test]
fn country_answers() {
    assert_eq!(accepted_country_code(true, Some("US")), Some("us".to_string()));
    assert_eq!(accepted_country_code(false, Some("US")), None);
    assert_eq!(accepted_country_code(true, Some("")), None);
    assert_eq!(country_from_answer(CountryService::IpApi, br#"{"status":"success","countryCode":"DE"}"#), Some("de".to_string()));
    assert_eq!(country_from_answer(CountryService::IpApi, br#"{"status":"fail","countryCode":"DE"}"#), None);
    assert_eq!(country_from_answer(CountryService::IpInfo, br#"{"ip":"1.1.1.1","country":"AU"}"#), Some("au".to_string()));
    assert_eq!(country_from_answer(CountryService::IpInfo, br#"{"country":""}"#), None);
    assert_eq!(country_from_answer(CountryService::IpWho, br#"{"success":true,"country_code":"JP"}"#), Some("jp".to_string()));
    assert_eq!(country_from_answer(CountryService::IpWho, br#"{"success":"true","country_code":"JP"}"#), None);
    assert_eq!(country_from_answer(CountryService::IpWho, b"not json"), None);
    let (a, b, c) = country_lookup_urls("8.8.8.8");
    assert_eq!(a, "http://ip-api.com/json/8.8.8.8?fields=status,countryCode");
    assert_eq!(b, "https://ipinfo.io/8.8.8.8/json");
    assert_eq!(c, "https://ipwho.is/8.8.8.8");
}

#[test]
fn score_parts() {
    assert_eq!(country_tier("unknown"), CountryTier::Unknown);
    assert_eq!(country_tier(""), CountryTier::Unknown);
    assert_eq!(country_tier("us"), CountryTier::Tier1);
    assert_eq!(country_tier("kr"), CountryTier::Tier2);
    assert_eq!(country_tier("BG"), CountryTier::Tier3);
    assert_eq!(country_tier("zz"), CountryTier::Other);
    assert_eq!(country_tier("jp"), CountryTier::Tier1);
    assert_eq!(country_tier("Jp"), country_tier("JP"));
    assert_eq!(country_tier("ru"), CountryTier::Tier3);
    assert_eq!(country_tier("UNKNOWN"), CountryTier::Other);
    assert_eq!(CountryTier::Tier1.half_points(), 12);
    assert_eq!(CountryTier::Tier2.half_points(), 9);
    assert_eq!(CountryTier::Other.half_points(), 3);
    assert_eq!(protocol_points("socks5"), 4);
    assert_eq!(protocol_points("https"), 3);
    assert_eq!(protocol_points("socks4"), 2);
    assert_eq!(protocol_points("http"), 1);
    assert_eq!(protocol_points("ftp"), 0);
}
