//! Rules of the health checker: when a proxy is checked next, how a check
//! answer is judged, how a proxy is addressed, what its anonymity and
//! country are taken to be, and the tier and protocol parts of its score.

use vstd::prelude::*;

use crate::config::CheckerConfig;
use crate::text::{chars_of, push_str, push_u64_text, decimal_text, str_equals, string_from_chars};

verus! {

// ---------------------------------------------------------------------
// Scheduling
// ---------------------------------------------------------------------

/// Index into the failure back-off list after a failed check of a proxy
/// that had failed `fail_count` times before: the failure count after this
/// check, minus one, at most 9.
pub open spec fn backoff_index(fail_count: int) -> int {
    if fail_count <= 0 {
        0
    } else if fail_count >= 9 {
        9
    } else {
        fail_count
    }
}

/// Seconds until the next check: the success interval after a success;
/// after a failure, the back-off entry for the failure count (60 when the
/// list is shorter), never less than 1.
pub open spec fn next_check_delay(
    fail_count: int,
    success: bool,
    interval_secs: u64,
    fail_intervals: Seq<u64>,
) -> u64 {
    if success {
        interval_secs
    } else {
        let i = backoff_index(fail_count);
        let secs = if i < fail_intervals.len() { fail_intervals[i] } else { 60u64 };
        if secs < 1 { 1u64 } else { secs }
    }
}

/// Number of finished checks that found the proxy working.
pub open spec fn count_passed(outcomes: Seq<Option<bool>>) -> nat
    decreases outcomes.len(),
{
    if outcomes.len() == 0 {
        0
    } else {
        count_passed(outcomes.drop_last()) + if outcomes.last() == Some(true) {
            1nat
        } else {
            0nat
        }
    }
}

/// Tally of a check cycle from the outcome of each proxy's check
/// (`Some(working)` when the check finished, `None` when its task
/// failed): the proxies found working, and all the others.
pub fn cycle_tally(outcomes: &Vec<Option<bool>>) -> (res: (usize, usize))
    ensures
        res.0 == count_passed(outcomes@),
        res.0 + res.1 == outcomes@.len(),
{
    let mut passed: usize = 0;
    let mut i: usize = 0;
    while i < outcomes.len()
        invariant
            i <= outcomes@.len(),
            passed == count_passed(outcomes@.take(i as int)),
            passed <= i,
        decreases outcomes@.len() - i,
    {
        proof {
            assert(outcomes@.take(i + 1).drop_last() =~= outcomes@.take(i as int));
            assert(outcomes@.take(i + 1).last() == outcomes@[i as int]);
        }
        match outcomes[i] {
            Some(true) => {
                passed = passed + 1;
            },
            _ => {},
        }
        i = i + 1;
    }
    proof {
        assert(outcomes@.take(i as int) =~= outcomes@);
    }
    (passed, outcomes.len() - passed)
}

/// Seconds from now until a proxy is checked again. Success uses the
/// success interval; failure uses the tier given by the historical failure
/// count (which a success never resets).
pub fn next_check_delay_secs(fail_count: i64, success: bool, cfg: &CheckerConfig) -> (res: u64)
    requires
        !success ==> fail_count < i64::MAX,
    ensures
        res == next_check_delay(fail_count as int, success, cfg.interval_secs, cfg.fail_intervals_secs@),
{
    if success {
        cfg.interval_secs
    } else {
        let total = fail_count + 1;
        let idx: usize = if total <= 1 {
            0
        } else if total - 1 >= 9 {
            9
        } else {
            (total - 1) as usize
        };
        let secs = if idx < cfg.fail_intervals_secs.len() {
            cfg.fail_intervals_secs[idx]
        } else {
            60
        };
        if secs < 1 {
            1
        } else {
            secs
        }
    }
}

/// How many due proxies one check cycle fetches: twice the concurrency.
pub fn due_check_limit(max_concurrent: usize) -> (res: i64)
    requires
        max_concurrent as int * 2 <= i64::MAX,
    ensures
        res == max_concurrent as int * 2,
{
    max_concurrent as i64 * 2
}

// ---------------------------------------------------------------------
// Addressing and judging checks
// ---------------------------------------------------------------------

pub open spec fn address_text(ip: Seq<char>, port: u16) -> Seq<char> {
    ip + seq![':'] + decimal_text(port as nat)
}

/// `ip:port`.
pub fn proxy_address(ip: &str, port: u16) -> (res: String)
    ensures
        res@ == address_text(ip@, port),
{
    let mut s = String::new();
    push_str(&mut s, ip);
    push_str(&mut s, ":");
    push_u64_text(&mut s, port as u64);
    proof {
        reveal_strlit(":");
        assert(s@ =~= address_text(ip@, port));
    }
    s
}

pub open spec fn proxy_scheme(protocol: Seq<char>) -> Seq<char> {
    if protocol == "socks5"@ {
        "socks5://"@
    } else if protocol == "socks4"@ {
        "socks4://"@
    } else {
        "http://"@
    }
}

/// The URL through which the checker talks to a proxy: `socks5://` or
/// `socks4://` for those protocols, `http://` for any other.
pub fn proxy_url(protocol: &str, ip: &str, port: u16) -> (res: String)
    ensures
        res@ == proxy_scheme(protocol@) + address_text(ip@, port),
{
    let mut s = String::new();
    if str_equals(protocol, "socks5") {
        push_str(&mut s, "socks5://");
    } else if str_equals(protocol, "socks4") {
        push_str(&mut s, "socks4://");
    } else {
        push_str(&mut s, "http://");
    }
    let a = proxy_address(ip, port);
    push_str(&mut s, a.as_str());
    proof {
        assert(s@ =~= proxy_scheme(protocol@) + address_text(ip@, port));
    }
    s
}

/// A check through a proxy passes on any 2xx or 3xx answer.
pub fn check_status_passes(status: u16) -> (res: bool)
    ensures
        res == (200 <= status <= 399),
{
    200 <= status && status <= 399
}

/// The failure recorded for any other answer: `HTTP {status}`.
pub fn check_failure_text(status: u16) -> (res: String)
    ensures
        res@ == "HTTP "@ + decimal_text(status as nat),
{
    let mut s = String::new();
    push_str(&mut s, "HTTP ");
    push_u64_text(&mut s, status as u64);
    proof {
        assert(s@ =~= "HTTP "@ + decimal_text(status as nat));
    }
    s
}

// ---------------------------------------------------------------------
// Metadata
// ---------------------------------------------------------------------

/// Largest answer accepted from the header echo service.
pub const ANONYMITY_BODY_LIMIT: usize = 8192;

/// An echo answer longer than the limit is refused.
pub fn anonymity_body_too_large(len: usize) -> (res: bool)
    ensures
        res == (len > 8192),
{
    len > ANONYMITY_BODY_LIMIT
}

pub open spec fn names_view(v: Seq<String>) -> Seq<Seq<char>> {
    v.map_values(|s: String| s@)
}

pub open spec fn anonymity_of(headers: Option<Seq<Seq<char>>>) -> Seq<char> {
    match headers {
        None => "unknown"@,
        Some(names) => {
            let has_via = names.contains("Via"@);
            let has_forwarded = names.contains("X-Forwarded-For"@);
            if !has_via && !has_forwarded {
                "elite"@
            } else if has_forwarded {
                "transparent"@
            } else {
                "anonymous"@
            }
        },
    }
}

fn contains_name(names: &Vec<String>, name: &str) -> (res: bool)
    ensures
        res == names_view(names@).contains(name@),
{
    let mut i: usize = 0;
    while i < names.len()
        invariant
            i <= names@.len(),
            forall|j: int| 0 <= j < i ==> names@[j]@ != name@,
        decreases names@.len() - i,
    {
        if str_equals(names[i].as_str(), name) {
            proof {
                assert(names_view(names@)[i as int] == name@);
            }
            return true;
        }
        i = i + 1;
    }
    proof {
        if names_view(names@).contains(name@) {
            let k = choose|k: int| 0 <= k < names_view(names@).len() && names_view(names@)[k]
                == name@;
            assert(names@[k]@ == name@);
        }
    }
    false
}

pub open spec fn opt_names(headers: Option<&Vec<String>>) -> Option<Seq<Seq<char>>> {
    match headers {
        Some(v) => Some(names_view(v@)),
        None => None,
    }
}

/// Anonymity judged from the request headers a proxy forwarded (the header
/// names the echo service saw; `None` when its answer had no header object):
/// `elite` without `Via` and `X-Forwarded-For`, `transparent` with
/// `X-Forwarded-For`, `anonymous` with `Via` alone.
pub fn anonymity_from_headers(headers: Option<&Vec<String>>) -> (res: &'static str)
    ensures
        res@ == anonymity_of(opt_names(headers)),
{
    match headers {
        None => "unknown",
        Some(names) => {
            let has_via = contains_name(names, "Via");
            let has_forwarded = contains_name(names, "X-Forwarded-For");
            if !has_via && !has_forwarded {
                "elite"
            } else if has_forwarded {
                "transparent"
            } else {
                "anonymous"
            }
        },
    }
}

/// Metadata is looked up only while it is still `unknown`.
pub fn needs_detection(value: &str) -> (res: bool)
    ensures
        res == (value@ == "unknown"@),
{
    str_equals(value, "unknown")
}

/// The metadata to store after detection: `Some((country, anonymity,
/// protocol))` exactly when one of them differs from what is stored.
pub fn metadata_update(
    country: &str,
    anonymity: &str,
    protocol: &str,
    detected_country: &str,
    detected_anonymity: &str,
) -> (res: Option<(String, String, String)>)
    ensures
        match res {
            Some((c, a, p)) => (detected_country@ != country@ || detected_anonymity@
                != anonymity@) && c@ == detected_country@ && a@ == detected_anonymity@ && p@
                == protocol@,
            None => detected_country@ == country@ && detected_anonymity@ == anonymity@,
        },
{
    if !str_equals(detected_anonymity, anonymity) || !str_equals(detected_country, country) {
        Some((
            string_from_chars(chars_of(detected_country).as_slice()),
            string_from_chars(chars_of(detected_anonymity).as_slice()),
            string_from_chars(chars_of(protocol).as_slice()),
        ))
    } else {
        None
    }
}

/// What `str::to_lowercase` gives for a text.
pub uninterp spec fn lowercase(s: Seq<char>) -> Seq<char>;

/// What `str::to_uppercase` gives for a text.
pub uninterp spec fn uppercase(s: Seq<char>) -> Seq<char>;

pub open spec fn is_ascii_text(s: Seq<char>) -> bool {
    forall|i: int| 0 <= i < s.len() ==> (#[trigger] s[i] as u32) < 128
}

pub open spec fn ascii_upper(c: char) -> char {
    if 'a' <= c && c <= 'z' {
        ((c as u32) - 32) as char
    } else {
        c
    }
}

/// `str::to_lowercase` (Unicode lower case). The contract claims that the
/// result is determined by the text, and that an ASCII text has its
/// letters `A`-`Z` lowered and everything else kept, as the documentation
/// of Unicode case mapping gives for ASCII.
#[verifier::external_body]
fn to_lowercase(s: &str) -> (res: String)
    ensures
        res@ == lowercase(s@),
        is_ascii_text(s@) ==> res@ == s@.map_values(|c: char| crate::query::ascii_lower(c)),
{
    s.to_lowercase()
}

/// `str::to_uppercase` (Unicode upper case). The contract claims that the
/// result is determined by the text, and that an ASCII text has its
/// letters `a`-`z` raised and everything else kept.
#[verifier::external_body]
fn to_uppercase(s: &str) -> (res: String)
    ensures
        res@ == uppercase(s@),
        is_ascii_text(s@) ==> res@ == s@.map_values(|c: char| ascii_upper(c)),
{
    s.to_uppercase()
}

/// The country code a lookup service returned, lower-cased, when the
/// service reports success (`accepted`) and the code is not empty.
pub fn accepted_country_code(accepted: bool, code: Option<&str>) -> (res: Option<String>)
    ensures
        match res {
            Some(c) => accepted && code is Some && code.unwrap()@.len() > 0 && c@ == lowercase(
                code.unwrap()@,
            ),
            None => !accepted || code is None || code.unwrap()@.len() == 0,
        },
{
    if !accepted {
        return None;
    }
    match code {
        Some(c) => {
            if c.is_empty() {
                None
            } else {
                Some(to_lowercase(c))
            }
        },
        None => None,
    }
}

/// What `serde_json` reads from an answer body at member `key` of the
/// top-level object, when that member is a string: `None` when the body is
/// not JSON, has no such member, or it is not a string.
pub uninterp spec fn json_str_at(body: Seq<u8>, key: Seq<char>) -> Option<Seq<char>>;

/// As `json_str_at`, for a member that is a boolean.
pub uninterp spec fn json_bool_at(body: Seq<u8>, key: Seq<char>) -> Option<bool>;

/// `serde_json::from_slice::<serde_json::Value>`, then `get(key)` and
/// `as_str`. The contract claims only that the result is a function of the
/// body and the key.
#[verifier::external_body]
fn json_string_member(body: &[u8], key: &str) -> (res: Option<String>)
    ensures
        match res {
            Some(v) => json_str_at(body@, key@) == Some(v@),
            None => json_str_at(body@, key@) is None,
        },
{
    match serde_json::from_slice::<serde_json::Value>(body) {
        Ok(v) => v.get(key).and_then(serde_json::Value::as_str).map(String::from),
        Err(_) => None,
    }
}

/// `serde_json::from_slice::<serde_json::Value>`, then `get(key)` and
/// `as_bool`. The contract claims only that the result is a function of the
/// body and the key.
#[verifier::external_body]
fn json_bool_member(body: &[u8], key: &str) -> (res: Option<bool>)
    ensures
        res == json_bool_at(body@, key@),
{
    match serde_json::from_slice::<serde_json::Value>(body) {
        Ok(v) => v.get(key).and_then(serde_json::Value::as_bool),
        Err(_) => None,
    }
}

/// The services asked for the country of a proxy's address, in the order
/// they are tried.
#[derive(Debug, PartialEq, Eq, Structural, Clone, Copy)]
pub enum CountryService {
    /// `ip-api.com`: `status` is `success`, the code is `countryCode`.
    IpApi,
    /// `ipinfo.io`: the code is `country`.
    IpInfo,
    /// `ipwho.is`: `success` is true, the code is `country_code`.
    IpWho,
}

pub open spec fn accepted_code(accepted: bool, code: Option<Seq<char>>) -> Option<Seq<char>> {
    match code {
        Some(c) => if accepted && c.len() > 0 {
            Some(lowercase(c))
        } else {
            None
        },
        None => None,
    }
}

/// The country code a service's answer gives, lower-cased; `None` when
/// the answer does not report one.
pub open spec fn country_answer(service: CountryService, body: Seq<u8>) -> Option<Seq<char>> {
    match service {
        CountryService::IpApi => accepted_code(
            json_str_at(body, "status"@) == Some("success"@),
            json_str_at(body, "countryCode"@),
        ),
        CountryService::IpInfo => accepted_code(true, json_str_at(body, "country"@)),
        CountryService::IpWho => accepted_code(
            json_bool_at(body, "success"@) == Some(true),
            json_str_at(body, "country_code"@),
        ),
    }
}

/// Reads a country service's answer body.
pub fn country_from_answer(service: CountryService, body: &[u8]) -> (res: Option<String>)
    ensures
        match res {
            Some(c) => country_answer(service, body@) == Some(c@),
            None => country_answer(service, body@) is None,
        },
{
    let (accepted, code) = match service {
        CountryService::IpApi => {
            let status = json_string_member(body, "status");
            let ok = match &status {
                Some(s) => str_equals(s.as_str(), "success"),
                None => false,
            };
            (ok, json_string_member(body, "countryCode"))
        },
        CountryService::IpInfo => (true, json_string_member(body, "country")),
        CountryService::IpWho => {
            let ok = match json_bool_member(body, "success") {
                Some(b) => b,
                None => false,
            };
            (ok, json_string_member(body, "country_code"))
        },
    };
    match &code {
        Some(c) => accepted_country_code(accepted, Some(c.as_str())),
        None => None,
    }
}

/// What `serde_json` reads from the header echo's answer: the names of
/// the members of its `headers` object (in the order the crate keeps
/// them); `Some(None)` when there is no such object, `None` when the body
/// is not JSON.
pub uninterp spec fn json_header_names(body: Seq<u8>) -> Option<Option<Seq<Seq<char>>>>;

/// `serde_json::from_slice::<serde_json::Value>`, then the keys of the
/// `headers` member when it is an object. The contract claims only that
/// the result is a function of the body.
#[verifier::external_body]
fn header_names_of(body: &[u8]) -> (res: Option<Option<Vec<String>>>)
    ensures
        match res {
            Some(Some(v)) => json_header_names(body@) == Some(Some(names_view(v@))),
            Some(None) => json_header_names(body@) == Some(None::<Seq<Seq<char>>>),
            None => json_header_names(body@) is None,
        },
{
    match serde_json::from_slice::<serde_json::Value>(body) {
        Ok(v) => match v.get("headers") {
            Some(serde_json::Value::Object(o)) => Some(Some(o.keys().cloned().collect())),
            _ => Some(None),
        },
        Err(_) => None,
    }
}

/// Why the anonymity of a proxy could not be judged.
#[derive(Debug, PartialEq, Eq, Structural, Clone, Copy)]
pub enum AnonymityError {
    /// The echo's answer is larger than 8192 bytes.
    TooLarge,
    /// The echo's answer is not JSON.
    NotJson,
}

/// Anonymity from the header echo's answer body: refused above 8192
/// bytes or when not JSON; else judged from the forwarded header names
/// (`unknown` without a header object).
pub fn anonymity_from_body(body: &[u8]) -> (res: Result<&'static str, AnonymityError>)
    ensures
        body@.len() > 8192 ==> res == Err::<&'static str, AnonymityError>(AnonymityError::TooLarge),
        body@.len() <= 8192 ==> match json_header_names(body@) {
            None => res == Err::<&'static str, AnonymityError>(AnonymityError::NotJson),
            Some(h) => res matches Ok(a) && a@ == anonymity_of(h),
        },
{
    if anonymity_body_too_large(body.len()) {
        return Err(AnonymityError::TooLarge);
    }
    match header_names_of(body) {
        None => Err(AnonymityError::NotJson),
        Some(None) => Ok(anonymity_from_headers(None)),
        Some(Some(names)) => Ok(anonymity_from_headers(Some(&names))),
    }
}

/// Lookup URLs of the three country services, in the order they are tried.
pub fn country_lookup_urls(ip: &str) -> (res: (String, String, String))
    ensures
        res.0@ == "http://ip-api.com/json/"@ + ip@ + "?fields=status,countryCode"@,
        res.1@ == "https://ipinfo.io/"@ + ip@ + "/json"@,
        res.2@ == "https://ipwho.is/"@ + ip@,
{
    let mut a = String::new();
    push_str(&mut a, "http://ip-api.com/json/");
    push_str(&mut a, ip);
    push_str(&mut a, "?fields=status,countryCode");
    let mut b = String::new();
    push_str(&mut b, "https://ipinfo.io/");
    push_str(&mut b, ip);
    push_str(&mut b, "/json");
    let mut c = String::new();
    push_str(&mut c, "https://ipwho.is/");
    push_str(&mut c, ip);
    proof {
        assert(a@ =~= "http://ip-api.com/json/"@ + ip@ + "?fields=status,countryCode"@);
        assert(b@ =~= "https://ipinfo.io/"@ + ip@ + "/json"@);
        assert(c@ =~= "https://ipwho.is/"@ + ip@);
    }
    (a, b, c)
}

// ---------------------------------------------------------------------
// Score parts
// ---------------------------------------------------------------------

/// Country ranking used by the health score.
#[derive(Debug, PartialEq, Eq, Structural, Clone, Copy)]
pub enum CountryTier {
    /// `unknown` or empty: 0 points.
    Unknown,
    /// Major datacenter and premium regions: 6 points.
    Tier1,
    /// Solid infrastructure: 4.5 points.
    Tier2,
    /// Decent regions: 3 points.
    Tier3,
    /// Known but unlisted: 1.5 points.
    Other,
}

pub open spec fn tier1_codes() -> Seq<Seq<char>> {
    seq![
        "US"@, "GB"@, "DE"@, "JP"@, "SG"@, "NL"@, "CA"@, "AU"@, "FR"@, "SE"@, "CH"@, "IE"@,
        "FI"@, "NO"@, "DK"@,
    ]
}

pub open spec fn tier2_codes() -> Seq<Seq<char>> {
    seq![
        "KR"@, "TW"@, "HK"@, "IT"@, "ES"@, "BR"@, "IN"@, "PL"@, "CZ"@, "RO"@, "AT"@, "BE"@,
        "NZ"@, "IL"@, "ZA"@,
    ]
}

pub open spec fn tier3_codes() -> Seq<Seq<char>> {
    seq![
        "RU"@, "UA"@, "TR"@, "MX"@, "AR"@, "CL"@, "CO"@, "TH"@, "VN"@, "ID"@, "PH"@, "MY"@,
        "PT"@, "GR"@, "HU"@, "BG"@,
    ]
}

/// The tier of a country code, given its upper-cased form: `unknown` or
/// empty, else the first list that holds the upper-cased code.
pub open spec fn tier_by_upper(country: Seq<char>, upper: Seq<char>) -> CountryTier {
    if country == "unknown"@ || country.len() == 0 {
        CountryTier::Unknown
    } else if tier1_codes().contains(upper) {
        CountryTier::Tier1
    } else if tier2_codes().contains(upper) {
        CountryTier::Tier2
    } else if tier3_codes().contains(upper) {
        CountryTier::Tier3
    } else {
        CountryTier::Other
    }
}

/// The tier of a country code (compared upper-cased).
pub open spec fn tier_of(country: Seq<char>) -> CountryTier {
    tier_by_upper(country, uppercase(country))
}

/// An ASCII text with its letters `a`-`z` raised.
pub open spec fn ascii_upper_text(s: Seq<char>) -> Seq<char> {
    s.map_values(|c: char| ascii_upper(c))
}

pub open spec fn strs_view(v: Seq<&str>) -> Seq<Seq<char>> {
    v.map_values(|s: &str| s@)
}

fn in_list(s: &str, list: &[&str]) -> (res: bool)
    ensures
        res == strs_view(list@).contains(s@),
{
    let mut i: usize = 0;
    while i < list.len()
        invariant
            i <= list@.len(),
            forall|j: int| 0 <= j < i ==> list@[j]@ != s@,
        decreases list@.len() - i,
    {
        if str_equals(list[i], s) {
            proof {
                assert(strs_view(list@)[i as int] == s@);
            }
            return true;
        }
        i = i + 1;
    }
    proof {
        if strs_view(list@).contains(s@) {
            let k = choose|k: int| 0 <= k < strs_view(list@).len() && strs_view(list@)[k] == s@;
            assert(list@[k]@ == s@);
        }
    }
    false
}

/// Tier of a country code for the score.
pub fn country_tier(country: &str) -> (res: CountryTier)
    ensures
        res == tier_of(country@),
        is_ascii_text(country@) ==> res == tier_by_upper(country@, ascii_upper_text(country@)),
{
    if str_equals(country, "unknown") || country.is_empty() {
        return CountryTier::Unknown;
    }
    let tier1: [&str; 15] = [
        "US", "GB", "DE", "JP", "SG", "NL", "CA", "AU", "FR", "SE", "CH", "IE", "FI", "NO", "DK",
    ];
    let tier2: [&str; 15] = [
        "KR", "TW", "HK", "IT", "ES", "BR", "IN", "PL", "CZ", "RO", "AT", "BE", "NZ", "IL", "ZA",
    ];
    let tier3: [&str; 16] = [
        "RU", "UA", "TR", "MX", "AR", "CL", "CO", "TH", "VN", "ID", "PH", "MY", "PT", "GR", "HU",
        "BG",
    ];
    proof {
        assert(strs_view(tier1@) =~= tier1_codes());
        assert(strs_view(tier2@) =~= tier2_codes());
        assert(strs_view(tier3@) =~= tier3_codes());
    }
    let code = to_uppercase(country);
    if in_list(code.as_str(), tier1.as_slice()) {
        CountryTier::Tier1
    } else if in_list(code.as_str(), tier2.as_slice()) {
        CountryTier::Tier2
    } else if in_list(code.as_str(), tier3.as_slice()) {
        CountryTier::Tier3
    } else {
        CountryTier::Other
    }
}

impl CountryTier {
    /// Score points of the tier, in half points (6, 4.5, 3, 1.5, 0 points).
    pub fn half_points(&self) -> (res: u32)
        ensures
            res == match self {
                CountryTier::Unknown => 0u32,
                CountryTier::Tier1 => 12u32,
                CountryTier::Tier2 => 9u32,
                CountryTier::Tier3 => 6u32,
                CountryTier::Other => 3u32,
            },
    {
        match self {
            CountryTier::Unknown => 0,
            CountryTier::Tier1 => 12,
            CountryTier::Tier2 => 9,
            CountryTier::Tier3 => 6,
            CountryTier::Other => 3,
        }
    }
}

pub open spec fn protocol_points_of(protocol: Seq<char>) -> u32 {
    if protocol == "socks5"@ {
        4
    } else if protocol == "https"@ {
        3
    } else if protocol == "socks4"@ {
        2
    } else if protocol == "http"@ {
        1
    } else {
        0
    }
}

/// Score points of a proxy type: the more versatile and secure, the
/// higher (socks5 4, https 3, socks4 2, http 1, other 0).
pub fn protocol_points(protocol: &str) -> (res: u32)
    ensures
        res == protocol_points_of(protocol@),
{
    if str_equals(protocol, "socks5") {
        4
    } else if str_equals(protocol, "https") {
        3
    } else if str_equals(protocol, "socks4") {
        2
    } else if str_equals(protocol, "http") {
        1
    } else {
        0
    }
}

/// With the default failure back-off, a proxy that keeps failing waits
/// longer and longer: the delay never shrinks as failures accumulate, and
/// it stays within 3 minutes and 48 hours.
pub proof fn law_default_backoff_grows(f1: int, f2: int, interval_secs: u64)
    requires
        f1 <= f2,
    ensures
        next_check_delay(f1, false, interval_secs, crate::config::default_fail_intervals())
            <= next_check_delay(f2, false, interval_secs, crate::config::default_fail_intervals()),
        180 <= next_check_delay(f1, false, interval_secs, crate::config::default_fail_intervals())
            <= 172800,
{
    let d = crate::config::default_fail_intervals();
    assert(d[0] == 180 && d[1] == 600 && d[2] == 1800 && d[3] == 3600 && d[4] == 10800);
    assert(d[5] == 21600 && d[6] == 43200 && d[7] == 86400 && d[8] == 172800 && d[9] == 172800);
}

/// After a success the next check comes after the success interval,
/// whatever the failure history.
pub proof fn law_success_resets_wait(f1: int, f2: int, interval_secs: u64, fail_intervals: Seq<u64>)
    ensures
        next_check_delay(f1, true, interval_secs, fail_intervals) == next_check_delay(
            f2,
            true,
            interval_secs,
            fail_intervals,
        ),
        next_check_delay(f1, true, interval_secs, fail_intervals) == interval_secs,
{
}


/// A country code's tier does not change when the code is upper-cased
/// (for an ASCII code other than `unknown`, which alone ranks apart from
/// its upper-cased form): `jp` ranks as `JP`, `ru` as `RU`.
pub proof fn law_tier_ignores_case(country: Seq<char>)
    requires
        is_ascii_text(country),
        country != "unknown"@,
        country.len() > 0,
    ensures
        is_ascii_text(ascii_upper_text(country)),
        tier_by_upper(country, ascii_upper_text(country)) == tier_by_upper(
            ascii_upper_text(country),
            ascii_upper_text(ascii_upper_text(country)),
        ),
{
    reveal_strlit("unknown");
    let up = ascii_upper_text(country);
    assert forall|i: int| 0 <= i < up.len() implies (#[trigger] up[i] as u32) < 128 && ascii_upper(up[i]) == up[i]
        && !('a' <= up[i] && up[i] <= 'z') by {
        assert(up[i] == ascii_upper(country[i]));
        assert((country[i] as u32) < 128);
    }
    assert(ascii_upper_text(up) =~= up);
    assert(up[0] != 'u');
    assert(up != "unknown"@);
}


/// With any failure back-off list of at least ten entries in ascending
/// order, a proxy that keeps failing never waits less as failures
/// accumulate, waits the same from its ninth failure on, and always waits
/// at least a second.
pub proof fn law_sorted_backoff_grows(f1: int, f2: int, interval_secs: u64, fail_intervals: Seq<u64>)
    requires
        f1 <= f2,
        fail_intervals.len() >= 10,
        forall|i: int, j: int|
            0 <= i <= j < fail_intervals.len() ==> fail_intervals[i] <= fail_intervals[j],
    ensures
        next_check_delay(f1, false, interval_secs, fail_intervals) <= next_check_delay(
            f2,
            false,
            interval_secs,
            fail_intervals,
        ),
        f1 >= 9 ==> next_check_delay(f1, false, interval_secs, fail_intervals) == next_check_delay(
            f2,
            false,
            interval_secs,
            fail_intervals,
        ),
        next_check_delay(f1, false, interval_secs, fail_intervals) >= 1,
{
    let i1 = backoff_index(f1);
    let i2 = backoff_index(f2);
    assert(0 <= i1 <= i2 < 10);
    assert(fail_intervals[i1] <= fail_intervals[i2]);
}


/// After a failed check, the wait is the back-off entry numbered by the
/// failures counted after that check, from the first: a proxy that had
/// failed `f` times before (0 to 8) waits entry `f`, one that had failed 9
/// times or more waits entry 9, and a negative count counts as none. An
/// entry of 0 waits 1 second; a list too short for the entry waits 60.
pub proof fn law_backoff_entry_for_failure_count(
    f: int,
    interval_secs: u64,
    fail_intervals: Seq<u64>,
)
    ensures
        0 <= f <= 9 && f < fail_intervals.len() ==> next_check_delay(
            f,
            false,
            interval_secs,
            fail_intervals,
        ) == if fail_intervals[f] == 0 {
            1
        } else {
            fail_intervals[f]
        },
        f >= 9 && fail_intervals.len() >= 10 ==> next_check_delay(
            f,
            false,
            interval_secs,
            fail_intervals,
        ) == if fail_intervals[9] == 0 {
            1
        } else {
            fail_intervals[9]
        },
        f < 0 && fail_intervals.len() >= 1 ==> next_check_delay(
            f,
            false,
            interval_secs,
            fail_intervals,
        ) == if fail_intervals[0] == 0 {
            1
        } else {
            fail_intervals[0]
        },
        0 <= f <= 9 && f >= fail_intervals.len() ==> next_check_delay(
            f,
            false,
            interval_secs,
            fail_intervals,
        ) == 60,
{
}




/// A number standing for a two-character code: equal codes have equal
/// numbers.
spec fn code_key(s: Seq<char>) -> int {
    (s[0] as int) * 0x110000 + (s[1] as int)
}

proof fn lemma_code_keys()
    ensures
        code_key("US"@) == 85 * 0x110000 + 83,
        code_key("GB"@) == 71 * 0x110000 + 66,
        code_key("DE"@) == 68 * 0x110000 + 69,
        code_key("JP"@) == 74 * 0x110000 + 80,
        code_key("SG"@) == 83 * 0x110000 + 71,
        code_key("NL"@) == 78 * 0x110000 + 76,
        code_key("CA"@) == 67 * 0x110000 + 65,
        code_key("AU"@) == 65 * 0x110000 + 85,
        code_key("FR"@) == 70 * 0x110000 + 82,
        code_key("SE"@) == 83 * 0x110000 + 69,
        code_key("CH"@) == 67 * 0x110000 + 72,
        code_key("IE"@) == 73 * 0x110000 + 69,
        code_key("FI"@) == 70 * 0x110000 + 73,
        code_key("NO"@) == 78 * 0x110000 + 79,
        code_key("DK"@) == 68 * 0x110000 + 75,
        code_key("KR"@) == 75 * 0x110000 + 82,
        code_key("TW"@) == 84 * 0x110000 + 87,
        code_key("HK"@) == 72 * 0x110000 + 75,
        code_key("IT"@) == 73 * 0x110000 + 84,
        code_key("ES"@) == 69 * 0x110000 + 83,
        code_key("BR"@) == 66 * 0x110000 + 82,
        code_key("IN"@) == 73 * 0x110000 + 78,
        code_key("PL"@) == 80 * 0x110000 + 76,
        code_key("CZ"@) == 67 * 0x110000 + 90,
        code_key("RO"@) == 82 * 0x110000 + 79,
        code_key("AT"@) == 65 * 0x110000 + 84,
        code_key("BE"@) == 66 * 0x110000 + 69,
        code_key("NZ"@) == 78 * 0x110000 + 90,
        code_key("IL"@) == 73 * 0x110000 + 76,
        code_key("ZA"@) == 90 * 0x110000 + 65,
        code_key("RU"@) == 82 * 0x110000 + 85,
        code_key("UA"@) == 85 * 0x110000 + 65,
        code_key("TR"@) == 84 * 0x110000 + 82,
        code_key("MX"@) == 77 * 0x110000 + 88,
        code_key("AR"@) == 65 * 0x110000 + 82,
        code_key("CL"@) == 67 * 0x110000 + 76,
        code_key("CO"@) == 67 * 0x110000 + 79,
        code_key("TH"@) == 84 * 0x110000 + 72,
        code_key("VN"@) == 86 * 0x110000 + 78,
        code_key("ID"@) == 73 * 0x110000 + 68,
        code_key("PH"@) == 80 * 0x110000 + 72,
        code_key("MY"@) == 77 * 0x110000 + 89,
        code_key("PT"@) == 80 * 0x110000 + 84,
        code_key("GR"@) == 71 * 0x110000 + 82,
        code_key("HU"@) == 72 * 0x110000 + 85,
        code_key("BG"@) == 66 * 0x110000 + 71,
{
    reveal_strlit("US");
    reveal_strlit("GB");
    reveal_strlit("DE");
    reveal_strlit("JP");
    reveal_strlit("SG");
    reveal_strlit("NL");
    reveal_strlit("CA");
    reveal_strlit("AU");
    reveal_strlit("FR");
    reveal_strlit("SE");
    reveal_strlit("CH");
    reveal_strlit("IE");
    reveal_strlit("FI");
    reveal_strlit("NO");
    reveal_strlit("DK");
    reveal_strlit("KR");
    reveal_strlit("TW");
    reveal_strlit("HK");
    reveal_strlit("IT");
    reveal_strlit("ES");
    reveal_strlit("BR");
    reveal_strlit("IN");
    reveal_strlit("PL");
    reveal_strlit("CZ");
    reveal_strlit("RO");
    reveal_strlit("AT");
    reveal_strlit("BE");
    reveal_strlit("NZ");
    reveal_strlit("IL");
    reveal_strlit("ZA");
    reveal_strlit("RU");
    reveal_strlit("UA");
    reveal_strlit("TR");
    reveal_strlit("MX");
    reveal_strlit("AR");
    reveal_strlit("CL");
    reveal_strlit("CO");
    reveal_strlit("TH");
    reveal_strlit("VN");
    reveal_strlit("ID");
    reveal_strlit("PH");
    reveal_strlit("MY");
    reveal_strlit("PT");
    reveal_strlit("GR");
    reveal_strlit("HU");
    reveal_strlit("BG");
}

/// A code in `tier1_codes` has the number of one of its entries.
proof fn lemma_tier1_members(u: Seq<char>)
    ensures
        tier1_codes().contains(u) ==> (code_key(u) == 85 * 0x110000 + 83 || code_key(u) == 71 * 0x110000 + 66 || code_key(u) == 68 * 0x110000 + 69 || code_key(u) == 74 * 0x110000 + 80 || code_key(u) == 83 * 0x110000 + 71 || code_key(u) == 78 * 0x110000 + 76 || code_key(u) == 67 * 0x110000 + 65 || code_key(u) == 65 * 0x110000 + 85 || code_key(u) == 70 * 0x110000 + 82 || code_key(u) == 83 * 0x110000 + 69 || code_key(u) == 67 * 0x110000 + 72 || code_key(u) == 73 * 0x110000 + 69 || code_key(u) == 70 * 0x110000 + 73 || code_key(u) == 78 * 0x110000 + 79 || code_key(u) == 68 * 0x110000 + 75),
{
    lemma_code_keys();
    if tier1_codes().contains(u) {
        let k = choose|k: int| 0 <= k < tier1_codes().len() && tier1_codes()[k] == u;
        assert(k == 0 || k == 1 || k == 2 || k == 3 || k == 4 || k == 5 || k == 6 || k == 7 || k == 8 || k == 9 || k == 10 || k == 11 || k == 12 || k == 13 || k == 14);
    }
}

/// A code in `tier2_codes` has the number of one of its entries.
proof fn lemma_tier2_members(u: Seq<char>)
    ensures
        tier2_codes().contains(u) ==> (code_key(u) == 75 * 0x110000 + 82 || code_key(u) == 84 * 0x110000 + 87 || code_key(u) == 72 * 0x110000 + 75 || code_key(u) == 73 * 0x110000 + 84 || code_key(u) == 69 * 0x110000 + 83 || code_key(u) == 66 * 0x110000 + 82 || code_key(u) == 73 * 0x110000 + 78 || code_key(u) == 80 * 0x110000 + 76 || code_key(u) == 67 * 0x110000 + 90 || code_key(u) == 82 * 0x110000 + 79 || code_key(u) == 65 * 0x110000 + 84 || code_key(u) == 66 * 0x110000 + 69 || code_key(u) == 78 * 0x110000 + 90 || code_key(u) == 73 * 0x110000 + 76 || code_key(u) == 90 * 0x110000 + 65),
{
    lemma_code_keys();
    if tier2_codes().contains(u) {
        let k = choose|k: int| 0 <= k < tier2_codes().len() && tier2_codes()[k] == u;
        assert(k == 0 || k == 1 || k == 2 || k == 3 || k == 4 || k == 5 || k == 6 || k == 7 || k == 8 || k == 9 || k == 10 || k == 11 || k == 12 || k == 13 || k == 14);
    }
}

/// A known country code whose upper-cased form is one of US, GB, DE, JP, SG,
/// NL, CA, AU, FR, SE, CH, IE, FI, NO, DK is in the first tier (6 points).
pub proof fn law_tier1_countries(country: Seq<char>)
    requires
        country.len() > 0,
        country != "unknown"@,
    ensures
        tier_by_upper(country, "US"@) == CountryTier::Tier1,
        tier_by_upper(country, "GB"@) == CountryTier::Tier1,
        tier_by_upper(country, "DE"@) == CountryTier::Tier1,
        tier_by_upper(country, "JP"@) == CountryTier::Tier1,
        tier_by_upper(country, "SG"@) == CountryTier::Tier1,
        tier_by_upper(country, "NL"@) == CountryTier::Tier1,
        tier_by_upper(country, "CA"@) == CountryTier::Tier1,
        tier_by_upper(country, "AU"@) == CountryTier::Tier1,
        tier_by_upper(country, "FR"@) == CountryTier::Tier1,
        tier_by_upper(country, "SE"@) == CountryTier::Tier1,
        tier_by_upper(country, "CH"@) == CountryTier::Tier1,
        tier_by_upper(country, "IE"@) == CountryTier::Tier1,
        tier_by_upper(country, "FI"@) == CountryTier::Tier1,
        tier_by_upper(country, "NO"@) == CountryTier::Tier1,
        tier_by_upper(country, "DK"@) == CountryTier::Tier1,
{
    lemma_code_keys();
    assert(tier1_codes()[0] == "US"@);
    assert(tier1_codes()[1] == "GB"@);
    assert(tier1_codes()[2] == "DE"@);
    assert(tier1_codes()[3] == "JP"@);
    assert(tier1_codes()[4] == "SG"@);
    assert(tier1_codes()[5] == "NL"@);
    assert(tier1_codes()[6] == "CA"@);
    assert(tier1_codes()[7] == "AU"@);
    assert(tier1_codes()[8] == "FR"@);
    assert(tier1_codes()[9] == "SE"@);
    assert(tier1_codes()[10] == "CH"@);
    assert(tier1_codes()[11] == "IE"@);
    assert(tier1_codes()[12] == "FI"@);
    assert(tier1_codes()[13] == "NO"@);
    assert(tier1_codes()[14] == "DK"@);
}

/// A known country code whose upper-cased form is one of KR, TW, HK, IT, ES,
/// BR, IN, PL, CZ, RO, AT, BE, NZ, IL, ZA is in the second tier (4.5
/// points).
pub proof fn law_tier2_countries(country: Seq<char>)
    requires
        country.len() > 0,
        country != "unknown"@,
    ensures
        tier_by_upper(country, "KR"@) == CountryTier::Tier2,
        tier_by_upper(country, "TW"@) == CountryTier::Tier2,
        tier_by_upper(country, "HK"@) == CountryTier::Tier2,
        tier_by_upper(country, "IT"@) == CountryTier::Tier2,
        tier_by_upper(country, "ES"@) == CountryTier::Tier2,
        tier_by_upper(country, "BR"@) == CountryTier::Tier2,
        tier_by_upper(country, "IN"@) == CountryTier::Tier2,
        tier_by_upper(country, "PL"@) == CountryTier::Tier2,
        tier_by_upper(country, "CZ"@) == CountryTier::Tier2,
        tier_by_upper(country, "RO"@) == CountryTier::Tier2,
        tier_by_upper(country, "AT"@) == CountryTier::Tier2,
        tier_by_upper(country, "BE"@) == CountryTier::Tier2,
        tier_by_upper(country, "NZ"@) == CountryTier::Tier2,
        tier_by_upper(country, "IL"@) == CountryTier::Tier2,
        tier_by_upper(country, "ZA"@) == CountryTier::Tier2,
{
    lemma_code_keys();
    assert(tier2_codes()[0] == "KR"@);
    lemma_tier1_members("KR"@);
    assert(tier2_codes()[1] == "TW"@);
    lemma_tier1_members("TW"@);
    assert(tier2_codes()[2] == "HK"@);
    lemma_tier1_members("HK"@);
    assert(tier2_codes()[3] == "IT"@);
    lemma_tier1_members("IT"@);
    assert(tier2_codes()[4] == "ES"@);
    lemma_tier1_members("ES"@);
    assert(tier2_codes()[5] == "BR"@);
    lemma_tier1_members("BR"@);
    assert(tier2_codes()[6] == "IN"@);
    lemma_tier1_members("IN"@);
    assert(tier2_codes()[7] == "PL"@);
    lemma_tier1_members("PL"@);
    assert(tier2_codes()[8] == "CZ"@);
    lemma_tier1_members("CZ"@);
    assert(tier2_codes()[9] == "RO"@);
    lemma_tier1_members("RO"@);
    assert(tier2_codes()[10] == "AT"@);
    lemma_tier1_members("AT"@);
    assert(tier2_codes()[11] == "BE"@);
    lemma_tier1_members("BE"@);
    assert(tier2_codes()[12] == "NZ"@);
    lemma_tier1_members("NZ"@);
    assert(tier2_codes()[13] == "IL"@);
    lemma_tier1_members("IL"@);
    assert(tier2_codes()[14] == "ZA"@);
    lemma_tier1_members("ZA"@);
}

/// A known country code whose upper-cased form is one of RU, UA, TR, MX, AR,
/// CL, CO, TH, VN, ID, PH, MY, PT, GR, HU, BG is in the third tier (3
/// points).
pub proof fn law_tier3_countries(country: Seq<char>)
    requires
        country.len() > 0,
        country != "unknown"@,
    ensures
        tier_by_upper(country, "RU"@) == CountryTier::Tier3,
        tier_by_upper(country, "UA"@) == CountryTier::Tier3,
        tier_by_upper(country, "TR"@) == CountryTier::Tier3,
        tier_by_upper(country, "MX"@) == CountryTier::Tier3,
        tier_by_upper(country, "AR"@) == CountryTier::Tier3,
        tier_by_upper(country, "CL"@) == CountryTier::Tier3,
        tier_by_upper(country, "CO"@) == CountryTier::Tier3,
        tier_by_upper(country, "TH"@) == CountryTier::Tier3,
        tier_by_upper(country, "VN"@) == CountryTier::Tier3,
        tier_by_upper(country, "ID"@) == CountryTier::Tier3,
        tier_by_upper(country, "PH"@) == CountryTier::Tier3,
        tier_by_upper(country, "MY"@) == CountryTier::Tier3,
        tier_by_upper(country, "PT"@) == CountryTier::Tier3,
        tier_by_upper(country, "GR"@) == CountryTier::Tier3,
        tier_by_upper(country, "HU"@) == CountryTier::Tier3,
        tier_by_upper(country, "BG"@) == CountryTier::Tier3,
{
    lemma_code_keys();
    assert(tier3_codes()[0] == "RU"@);
    lemma_tier1_members("RU"@);
    lemma_tier2_members("RU"@);
    assert(tier3_codes()[1] == "UA"@);
    lemma_tier1_members("UA"@);
    lemma_tier2_members("UA"@);
    assert(tier3_codes()[2] == "TR"@);
    lemma_tier1_members("TR"@);
    lemma_tier2_members("TR"@);
    assert(tier3_codes()[3] == "MX"@);
    lemma_tier1_members("MX"@);
    lemma_tier2_members("MX"@);
    assert(tier3_codes()[4] == "AR"@);
    lemma_tier1_members("AR"@);
    lemma_tier2_members("AR"@);
    assert(tier3_codes()[5] == "CL"@);
    lemma_tier1_members("CL"@);
    lemma_tier2_members("CL"@);
    assert(tier3_codes()[6] == "CO"@);
    lemma_tier1_members("CO"@);
    lemma_tier2_members("CO"@);
    assert(tier3_codes()[7] == "TH"@);
    lemma_tier1_members("TH"@);
    lemma_tier2_members("TH"@);
    assert(tier3_codes()[8] == "VN"@);
    lemma_tier1_members("VN"@);
    lemma_tier2_members("VN"@);
    assert(tier3_codes()[9] == "ID"@);
    lemma_tier1_members("ID"@);
    lemma_tier2_members("ID"@);
    assert(tier3_codes()[10] == "PH"@);
    lemma_tier1_members("PH"@);
    lemma_tier2_members("PH"@);
    assert(tier3_codes()[11] == "MY"@);
    lemma_tier1_members("MY"@);
    lemma_tier2_members("MY"@);
    assert(tier3_codes()[12] == "PT"@);
    lemma_tier1_members("PT"@);
    lemma_tier2_members("PT"@);
    assert(tier3_codes()[13] == "GR"@);
    lemma_tier1_members("GR"@);
    lemma_tier2_members("GR"@);
    assert(tier3_codes()[14] == "HU"@);
    lemma_tier1_members("HU"@);
    lemma_tier2_members("HU"@);
    assert(tier3_codes()[15] == "BG"@);
    lemma_tier1_members("BG"@);
    lemma_tier2_members("BG"@);
}

} // verus!
