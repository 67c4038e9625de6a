//! Health-checker settings: defaults, the key/value form in which they are
//! stored, reading them back, and the limits an administrator may set.

use vstd::prelude::*;

use crate::text::{
    decimal_text, digit_char, digit_value, digits_value, is_digit, parse_u64, parse_unsigned,
    push_str, push_u64_text, u64_to_text, unsigned_text_value, all_digits,
};

verus! {

/// Health-checker settings.
#[derive(Debug)]
pub struct CheckerConfig {
    /// Seconds until the next check of a proxy whose last check succeeded.
    pub interval_secs: u64,
    pub timeout_secs: u64,
    pub max_concurrent: usize,
    pub targets: Vec<String>,
    /// Seconds until the next check after a failure, by historical failure count.
    pub fail_intervals_secs: Vec<u64>,
}

/// Plain-value form of the settings.
pub struct CheckerConfigView {
    pub interval_secs: u64,
    pub timeout_secs: u64,
    pub max_concurrent: usize,
    pub targets: Seq<Seq<char>>,
    pub fail_intervals_secs: Seq<u64>,
}

pub open spec fn strings_view(v: Seq<String>) -> Seq<Seq<char>> {
    v.map_values(|s: String| s@)
}

impl View for CheckerConfig {
    type V = CheckerConfigView;

    open spec fn view(&self) -> CheckerConfigView {
        CheckerConfigView {
            interval_secs: self.interval_secs,
            timeout_secs: self.timeout_secs,
            max_concurrent: self.max_concurrent,
            targets: strings_view(self.targets@),
            fail_intervals_secs: self.fail_intervals_secs@,
        }
    }
}

pub open spec fn default_fail_intervals() -> Seq<u64> {
    seq![180u64, 600, 1800, 3600, 10800, 21600, 43200, 86400, 172800, 172800]
}

pub open spec fn default_targets() -> Seq<Seq<char>> {
    seq!["https://httpbin.org/ip"@, "https://www.cloudflare.com/cdn-cgi/trace"@]
}

/// Back-off after the 1st, 2nd, ... 10th failure: 3 min, 10 min, 30 min,
/// 1 h, 3 h, 6 h, 12 h, 24 h, then 48 h.
pub fn default_fail_intervals_secs() -> (res: Vec<u64>)
    ensures
        res@ == default_fail_intervals(),
{
    let v: Vec<u64> = vec![180, 600, 1800, 3600, 10800, 21600, 43200, 86400, 172800, 172800];
    proof {
        assert(v@ =~= default_fail_intervals());
    }
    v
}

fn owned(s: &str) -> (res: String)
    ensures
        res@ == s@,
{
    let mut t = String::new();
    push_str(&mut t, s);
    proof {
        assert(t@ =~= s@);
    }
    t
}

/// The two default check targets.
pub fn default_check_targets() -> (res: Vec<String>)
    ensures
        strings_view(res@) == default_targets(),
{
    let mut v: Vec<String> = Vec::new();
    v.push(owned("https://httpbin.org/ip"));
    v.push(owned("https://www.cloudflare.com/cdn-cgi/trace"));
    proof {
        assert(strings_view(v@) =~= default_targets());
    }
    v
}

impl CheckerConfig {
    /// Check every 60 s, 10 s timeout, 200 checks at a time, the two default
    /// targets and the default failure back-off.
    pub fn default() -> (res: CheckerConfig)
        ensures
            res@.interval_secs == 60,
            res@.timeout_secs == 10,
            res@.max_concurrent == 200,
            res@.targets == default_targets(),
            res@.fail_intervals_secs == default_fail_intervals(),
    {
        CheckerConfig {
            interval_secs: 60,
            timeout_secs: 10,
            max_concurrent: 200,
            targets: default_check_targets(),
            fail_intervals_secs: default_fail_intervals_secs(),
        }
    }
}

// ---------------------------------------------------------------------
// Stored form
// ---------------------------------------------------------------------

#[verifier::external_type_specification]
#[verifier::external_body]
pub struct ExJsonError(serde_json::Error);

/// What `serde_json::to_string` writes for a list of strings.
pub uninterp spec fn json_string_list(items: Seq<Seq<char>>) -> Seq<char>;

/// What `serde_json::from_str::<Vec<String>>` reads from a text.
pub uninterp spec fn json_parse_string_list(text: Seq<char>) -> Option<Seq<Seq<char>>>;

/// `serde_json::to_string` of a list of strings. The contract claims that
/// it succeeds (its documentation names as the only failures a `Serialize`
/// impl that decides to fail and a map with non-string keys, neither of
/// which a list of strings has, and it writes into a `Vec<u8>`), that the
/// text is determined by the list, and that reading it back with
/// `serde_json::from_str` gives the same list.
#[verifier::external_body]
fn encode_string_list(items: &Vec<String>) -> (res: Result<String, serde_json::Error>)
    ensures
        res is Ok,
        res matches Ok(text) ==> text@ == json_string_list(strings_view(items@))
            && json_parse_string_list(text@) == Some(strings_view(items@)),
{
    serde_json::to_string(items)
}

/// `serde_json::from_str::<Vec<String>>`. The contract claims only that the
/// outcome is determined by the text.
#[verifier::external_body]
fn decode_string_list(text: &str) -> (res: Option<Vec<String>>)
    ensures
        match res {
            Some(items) => json_parse_string_list(text@) == Some(strings_view(items@)),
            None => json_parse_string_list(text@) is None,
        },
{
    match serde_json::from_str::<Vec<String>>(text) {
        Ok(items) => Some(items),
        Err(_) => None,
    }
}

pub open spec fn interval_key() -> Seq<char> {
    "checker.interval_secs"@
}

pub open spec fn timeout_key() -> Seq<char> {
    "checker.timeout_secs"@
}

pub open spec fn max_concurrent_key() -> Seq<char> {
    "checker.max_concurrent"@
}

pub open spec fn targets_key() -> Seq<char> {
    "checker.targets"@
}

/// A setting to store: key and value.
#[derive(Debug)]
pub struct SettingWrite {
    pub key: String,
    pub value: String,
}

impl View for SettingWrite {
    type V = (Seq<char>, Seq<char>);

    open spec fn view(&self) -> (Seq<char>, Seq<char>) {
        (self.key@, self.value@)
    }
}

pub open spec fn writes_view(ws: Seq<SettingWrite>) -> Seq<(Seq<char>, Seq<char>)> {
    ws.map_values(|w: SettingWrite| w@)
}

/// The settings that store a checker configuration, in the order they are
/// written: the three numbers in decimal and the targets as a JSON list.
/// The failure back-off is not stored.
pub open spec fn checker_settings(cfg: CheckerConfigView) -> Seq<(Seq<char>, Seq<char>)> {
    seq![
        (interval_key(), decimal_text(cfg.interval_secs as nat)),
        (timeout_key(), decimal_text(cfg.timeout_secs as nat)),
        (max_concurrent_key(), decimal_text(cfg.max_concurrent as nat)),
        (targets_key(), json_string_list(cfg.targets)),
    ]
}

/// The key/value writes that store `cfg`; writing a list of strings as
/// JSON does not fail, so this always succeeds.
pub fn checker_config_settings(cfg: &CheckerConfig) -> (res: Result<Vec<SettingWrite>, serde_json::Error>)
    ensures
        res is Ok,
        res matches Ok(ws) ==> writes_view(ws@) == checker_settings(cfg@),
        json_parse_string_list(json_string_list(cfg@.targets)) == Some(cfg@.targets),
{
    let targets = match encode_string_list(&cfg.targets) {
        Ok(t) => t,
        Err(e) => return Err(e),
    };
    let mut ws: Vec<SettingWrite> = Vec::new();
    ws.push(SettingWrite { key: owned("checker.interval_secs"), value: u64_to_text(cfg.interval_secs) });
    ws.push(SettingWrite { key: owned("checker.timeout_secs"), value: u64_to_text(cfg.timeout_secs) });
    ws.push(SettingWrite {
        key: owned("checker.max_concurrent"),
        value: u64_to_text(cfg.max_concurrent as u64),
    });
    ws.push(SettingWrite { key: owned("checker.targets"), value: targets });
    proof {
        assert(writes_view(ws@) =~= checker_settings(cfg@));
    }
    Ok(ws)
}

pub open spec fn setting_number(stored: Option<Seq<char>>, max: nat, default: nat) -> nat {
    match stored {
        Some(t) => match parse_unsigned(t, max) {
            Some(n) => n,
            None => default,
        },
        None => default,
    }
}

pub open spec fn setting_targets(stored: Option<Seq<char>>) -> Seq<Seq<char>> {
    match stored {
        Some(t) => match json_parse_string_list(t) {
            Some(items) => items,
            None => Seq::empty(),
        },
        None => default_targets(),
    }
}

pub open spec fn opt_view(o: Option<&str>) -> Option<Seq<char>> {
    match o {
        Some(s) => Some(s@),
        None => None,
    }
}

/// The checker configuration read from stored settings: each number parsed
/// from its text (the default when missing or unreadable); the targets from
/// their JSON list (the default targets when missing, none when unreadable);
/// the default failure back-off.
pub fn checker_config_from_settings(
    interval: Option<&str>,
    timeout: Option<&str>,
    max_concurrent: Option<&str>,
    targets: Option<&str>,
) -> (res: CheckerConfig)
    ensures
        res@.interval_secs == setting_number(opt_view(interval), u64::MAX as nat, 60),
        res@.timeout_secs == setting_number(opt_view(timeout), u64::MAX as nat, 10),
        res@.max_concurrent == setting_number(opt_view(max_concurrent), usize::MAX as nat, 200),
        res@.targets == setting_targets(opt_view(targets)),
        res@.fail_intervals_secs == default_fail_intervals(),
{
    let interval_secs = match interval {
        Some(t) => match parse_u64(t) {
            Some(n) => n,
            None => 60,
        },
        None => 60,
    };
    let timeout_secs = match timeout {
        Some(t) => match parse_u64(t) {
            Some(n) => n,
            None => 10,
        },
        None => 10,
    };
    let max_conc: usize = match max_concurrent {
        Some(t) => {
            let cs = crate::text::chars_of(t);
            match crate::text::parse_unsigned_chars(&cs, usize::MAX as u64) {
                Some(n) => n as usize,
                None => 200,
            }
        },
        None => 200,
    };
    let target_list = match targets {
        Some(t) => match decode_string_list(t) {
            Some(items) => items,
            None => Vec::new(),
        },
        None => default_check_targets(),
    };
    proof {
        assert(strings_view(Seq::<String>::empty()) =~= Seq::<Seq<char>>::empty());
    }
    CheckerConfig {
        interval_secs,
        timeout_secs,
        max_concurrent: max_conc,
        targets: target_list,
        fail_intervals_secs: default_fail_intervals_secs(),
    }
}

// ---------------------------------------------------------------------
// Reading back what was written
// ---------------------------------------------------------------------

pub proof fn lemma_decimal_text_digits(n: nat)
    ensures
        decimal_text(n).len() > 0,
        all_digits(decimal_text(n)),
        digits_value(decimal_text(n)) == n,
        decimal_text(n)[0] != '+',
    decreases n,
{
    if n < 10 {
        let s = decimal_text(n);
        assert(s =~= seq![digit_char(n)]);
        assert(s.drop_last() =~= Seq::<char>::empty());
        assert(is_digit(s[0]));
        assert(digit_value(s.last()) == n);
        assert(digits_value(s.drop_last()) == 0);
        assert(digits_value(s) == digits_value(s.drop_last()) * 10 + digit_value(s.last()));
    } else {
        lemma_decimal_text_digits(n / 10);
        let s = decimal_text(n);
        let p = decimal_text(n / 10);
        assert(s == p.push(digit_char(n % 10)));
        assert(s.drop_last() =~= p);
        assert forall|i: int| 0 <= i < s.len() implies #[trigger] is_digit(s[i]) by {
            if i < p.len() {
                assert(s[i] == p[i]);
            }
        }
        assert(digit_value(s.last()) == n % 10);
        assert(s[0] == p[0]);
        assert((n / 10) * 10 + n % 10 == n) by (nonlinear_arith);
        assert(digits_value(s) == digits_value(p) * 10 + digit_value(s.last()));
        assert(digits_value(p) == n / 10);
        assert(digits_value(p) * 10 == (n / 10) * 10);
    }
}

/// Reading a number back from the decimal text it was written as.
pub proof fn lemma_parse_decimal_text(n: nat, max: nat)
    requires
        n <= max,
    ensures
        parse_unsigned(decimal_text(n), max) == Some(n),
{
    lemma_decimal_text_digits(n);
}

/// The stored value of `key` after writing `ws` in order (the last write wins).
pub open spec fn stored_after(ws: Seq<(Seq<char>, Seq<char>)>, key: Seq<char>) -> Option<Seq<char>>
    decreases ws.len(),
{
    if ws.len() == 0 {
        None
    } else if ws.last().0 == key {
        Some(ws.last().1)
    } else {
        stored_after(ws.drop_last(), key)
    }
}

} // verus!

verus! {

/// Storing a checker configuration and reading the stored settings back
/// gives the same interval, timeout, concurrency and targets (given that
/// the JSON form of the targets reads back as the targets, which is what
/// the encoder's contract states of the text it produced).
pub proof fn law_checker_settings_round_trip(cfg: CheckerConfigView)
    requires
        json_parse_string_list(json_string_list(cfg.targets)) == Some(cfg.targets),
    ensures
        setting_number(stored_after(checker_settings(cfg), interval_key()), u64::MAX as nat, 60)
            == cfg.interval_secs,
        setting_number(stored_after(checker_settings(cfg), timeout_key()), u64::MAX as nat, 10)
            == cfg.timeout_secs,
        setting_number(
            stored_after(checker_settings(cfg), max_concurrent_key()),
            usize::MAX as nat,
            200,
        ) == cfg.max_concurrent,
        setting_targets(stored_after(checker_settings(cfg), targets_key())) == cfg.targets,
{
    reveal_strlit("checker.interval_secs");
    reveal_strlit("checker.timeout_secs");
    reveal_strlit("checker.max_concurrent");
    reveal_strlit("checker.targets");
    let ws = checker_settings(cfg);
    assert(interval_key().len() != timeout_key().len());
    assert(interval_key().len() != max_concurrent_key().len());
    assert(interval_key().len() != targets_key().len());
    assert(timeout_key().len() != max_concurrent_key().len());
    assert(timeout_key().len() != targets_key().len());
    assert(max_concurrent_key().len() != targets_key().len());
    assert(ws.drop_last() =~= seq![ws[0], ws[1], ws[2]]);
    assert(ws.drop_last().drop_last() =~= seq![ws[0], ws[1]]);
    assert(ws.drop_last().drop_last().drop_last() =~= seq![ws[0]]);
    reveal_with_fuel(stored_after, 5);
    assert(stored_after(ws, interval_key()) == Some(decimal_text(cfg.interval_secs as nat)));
    assert(stored_after(ws, timeout_key()) == Some(decimal_text(cfg.timeout_secs as nat)));
    assert(stored_after(ws, max_concurrent_key()) == Some(
        decimal_text(cfg.max_concurrent as nat),
    ));
    lemma_parse_decimal_text(cfg.interval_secs as nat, u64::MAX as nat);
    lemma_parse_decimal_text(cfg.timeout_secs as nat, u64::MAX as nat);
    lemma_parse_decimal_text(cfg.max_concurrent as nat, usize::MAX as nat);
}

} // verus!

verus! {

/// Why a checker configuration is refused.
#[derive(Debug, PartialEq, Eq, Structural)]
pub enum CheckerConfigError {
    IntervalOutOfRange,
    TimeoutOutOfRange,
    ConcurrencyOutOfRange,
    NoTargets,
}

impl CheckerConfigError {
    /// The message shown to the administrator.
    pub fn message(&self) -> (res: String)
        ensures
            res@ == match self {
                CheckerConfigError::IntervalOutOfRange => "interval_secs must be between 10 and 86400"@,
                CheckerConfigError::TimeoutOutOfRange => "timeout_secs must be between 1 and 120"@,
                CheckerConfigError::ConcurrencyOutOfRange => "max_concurrent must be between 1 and 10000"@,
                CheckerConfigError::NoTargets => "At least one target URL is required"@,
            },
    {
        match self {
            CheckerConfigError::IntervalOutOfRange => owned("interval_secs must be between 10 and 86400"),
            CheckerConfigError::TimeoutOutOfRange => owned("timeout_secs must be between 1 and 120"),
            CheckerConfigError::ConcurrencyOutOfRange => owned("max_concurrent must be between 1 and 10000"),
            CheckerConfigError::NoTargets => owned("At least one target URL is required"),
        }
    }
}

/// The limits an administrator may set, checked in this order: interval
/// 10..=86400 s, timeout 1..=120 s, concurrency 1..=10000, at least one target.
pub fn validate_checker_config(cfg: &CheckerConfig) -> (res: Result<(), CheckerConfigError>)
    ensures
        !(10 <= cfg.interval_secs <= 86400) ==> res == Err::<(), CheckerConfigError>(
            CheckerConfigError::IntervalOutOfRange,
        ),
        (10 <= cfg.interval_secs <= 86400) && !(1 <= cfg.timeout_secs <= 120) ==> res == Err::<
            (),
            CheckerConfigError,
        >(CheckerConfigError::TimeoutOutOfRange),
        (10 <= cfg.interval_secs <= 86400) && (1 <= cfg.timeout_secs <= 120) && !(1
            <= cfg.max_concurrent <= 10000) ==> res == Err::<(), CheckerConfigError>(
            CheckerConfigError::ConcurrencyOutOfRange,
        ),
        (10 <= cfg.interval_secs <= 86400) && (1 <= cfg.timeout_secs <= 120) && (1
            <= cfg.max_concurrent <= 10000) ==> (res is Ok <==> cfg.targets@.len() > 0),
        (10 <= cfg.interval_secs <= 86400) && (1 <= cfg.timeout_secs <= 120) && (1
            <= cfg.max_concurrent <= 10000) && cfg.targets@.len() == 0 ==> res == Err::<
            (),
            CheckerConfigError,
        >(CheckerConfigError::NoTargets),
{
    if cfg.interval_secs < 10 || cfg.interval_secs > 86400 {
        return Err(CheckerConfigError::IntervalOutOfRange);
    }
    if cfg.timeout_secs < 1 || cfg.timeout_secs > 120 {
        return Err(CheckerConfigError::TimeoutOutOfRange);
    }
    if cfg.max_concurrent < 1 || cfg.max_concurrent > 10000 {
        return Err(CheckerConfigError::ConcurrencyOutOfRange);
    }
    if cfg.targets.len() == 0 {
        return Err(CheckerConfigError::NoTargets);
    }
    Ok(())
}

} // verus!
