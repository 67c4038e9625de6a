//! Rules of the HTTP interface: read-only demo mode, paging and limits of
//! the listing endpoints, the text export, system settings, database
//! import checks and the answers of the update endpoints.

use vstd::prelude::*;

use crate::checker::{address_text, proxy_address};
use crate::config::{SettingWrite, stored_after, writes_view};
use crate::text::{
    chars_of, parse_unsigned, parse_unsigned_chars, push_str, slice_chars, starts_with_chars,
    str_equals, string_from_chars,
};

verus! {

fn owned(s: &str) -> (res: String)
    ensures
        res@ == s@,
{
    let mut t = String::new();
    push_str(&mut t, s);
    proof {
        assert(t@ =~= s@);
    }
    t
}

/// Error body of the JSON interface.
#[derive(Debug)]
pub struct ErrorResponse {
    pub success: bool,
    pub error: String,
}

impl ErrorResponse {
    pub fn new(error: String) -> (res: ErrorResponse)
        ensures
            !res.success,
            res.error == error,
    {
        ErrorResponse { success: false, error }
    }
}

/// In demo mode every operation that changes data is refused with 403.
pub fn demo_guard(demo_mode: bool) -> (res: Result<(), (u16, ErrorResponse)>)
    ensures
        !demo_mode ==> res is Ok,
        demo_mode ==> (res matches Err((status, body)) && status == 403 && !body.success
            && body.error@ == "Operation not allowed in demo mode"@),
{
    if demo_mode {
        Err((403, ErrorResponse::new(owned("Operation not allowed in demo mode"))))
    } else {
        Ok(())
    }
}

// ---------------------------------------------------------------------
// Paging and limits
// ---------------------------------------------------------------------

/// Query of the paged listings.
#[derive(Debug)]
pub struct PaginationParams {
    pub page: Option<i64>,
    pub per_page: Option<i64>,
}

/// Query of the top and per-country listings.
#[derive(Debug)]
pub struct TopParams {
    pub limit: Option<i64>,
    pub group: Option<String>,
}

/// Query of the export endpoints.
#[derive(Debug)]
pub struct ExportParams {
    pub sort: Option<String>,
    pub limit: Option<i64>,
    pub country: Option<String>,
}

/// Query of the administrator's proxy list.
#[derive(Debug)]
pub struct AdminProxyListParams {
    pub page: Option<i64>,
    pub per_page: Option<i64>,
    pub alive: Option<bool>,
    pub protocol: Option<String>,
}

pub open spec fn page_of(page: Option<i64>) -> i64 {
    match page {
        Some(p) => if p < 1 { 1 } else { p },
        None => 1,
    }
}

pub open spec fn capped(v: Option<i64>, default: i64, cap: i64) -> i64 {
    let x = match v {
        Some(x) => x,
        None => default,
    };
    if x > cap { cap } else { x }
}

/// The requested page, at least 1 (1 when none is asked).
pub fn page_number(page: Option<i64>) -> (res: i64)
    ensures
        res == page_of(page),
        res >= 1,
{
    match page {
        Some(p) => if p < 1 {
            1
        } else {
            p
        },
        None => 1,
    }
}

/// A requested count with a default and an upper cap (no lower bound).
pub fn capped_count(v: Option<i64>, default: i64, cap: i64) -> (res: i64)
    ensures
        res == capped(v, default, cap),
        res <= cap,
{
    let x = match v {
        Some(x) => x,
        None => default,
    };
    if x > cap {
        cap
    } else {
        x
    }
}

/// Page size of the public listing: 20 by default, at most 100.
pub fn public_page_size(per_page: Option<i64>) -> (res: i64)
    ensures
        res == capped(per_page, 20, 100),
{
    capped_count(per_page, 20, 100)
}

/// Page size of the administrator's listing: 20 by default, at most 200.
pub fn admin_page_size(per_page: Option<i64>) -> (res: i64)
    ensures
        res == capped(per_page, 20, 200),
{
    capped_count(per_page, 20, 200)
}

/// How many top proxies are listed: 10 by default, at most 100.
pub fn top_limit(limit: Option<i64>) -> (res: i64)
    ensures
        res == capped(limit, 10, 100),
{
    capped_count(limit, 10, 100)
}

/// How many proxies of a country are listed: 20 by default, at most 100.
pub fn country_limit(limit: Option<i64>) -> (res: i64)
    ensures
        res == capped(limit, 20, 100),
{
    capped_count(limit, 20, 100)
}

/// Export limit: at least 1 when given; none means no limit.
pub fn export_limit(limit: Option<i64>) -> (res: Option<i64>)
    ensures
        res == match limit {
            Some(l) => Some(if l < 1 { 1i64 } else { l }),
            None => None::<i64>,
        },
{
    match limit {
        Some(l) => Some(if l < 1 {
            1
        } else {
            l
        }),
        None => None,
    }
}

/// Export order: `score` when none is asked.
pub fn export_sort(sort: Option<&str>) -> (res: String)
    ensures
        res@ == match sort {
            Some(s) => s@,
            None => "score"@,
        },
{
    match sort {
        Some(s) => owned(s),
        None => owned("score"),
    }
}

/// Rows skipped before a page: `(page - 1) * per_page`.
pub fn page_offset(page: i64, per_page: i64) -> (res: i64)
    requires
        i64::MIN <= (page - 1) * per_page <= i64::MAX,
        page >= i64::MIN + 1,
    ensures
        res == (page - 1) * per_page,
{
    (page - 1) * per_page
}

// ---------------------------------------------------------------------
// Text export
// ---------------------------------------------------------------------

/// What the text export lists of a proxy.
#[derive(Debug)]
pub struct ExportRow {
    pub ip: String,
    pub port: u16,
}

pub open spec fn export_line(r: ExportRow) -> Seq<char> {
    address_text(r.ip@, r.port)
}

/// Lines joined by a newline (no newline after the last).
pub open spec fn export_text(rows: Seq<ExportRow>) -> Seq<char>
    decreases rows.len(),
{
    if rows.len() == 0 {
        Seq::empty()
    } else if rows.len() == 1 {
        export_line(rows[0])
    } else {
        export_text(rows.drop_last()) + seq!['\n'] + export_line(rows.last())
    }
}

/// The plain-text export: one `ip:port` per line.
pub fn export_txt(rows: &Vec<ExportRow>) -> (res: String)
    ensures
        res@ == export_text(rows@),
{
    let mut s = String::new();
    let mut i: usize = 0;
    while i < rows.len()
        invariant
            i <= rows@.len(),
            s@ == export_text(rows@.take(i as int)),
        decreases rows@.len() - i,
    {
        let ghost before = s@;
        if i > 0 {
            push_str(&mut s, "\n");
        }
        let a = proxy_address(rows[i].ip.as_str(), rows[i].port);
        push_str(&mut s, a.as_str());
        proof {
            reveal_strlit("\n");
            let t = rows@.take(i + 1);
            assert(t.drop_last() =~= rows@.take(i as int));
            assert(t.last() == rows@[i as int]);
            if i > 0 {
                assert(s@ =~= before + seq!['\n'] + export_line(rows@[i as int]));
            } else {
                assert(rows@.take(0) =~= Seq::<ExportRow>::empty());
                assert(s@ =~= export_line(rows@[i as int]));
            }
        }
        i = i + 1;
    }
    proof {
        assert(rows@.take(i as int) =~= rows@);
    }
    s
}

/// Header line of the CSV export.
pub fn csv_header() -> (res: String)
    ensures
        res@ == "ip,port,protocol,country,score,latency_ms,success_count,fail_count,success_rate\n"@,
{
    owned("ip,port,protocol,country,score,latency_ms,success_count,fail_count,success_rate\n")
}

// ---------------------------------------------------------------------
// System settings
// ---------------------------------------------------------------------

/// System settings sent by an administrator; absent fields are left alone.
#[derive(Debug)]
pub struct SystemSettingsRequest {
    pub auto_update: Option<bool>,
    pub install_schedule: Option<String>,
    pub default_language: Option<String>,
    pub default_timezone: Option<String>,
    pub default_theme: Option<String>,
}

pub open spec fn schedule_ok(s: Seq<char>) -> bool {
    s == "anytime"@ || s == "night"@ || s == "morning"@ || s == "afternoon"@ || s == "evening"@
}

pub open spec fn default_language_ok(s: Seq<char>) -> bool {
    s == "auto"@ || s == "en"@ || s == "zh-CN"@ || s == "zh-TW"@ || s == "ja"@
}

pub open spec fn default_theme_ok(s: Seq<char>) -> bool {
    s == "system"@ || s == "light"@ || s == "dark"@
}

/// A refused system setting.
#[derive(Debug, PartialEq, Eq, Structural, Clone, Copy)]
pub enum SettingsError {
    InvalidLanguage,
    InvalidTheme,
}

impl SettingsError {
    pub fn message(&self) -> (res: String)
        ensures
            res@ == match self {
                SettingsError::InvalidLanguage => "Invalid language. Must be one of: auto, en, zh-CN, zh-TW, ja"@,
                SettingsError::InvalidTheme => "Invalid theme. Must be one of: system, light, dark"@,
            },
    {
        match self {
            SettingsError::InvalidLanguage => owned("Invalid language. Must be one of: auto, en, zh-CN, zh-TW, ja"),
            SettingsError::InvalidTheme => owned("Invalid theme. Must be one of: system, light, dark"),
        }
    }
}

pub open spec fn opt_string(o: Option<String>) -> Option<Seq<char>> {
    match o {
        Some(s) => Some(s@),
        None => None,
    }
}

/// The writes of a system settings request, in the order they are made,
/// and the refusal that stops them: auto-update (`true`/`false`); the
/// install schedule when it is a known one (an unknown one is skipped);
/// the default language (refused unless known); the default timezone as
/// given; the default theme (refused unless known). Writes before a
/// refusal are made; none after it.
pub open spec fn system_settings_plan(
    auto_update: Option<bool>,
    schedule: Option<Seq<char>>,
    language: Option<Seq<char>>,
    timezone: Option<Seq<char>>,
    theme: Option<Seq<char>>,
) -> (Seq<(Seq<char>, Seq<char>)>, Option<SettingsError>) {
    let w1: Seq<(Seq<char>, Seq<char>)> = match auto_update {
        Some(b) => seq![("system.auto_update"@, if b { "true"@ } else { "false"@ })],
        None => Seq::empty(),
    };
    let w2 = match schedule {
        Some(s) => if schedule_ok(s) {
            w1.push(("system.install_schedule"@, s))
        } else {
            w1
        },
        None => w1,
    };
    match language {
        Some(l) if !default_language_ok(l) => (w2, Some(SettingsError::InvalidLanguage)),
        _ => {
            let w3 = match language {
                Some(l) => w2.push(("system.default_language"@, l)),
                None => w2,
            };
            let w4 = match timezone {
                Some(t) => w3.push(("system.default_timezone"@, t)),
                None => w3,
            };
            match theme {
                Some(t) => if default_theme_ok(t) {
                    (w4.push(("system.default_theme"@, t)), None)
                } else {
                    (w4, Some(SettingsError::InvalidTheme))
                },
                None => (w4, None),
            }
        },
    }
}

fn setting(key: &str, value: &str) -> (res: SettingWrite)
    ensures
        res@ == (key@, value@),
{
    SettingWrite { key: owned(key), value: owned(value) }
}

/// The settings writes of a system settings request and the refusal, if
/// any, that ends it (see `system_settings_plan`).
pub fn system_settings_writes(req: &SystemSettingsRequest) -> (res: (
    Vec<SettingWrite>,
    Option<SettingsError>,
))
    ensures
        (writes_view(res.0@), res.1) == system_settings_plan(
            req.auto_update,
            opt_string(req.install_schedule),
            opt_string(req.default_language),
            opt_string(req.default_timezone),
            opt_string(req.default_theme),
        ),
{
    let mut ws: Vec<SettingWrite> = Vec::new();
    match req.auto_update {
        Some(b) => {
            ws.push(setting("system.auto_update", if b { "true" } else { "false" }));
        },
        None => {},
    }
    proof {
        assert(writes_view(ws@) =~= match req.auto_update {
            Some(b) => seq![("system.auto_update"@, if b { "true"@ } else { "false"@ })],
            None => Seq::<(Seq<char>, Seq<char>)>::empty(),
        });
    }
    let ghost w1 = writes_view(ws@);
    match &req.install_schedule {
        Some(s) => {
            let sv = s.as_str();
            if str_equals(sv, "anytime") || str_equals(sv, "night") || str_equals(sv, "morning")
                || str_equals(sv, "afternoon") || str_equals(sv, "evening") {
                ws.push(setting("system.install_schedule", sv));
                proof {
                    assert(writes_view(ws@) =~= w1.push(("system.install_schedule"@, s@)));
                }
            }
        },
        None => {},
    }
    let ghost w2 = writes_view(ws@);
    match &req.default_language {
        Some(l) => {
            let lv = l.as_str();
            if !(str_equals(lv, "auto") || str_equals(lv, "en") || str_equals(lv, "zh-CN")
                || str_equals(lv, "zh-TW") || str_equals(lv, "ja")) {
                return (ws, Some(SettingsError::InvalidLanguage));
            }
            ws.push(setting("system.default_language", lv));
            proof {
                assert(writes_view(ws@) =~= w2.push(("system.default_language"@, l@)));
            }
        },
        None => {},
    }
    let ghost w3 = writes_view(ws@);
    match &req.default_timezone {
        Some(t) => {
            ws.push(setting("system.default_timezone", t.as_str()));
            proof {
                assert(writes_view(ws@) =~= w3.push(("system.default_timezone"@, t@)));
            }
        },
        None => {},
    }
    let ghost w4 = writes_view(ws@);
    match &req.default_theme {
        Some(t) => {
            let tv = t.as_str();
            if !(str_equals(tv, "system") || str_equals(tv, "light") || str_equals(tv, "dark")) {
                return (ws, Some(SettingsError::InvalidTheme));
            }
            ws.push(setting("system.default_theme", tv));
            proof {
                assert(writes_view(ws@) =~= w4.push(("system.default_theme"@, t@)));
            }
        },
        None => {},
    }
    (ws, None)
}

/// System settings as shown to the administrator.
#[derive(Debug)]
pub struct SystemSettings {
    pub auto_update: bool,
    pub install_schedule: String,
    pub default_language: String,
    pub default_timezone: String,
    pub default_theme: String,
}

pub open spec fn or_default(v: Option<Seq<char>>, d: Seq<char>) -> Seq<char> {
    match v {
        Some(s) => s,
        None => d,
    }
}

pub open spec fn opt_str(o: Option<&str>) -> Option<Seq<char>> {
    match o {
        Some(s) => Some(s@),
        None => None,
    }
}

fn value_or(v: Option<&str>, d: &str) -> (res: String)
    ensures
        res@ == or_default(opt_str(v), d@),
{
    match v {
        Some(s) => owned(s),
        None => owned(d),
    }
}

/// System settings from the stored values: auto-update unless stored as
/// `false`; schedule `anytime`, language `auto`, timezone `auto` and theme
/// `system` when nothing is stored.
pub fn system_settings_from_stored(
    auto_update: Option<&str>,
    install_schedule: Option<&str>,
    default_language: Option<&str>,
    default_timezone: Option<&str>,
    default_theme: Option<&str>,
) -> (res: SystemSettings)
    ensures
        res.auto_update == match auto_update {
            Some(v) => v@ != "false"@,
            None => true,
        },
        res.install_schedule@ == or_default(opt_str(install_schedule), "anytime"@),
        res.default_language@ == or_default(opt_str(default_language), "auto"@),
        res.default_timezone@ == or_default(opt_str(default_timezone), "auto"@),
        res.default_theme@ == or_default(opt_str(default_theme), "system"@),
{
    SystemSettings {
        auto_update: crate::updater::auto_update_enabled(auto_update),
        install_schedule: value_or(install_schedule, "anytime"),
        default_language: value_or(default_language, "auto"),
        default_timezone: value_or(default_timezone, "auto"),
        default_theme: value_or(default_theme, "system"),
    }
}

/// Preferences given to a new user: the system defaults (`system`, `en`,
/// `auto` when none is stored).
pub fn new_user_preferences(
    default_theme: Option<&str>,
    default_language: Option<&str>,
    default_timezone: Option<&str>,
) -> (res: (String, String, String))
    ensures
        res.0@ == or_default(opt_str(default_theme), "system"@),
        res.1@ == or_default(opt_str(default_language), "en"@),
        res.2@ == or_default(opt_str(default_timezone), "auto"@),
{
    (
        value_or(default_theme, "system"),
        value_or(default_language, "en"),
        value_or(default_timezone, "auto"),
    )
}

/// Preferences of a user who saved none.
pub fn default_preferences() -> (res: (String, String, String))
    ensures
        res.0@ == "system"@,
        res.1@ == "en"@,
        res.2@ == "auto"@,
{
    (owned("system"), owned("en"), owned("auto"))
}

// ---------------------------------------------------------------------
// Database import, updates
// ---------------------------------------------------------------------

pub open spec fn sqlite_magic() -> Seq<u8> {
    seq![83u8, 81, 76, 105, 116, 101, 32, 102, 111, 114, 109, 97, 116, 32, 51, 0]
}

/// An uploaded database is accepted only when it starts with the 16-byte
/// SQLite header `SQLite format 3\0`.
pub fn is_sqlite_file(data: &[u8]) -> (res: bool)
    ensures
        res == (data@.len() >= 16 && data@.take(16) == sqlite_magic()),
{
    let magic: [u8; 16] = [83, 81, 76, 105, 116, 101, 32, 102, 111, 114, 109, 97, 116, 32, 51, 0];
    if data.len() < 16 {
        return false;
    }
    let mut i: usize = 0;
    while i < 16
        invariant
            i <= 16,
            data@.len() >= 16,
            magic@ == sqlite_magic(),
            forall|j: int| 0 <= j < i ==> data@[j] == sqlite_magic()[j],
        decreases 16 - i,
    {
        if data[i] != magic[i] {
            proof {
                assert(data@.take(16)[i as int] != sqlite_magic()[i as int]);
            }
            return false;
        }
        i = i + 1;
    }
    proof {
        assert(data@.take(16) =~= sqlite_magic());
    }
    true
}

/// Answer of the update trigger: the HTTP status, and the message of a
/// success or the error of a failure.
pub open spec fn update_answer(outcome: Result<bool, Seq<char>>) -> (u16, bool, Seq<char>) {
    match outcome {
        Ok(true) => (200, true, "Update triggered. The service will restart automatically."@),
        Ok(false) => (200, true, "Already up to date."@),
        Err(e) => if e == "BINARY_NOT_READY"@ {
            (202, false, "BINARY_NOT_READY"@)
        } else {
            (500, false, "Update failed: "@ + e)
        },
    }
}

/// Maps the outcome of an update (the error as its message) to the answer
/// `(status, success, message-or-error)`.
pub fn update_trigger_answer(outcome: Result<bool, &str>) -> (res: (u16, bool, String))
    ensures
        (res.0, res.1, res.2@) == update_answer(match outcome {
            Ok(b) => Ok(b),
            Err(e) => Err(e@),
        }),
{
    match outcome {
        Ok(true) => (200, true, owned("Update triggered. The service will restart automatically.")),
        Ok(false) => (200, true, owned("Already up to date.")),
        Err(e) => if str_equals(e, "BINARY_NOT_READY") {
            (202, false, owned("BINARY_NOT_READY"))
        } else {
            let mut s = owned("Update failed: ");
            push_str(&mut s, e);
            (500, false, s)
        },
    }
}

/// Body of a proxy list import: the text and an optional protocol for
/// entries that name none.
#[derive(Debug)]
pub struct ImportProxiesRequest {
    pub content: String,
    pub protocol_hint: Option<String>,
}

/// Answer of an import: how many proxies were stored.
#[derive(Debug)]
pub struct ImportResult {
    pub imported: usize,
}

/// Body of a new subscription source.
#[derive(Debug)]
pub struct AddSourceRequest {
    pub name: String,
    pub source_type: String,
    pub url: Option<String>,
    pub content: Option<String>,
    pub protocol_hint: Option<String>,
    pub sync_interval_secs: Option<i64>,
}

/// Body of a source switch.
#[derive(Debug)]
pub struct ToggleSourceRequest {
    pub enabled: bool,
}

/// Answer of a purge: how many proxies were deleted.
#[derive(Debug)]
pub struct DeleteResult {
    pub deleted: u64,
}

/// Body of an update trigger: a version to install, or none for the
/// latest release.
#[derive(Debug)]
pub struct TriggerUpdateRequest {
    pub version: Option<String>,
}

/// The protocol assumed for imported entries that name none: the
/// request's hint, `auto` by default.
pub fn import_protocol_hint(req: &ImportProxiesRequest) -> (res: String)
    ensures
        res@ == or_default(opt_string(req.protocol_hint), "auto"@),
{
    match &req.protocol_hint {
        Some(h) => owned(h.as_str()),
        None => owned("auto"),
    }
}

/// Defaults of a new subscription source: protocol hint `auto` and a sync
/// every 21600 s (6 hours) unless given.
pub fn source_defaults(req: &AddSourceRequest) -> (res: (String, i64))
    ensures
        res.0@ == or_default(opt_string(req.protocol_hint), "auto"@),
        res.1 == match req.sync_interval_secs {
            Some(s) => s,
            None => 21600,
        },
{
    let hint = match &req.protocol_hint {
        Some(h) => owned(h.as_str()),
        None => owned("auto"),
    };
    (hint, match req.sync_interval_secs {
        Some(s) => s,
        None => 21600,
    })
}

/// The version an update trigger asks for; none (the latest release) when
/// the request has no body or names no version.
pub fn requested_version(body: Option<&TriggerUpdateRequest>) -> (res: Option<String>)
    ensures
        opt_string(res) == match body {
            Some(b) => opt_string(b.version),
            None => None,
        },
{
    match body {
        Some(b) => match &b.version {
            Some(v) => Some(owned(v.as_str())),
            None => None,
        },
        None => None,
    }
}

// ---------------------------------------------------------------------
// Server settings
// ---------------------------------------------------------------------

/// The listening port from the `PORT` variable: 8080 when it is missing or
/// is not a port number.
pub fn listen_port(value: Option<&str>) -> (res: u16)
    ensures
        res == match value {
            Some(v) => match parse_unsigned(v@, 65535) {
                Some(n) => n as u16,
                None => 8080u16,
            },
            None => 8080u16,
        },
{
    match value {
        Some(v) => {
            let cs = chars_of(v);
            match parse_unsigned_chars(&cs, 65535) {
                Some(n) => n as u16,
                None => 8080,
            }
        },
        None => 8080,
    }
}

/// The database file of a SQLite URL: what follows `sqlite://` (or
/// `sqlite:`), up to the first `?`.
pub open spec fn sqlite_path(url: Seq<char>) -> Seq<char> {
    let rest = if url.len() >= 9 && url.take(9) == "sqlite://"@ {
        url.skip(9)
    } else if url.len() >= 7 && url.take(7) == "sqlite:"@ {
        url.skip(7)
    } else {
        url
    };
    match crate::text::find_first(rest, seq!['?']) {
        Some(k) => rest.take(k),
        None => rest,
    }
}

/// The database file named by a SQLite URL (what an export reads and an
/// import replaces).
pub fn sqlite_file_path(url: &str) -> (res: String)
    ensures
        res@ == sqlite_path(url@),
{
    let cs = chars_of(url);
    proof {
        reveal_strlit("sqlite://");
        reveal_strlit("sqlite:");
    }
    let long_prefix = ['s', 'q', 'l', 'i', 't', 'e', ':', '/', '/'];
    let short_prefix = ['s', 'q', 'l', 'i', 't', 'e', ':'];
    proof {
        assert(long_prefix@ =~= "sqlite://"@);
        assert(short_prefix@ =~= "sqlite:"@);
    }
    let start: usize = if starts_with_chars(cs.as_slice(), long_prefix.as_slice()) {
        9
    } else if starts_with_chars(cs.as_slice(), short_prefix.as_slice()) {
        7
    } else {
        0
    };
    let ghost rest = cs@.skip(start as int);
    proof {
        assert(cs@.skip(0) =~= cs@);
        assert(start <= cs@.len());
        assert(rest == if url@.len() >= 9 && url@.take(9) == "sqlite://"@ {
            url@.skip(9)
        } else if url@.len() >= 7 && url@.take(7) == "sqlite:"@ {
            url@.skip(7)
        } else {
            url@
        });
    }
    let question = ['?'];
    proof {
        assert(question@ =~= seq!['?']);
    }
    let end = match crate::text::find_chars(cs.as_slice(), start, question.as_slice()) {
        Some(k) => k,
        None => cs.len(),
    };
    proof {
        crate::text::lemma_find_first_bounds(rest, seq!['?']);
        assert(start <= end <= cs@.len());
    }
    let path = slice_chars(cs.as_slice(), start, end);
    proof {
        match crate::text::find_first(rest, seq!['?']) {
            Some(k) => {
                assert(path@ =~= rest.take(k));
            },
            None => {
                assert(path@ =~= rest);
            },
        }
    }
    string_from_chars(path.as_slice())
}

// ---------------------------------------------------------------------
// Laws
// ---------------------------------------------------------------------

/// System settings that an administrator saves with accepted values read
/// back as sent: the request is not refused, and the stored values give
/// the auto-update switch, schedule, language, timezone and theme of the
/// request.
pub proof fn law_system_settings_round_trip(
    auto_update: bool,
    schedule: Seq<char>,
    language: Seq<char>,
    timezone: Seq<char>,
    theme: Seq<char>,
)
    requires
        schedule_ok(schedule),
        default_language_ok(language),
        default_theme_ok(theme),
    ensures
        ({
            let (ws, refusal) = system_settings_plan(
                Some(auto_update),
                Some(schedule),
                Some(language),
                Some(timezone),
                Some(theme),
            );
            &&& refusal is None
            &&& (stored_after(ws, "system.auto_update"@) matches Some(v) && v != "false"@)
                == auto_update
            &&& or_default(stored_after(ws, "system.install_schedule"@), "anytime"@) == schedule
            &&& or_default(stored_after(ws, "system.default_language"@), "auto"@) == language
            &&& or_default(stored_after(ws, "system.default_timezone"@), "auto"@) == timezone
            &&& or_default(stored_after(ws, "system.default_theme"@), "system"@) == theme
        }),
{
    reveal_strlit("system.auto_update");
    reveal_strlit("system.install_schedule");
    reveal_strlit("system.default_language");
    reveal_strlit("system.default_timezone");
    reveal_strlit("system.default_theme");
    reveal_strlit("true");
    reveal_strlit("false");
    let k1 = "system.auto_update"@;
    let k2 = "system.install_schedule"@;
    let k3 = "system.default_language"@;
    let k4 = "system.default_timezone"@;
    let k5 = "system.default_theme"@;
    assert(k1 != k2 && k1 != k3 && k1 != k4 && k1 != k5) by {
        assert(k1.len() != k2.len() && k1.len() != k3.len() && k1.len() != k4.len());
        assert(k1[7] != k5[7]);
    }
    assert(k2 != k3 && k2 != k4 && k2 != k5) by {
        assert(k2[7] != k3[7] && k2[7] != k4[7] && k2[7] != k5[7]);
    }
    assert(k3 != k4 && k3 != k5) by {
        assert(k3[15] != k4[15] && k3.len() != k5.len());
    }
    assert(k4 != k5) by {
        assert(k4.len() != k5.len());
    }
    let v1: Seq<char> = if auto_update { "true"@ } else { "false"@ };
    let ws = seq![(k1, v1), (k2, schedule), (k3, language), (k4, timezone), (k5, theme)];
    assert(system_settings_plan(
        Some(auto_update),
        Some(schedule),
        Some(language),
        Some(timezone),
        Some(theme),
    ).0 =~= ws);
    assert(ws.drop_last() =~= seq![ws[0], ws[1], ws[2], ws[3]]);
    assert(ws.drop_last().drop_last() =~= seq![ws[0], ws[1], ws[2]]);
    assert(ws.drop_last().drop_last().drop_last() =~= seq![ws[0], ws[1]]);
    assert(ws.drop_last().drop_last().drop_last().drop_last() =~= seq![ws[0]]);
    reveal_with_fuel(stored_after, 6);
    assert(v1 != "false"@ <==> auto_update) by {
        if auto_update {
            assert("true"@.len() != "false"@.len());
        }
    }
}


/// The default languages an administrator can set are exactly `auto`,
/// `en`, `zh-CN`, `zh-TW` and `ja`. One of them is written under
/// `system.default_language`, after the auto-update and schedule writes,
/// and is never the refusal, whatever else the request holds; alone in a
/// request it is the only write. Any other language is refused.
pub proof fn law_default_languages(
    auto_update: Option<bool>,
    schedule: Option<Seq<char>>,
    language: Seq<char>,
    timezone: Option<Seq<char>>,
    theme: Option<Seq<char>>,
)
    ensures
        (language == "auto"@ || language == "en"@ || language == "zh-CN"@ || language == "zh-TW"@
            || language == "ja"@) ==> ({
            let plan = system_settings_plan(auto_update, schedule, Some(language), timezone, theme);
            let n = (if auto_update is Some { 1int } else { 0int }) + (if schedule is Some
                && schedule_ok(schedule.unwrap()) {
                1int
            } else {
                0int
            });
            &&& plan.1 != Some(SettingsError::InvalidLanguage)
            &&& n < plan.0.len()
            &&& plan.0[n] == ("system.default_language"@, language)
        }),
        (language == "auto"@ || language == "en"@ || language == "zh-CN"@ || language == "zh-TW"@
            || language == "ja"@) ==> system_settings_plan(None, None, Some(language), None, None)
            == (seq![("system.default_language"@, language)], None::<SettingsError>),
        !(language == "auto"@ || language == "en"@ || language == "zh-CN"@ || language
            == "zh-TW"@ || language == "ja"@) ==> system_settings_plan(
            auto_update,
            schedule,
            Some(language),
            timezone,
            theme,
        ).1 == Some(SettingsError::InvalidLanguage),
{
    let accepted = language == "auto"@ || language == "en"@ || language == "zh-CN"@ || language
        == "zh-TW"@ || language == "ja"@;
    if accepted {
        let alone = system_settings_plan(None, None, Some(language), None, None);
        assert(alone.0 =~= seq![("system.default_language"@, language)]);
    }
}

} // verus!
