//! API key requests: what a new key is made of, when it expires, and how
//! the stored keys are listed.

use vstd::prelude::*;

use crate::auth::{
    api_key_lifetime_hours, api_key_name, lifetime_hours, new_api_key, opt_string, AuthFailure,
    NewApiKey,
};
use crate::text::trim;

verus! {

/// Body of an API key creation: a name and an optional lifetime (`1h`,
/// `24h`, `7d`, `30d`, `90d`, `365d`).
#[derive(Debug)]
pub struct CreateApiKeyRequest {
    pub name: String,
    pub expires_in: Option<String>,
}

/// Answer to a key creation: the key is shown this once.
#[derive(Debug)]
pub struct ApiKeyCreatedResponse {
    pub success: bool,
    pub id: i64,
    pub key: String,
}

/// A stored key as listed: never the key itself, only its preview.
#[derive(Debug)]
pub struct ApiKeyInfo {
    pub id: i64,
    pub name: String,
    pub preview: String,
    pub expires_at: Option<String>,
    pub expired: bool,
    pub created_at: String,
}

/// The listing of the stored keys.
#[derive(Debug)]
pub struct ApiKeyListResponse {
    pub success: bool,
    pub keys: Vec<ApiKeyInfo>,
}

/// A stored key row: id, name, preview, expiry and creation time.
pub type ApiKeyRow = (i64, String, String, Option<String>, String);

/// The pieces of a key creation, before anything is stored.
pub struct ApiKeyPlan {
    pub name: String,
    pub lifetime_hours: Option<i64>,
    pub material: NewApiKey,
}

/// A key creation: refused for a blank name; otherwise the trimmed name,
/// the lifetime in hours (none for no or an unknown choice) and a fresh
/// key (`ppk_` and a session token) with its digest and preview.
pub fn plan_api_key(body: &CreateApiKeyRequest) -> (res: Result<ApiKeyPlan, AuthFailure>)
    ensures
        trim(body.name@).len() == 0 ==> (res matches Err(f) && f == AuthFailure::EmptyApiKeyName),
        trim(body.name@).len() > 0 ==> (res matches Ok(plan) && plan.name@ == trim(body.name@)
            && plan.lifetime_hours == match opt_string(body.expires_in) {
            Some(e) => lifetime_hours(e),
            None => None,
        } && plan.material.key@.len() == 68 && plan.material.key@.take(4)
            == crate::auth::api_key_prefix() && crate::auth::is_token_text(
            plan.material.key@.skip(4),
        ) && (exists|a: Seq<char>, b: Seq<char>, nanos: i64|
            plan.material.key@ == crate::auth::api_key_prefix()
                + #[trigger] crate::auth::text_digest(crate::auth::token_seed(a, b, nanos)))
            && plan.material.key_hash@
            == crate::auth::text_digest(plan.material.key@) && plan.material.preview@
            == crate::auth::key_preview(plan.material.key@)),
{
    let name = match api_key_name(body.name.as_str()) {
        Err(e) => return Err(e),
        Ok(n) => n,
    };
    let lifetime_hours = match &body.expires_in {
        Some(e) => api_key_lifetime_hours(Some(e.as_str())),
        None => None,
    };
    let material = new_api_key();
    Ok(ApiKeyPlan { name, lifetime_hours, material })
}

/// The format of stored timestamps: `YYYY-MM-DD HH:MM:SS`, in UTC.
pub open spec fn stored_time_format() -> Seq<char> {
    "%Y-%m-%d %H:%M:%S"@
}

/// The last second of the year 9999 (`9999-12-31 23:59:59` UTC): up to it
/// the stored format writes a four-digit year.
pub open spec fn last_four_digit_year_second() -> int {
    253402300799
}

/// From 1970 to the end of the year 9999.
pub open spec fn in_four_digit_years(secs: int) -> bool {
    0 <= secs <= last_four_digit_year_second()
}

/// The stored timestamp format.
pub fn time_format() -> (res: &'static str)
    ensures
        res@ == stored_time_format(),
{
    let f = "%Y-%m-%d %H:%M:%S";
    proof {
        reveal_strlit("%Y-%m-%d %H:%M:%S");
    }
    f
}

/// What `chrono::NaiveDateTime::parse_from_str(text, fmt)` gives, as
/// seconds since 1970-01-01 UTC and the nanosecond within the second;
/// `None` when the text does not parse.
pub uninterp spec fn timestamp_parts(text: Seq<char>, fmt: Seq<char>) -> Option<(i64, u32)>;

/// What chrono writes, with `format(fmt)`, for the UTC date-time `secs`
/// seconds after 1970-01-01; `None` when that lies outside chrono's
/// calendar.
pub uninterp spec fn utc_time_text(secs: i64, fmt: Seq<char>) -> Option<Seq<char>>;

/// `chrono::DateTime::from_timestamp(secs, 0)`, written with `format(fmt)`.
/// The contract claims that the text is determined by `secs` and `fmt`;
/// that from 1970 to the end of the year 9999 there is a text (chrono's
/// calendar runs to the year 262142); and that there `parse_from_str` with
/// the same format reads back `secs` and no nanoseconds (the year has four
/// digits, and every field of the date and time is written).
#[verifier::external_body]
fn format_utc_time(secs: i64, fmt: &str) -> (res: Option<String>)
    requires
        fmt@ == stored_time_format(),
    ensures
        match res {
            Some(t) => utc_time_text(secs, fmt@) == Some(t@),
            None => utc_time_text(secs, fmt@) is None,
        },
        in_four_digit_years(secs as int) ==> res is Some && timestamp_parts(res.unwrap()@, fmt@)
            == Some((secs, 0u32)),
{
    match chrono::DateTime::from_timestamp(secs, 0) {
        Some(t) => Some(t.naive_utc().format(fmt).to_string()),
        None => None,
    }
}

/// `chrono::NaiveDateTime::parse_from_str(text, fmt)`, taken as UTC: the
/// seconds (`timestamp`) and the nanosecond (`timestamp_subsec_nanos`). The
/// contract claims that the result is a function of the text and the
/// format. Two date-times compare as these pairs compare.
#[verifier::external_body]
fn parse_timestamp(text: &str, fmt: &str) -> (res: Option<(i64, u32)>)
    ensures
        res == timestamp_parts(text@, fmt@),
{
    match chrono::NaiveDateTime::parse_from_str(text, fmt) {
        Ok(t) => Some((t.and_utc().timestamp(), t.and_utc().timestamp_subsec_nanos())),
        Err(_) => None,
    }
}

/// Seconds that no date in chrono's calendar (years -262143 to 262142)
/// reaches, before or after 1970.
pub open spec fn clock_bound() -> int {
    0x800_0000_0000
}

/// The clock (`chrono::Utc::now()`): seconds since 1970-01-01 UTC and the
/// nanosecond within the second. The contract claims only that the
/// seconds lie within chrono's calendar; which instant is read is not
/// stated.
#[verifier::external_body]
fn clock_now() -> (res: (i64, u32))
    ensures
        -clock_bound() < res.0 < clock_bound(),
{
    let now = chrono::Utc::now();
    (now.timestamp(), now.timestamp_subsec_nanos())
}

/// The second at which a key made at `now_secs` with a lifetime of
/// `hours` hours expires.
pub open spec fn expiry_second(now_secs: i64, hours: i64) -> int {
    now_secs + 3600 * hours
}

/// The stored expiry of a key made at `now_secs`: none for a key that
/// never expires, else its expiry second in the stored format (none past
/// the end of chrono's calendar).
pub open spec fn expiry_text(now_secs: i64, lifetime_hours: Option<i64>) -> Option<Seq<char>> {
    match lifetime_hours {
        None => None,
        Some(h) => utc_time_text(expiry_second(now_secs, h) as i64, stored_time_format()),
    }
}

/// The stored expiry of a key made at the second `now_secs`: `now_secs`
/// plus the lifetime, written in the stored format; none when it never
/// expires. From 1970 to the year 9999 the text is there, and reads back
/// as that second.
pub fn expiry_at(now_secs: i64, lifetime_hours: Option<i64>) -> (res: Option<String>)
    requires
        lifetime_hours matches Some(h) ==> 0 <= h <= 8760 && expiry_second(now_secs, h)
            <= i64::MAX,
    ensures
        opt_string(res) == expiry_text(now_secs, lifetime_hours),
        lifetime_hours is Some && in_four_digit_years(
            expiry_second(now_secs, lifetime_hours.unwrap()),
        ) ==> res is Some && timestamp_parts(res.unwrap()@, stored_time_format()) == Some(
            (expiry_second(now_secs, lifetime_hours.unwrap()) as i64, 0u32),
        ),
{
    match lifetime_hours {
        None => None,
        Some(h) => {
            let secs = now_secs + 3600 * h;
            format_utc_time(secs, time_format())
        },
    }
}

/// The stored expiry of a new key: the clock's second plus its lifetime,
/// written in the stored format, or none when it never expires. Which
/// second the clock gives is not stated; from 1970 to the year 9999 the
/// text is there and reads back as the expiry second.
pub fn key_expiry(lifetime_hours: Option<i64>) -> (res: Option<String>)
    requires
        lifetime_hours matches Some(h) ==> 0 <= h <= 8760,
    ensures
        lifetime_hours is None ==> res is None,
        exists|now_secs: i64|
            -clock_bound() < now_secs < clock_bound() && #[trigger] expiry_text(
                now_secs,
                lifetime_hours,
            ) == opt_string(res) && (lifetime_hours is Some && in_four_digit_years(
                expiry_second(now_secs, lifetime_hours.unwrap()),
            ) ==> res is Some && timestamp_parts(res.unwrap()@, stored_time_format()) == Some(
                (expiry_second(now_secs, lifetime_hours.unwrap()) as i64, 0u32),
            )),
{
    let now = clock_now();
    let res = expiry_at(now.0, lifetime_hours);
    proof {
        assert(expiry_text(now.0, lifetime_hours) == opt_string(res));
    }
    res
}

/// `a` is strictly before `b`.
pub open spec fn before(a: (i64, u32), b: (i64, u32)) -> bool {
    a.0 < b.0 || (a.0 == b.0 && a.1 < b.1)
}

/// A key has expired when its expiry parses and lies before `now`; an
/// absent or unreadable expiry never expires.
pub open spec fn expired_at(expires_at: Option<Seq<char>>, now: (i64, u32)) -> bool {
    match expires_at {
        Some(t) => match timestamp_parts(t, stored_time_format()) {
            Some(p) => before(p, now),
            None => false,
        },
        None => false,
    }
}

/// Whether a stored expiry lies before `now`.
pub fn key_is_expired(expires_at: Option<&str>, now: (i64, u32)) -> (res: bool)
    ensures
        res == expired_at(crate::auth::opt_text(expires_at), now),
{
    match expires_at {
        Some(t) => match parse_timestamp(t, time_format()) {
            Some(p) => p.0 < now.0 || (p.0 == now.0 && p.1 < now.1),
            None => false,
        },
        None => false,
    }
}

pub open spec fn row_listed(row: ApiKeyRow, info: ApiKeyInfo, now: (i64, u32)) -> bool {
    &&& info.id == row.0
    &&& info.name@ == row.1@
    &&& info.preview@ == row.2@
    &&& opt_string(info.expires_at) == opt_string(row.3)
    &&& info.created_at@ == row.4@
    &&& info.expired == expired_at(opt_string(row.3), now)
}

/// Every row is listed against the instant `now`.
pub open spec fn listed_at(rows: Seq<ApiKeyRow>, keys: Seq<ApiKeyInfo>, now: (i64, u32)) -> bool {
    &&& keys.len() == rows.len()
    &&& forall|i: int| 0 <= i < rows.len() ==> #[trigger] row_listed(rows[i], keys[i], now)
}

fn copy_text(s: &String) -> (res: String)
    ensures
        res@ == s@,
{
    s.clone()
}

/// The listing of the stored keys at the instant `now`, row by row.
pub fn api_key_list_at(rows: &Vec<ApiKeyRow>, now: (i64, u32)) -> (res: ApiKeyListResponse)
    ensures
        res.success,
        res.keys@.len() == rows@.len(),
        forall|i: int| 0 <= i < rows@.len() ==> #[trigger] row_listed(rows@[i], res.keys@[i], now),
{
    let mut keys: Vec<ApiKeyInfo> = Vec::new();
    let mut i: usize = 0;
    while i < rows.len()
        invariant
            i <= rows@.len(),
            keys@.len() == i,
            forall|k: int| 0 <= k < i ==> #[trigger] row_listed(rows@[k], keys@[k], now),
        decreases rows@.len() - i,
    {
        let row = &rows[i];
        let expires_at = match &row.3 {
            Some(t) => Some(copy_text(t)),
            None => None,
        };
        let expired = match &row.3 {
            Some(t) => key_is_expired(Some(t.as_str()), now),
            None => false,
        };
        let info = ApiKeyInfo {
            id: row.0,
            name: copy_text(&row.1),
            preview: copy_text(&row.2),
            expires_at,
            expired,
            created_at: copy_text(&row.4),
        };
        keys.push(info);
        i = i + 1;
    }
    ApiKeyListResponse { success: true, keys }
}

/// The listing of the stored keys, read against the clock: every field
/// but the expiry flag is the row's, and a key is flagged only when its
/// expiry parses (which instant counts as now is the clock's).
pub fn api_key_list(rows: &Vec<ApiKeyRow>) -> (res: ApiKeyListResponse)
    ensures
        res.success,
        res.keys@.len() == rows@.len(),
        exists|now: (i64, u32)| #[trigger] listed_at(rows@, res.keys@, now),
{
    let now = clock_now();
    let res = api_key_list_at(rows, now);
    proof {
        assert(listed_at(rows@, res.keys@, now));
    }
    res
}

/// Answer to a key creation.
pub fn api_key_created(id: i64, key: String) -> (res: ApiKeyCreatedResponse)
    ensures
        res.success,
        res.id == id,
        res.key == key,
{
    ApiKeyCreatedResponse { success: true, id, key }
}

} // verus!
