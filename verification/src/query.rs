//! SQL text of the proxy listings. Each builder returns the statement and
//! the values to bind to its `?` placeholders, in order; every builder
//! states that the statement has exactly one placeholder per value.

use vstd::prelude::*;

use crate::text::{chars_of, push_i64_text, push_str, signed_decimal_text, str_equals, string_from_chars, trim, trim_chars};

verus! {

/// A value bound to a placeholder.
#[derive(Debug)]
pub enum SqlParam {
    Text(String),
    Int(i64),
}

/// Plain-value form of a bound value.
pub enum SqlParamView {
    Text(Seq<char>),
    Int(i64),
}

impl View for SqlParam {
    type V = SqlParamView;

    open spec fn view(&self) -> SqlParamView {
        match self {
            SqlParam::Text(s) => SqlParamView::Text(s@),
            SqlParam::Int(i) => SqlParamView::Int(*i),
        }
    }
}

pub open spec fn params_view(ps: Seq<SqlParam>) -> Seq<SqlParamView> {
    ps.map_values(|p: SqlParam| p@)
}

/// A statement and the values of its placeholders.
#[derive(Debug)]
pub struct SqlQuery {
    pub sql: String,
    pub params: Vec<SqlParam>,
}

/// Occurrences of `c` in `s`.
pub open spec fn count_char(s: Seq<char>, c: char) -> nat
    decreases s.len(),
{
    if s.len() == 0 {
        0
    } else {
        count_char(s.drop_last(), c) + if s.last() == c {
            1nat
        } else {
            0nat
        }
    }
}

/// Number of `?` placeholders in a statement.
pub open spec fn placeholders(sql: Seq<char>) -> nat {
    count_char(sql, '?')
}

pub proof fn lemma_count_concat(a: Seq<char>, b: Seq<char>, c: char)
    ensures
        count_char(a + b, c) == count_char(a, c) + count_char(b, c),
    decreases b.len(),
{
    if b.len() == 0 {
        assert(a + b =~= a);
    } else {
        assert((a + b).drop_last() =~= a + b.drop_last());
        lemma_count_concat(a, b.drop_last(), c);
    }
}

pub proof fn lemma_count_absent(s: Seq<char>, c: char)
    requires
        !s.contains(c),
    ensures
        count_char(s, c) == 0,
    decreases s.len(),
{
    if s.len() > 0 {
        assert(!s.drop_last().contains(c)) by {
            if s.drop_last().contains(c) {
                let k = choose|k: int| 0 <= k < s.drop_last().len() && s.drop_last()[k] == c;
                assert(s[k] == c);
            }
        }
        assert(s.last() == s[s.len() - 1]);
        lemma_count_absent(s.drop_last(), c);
    }
}

pub proof fn lemma_decimal_has_no_question(n: nat)
    ensures
        !crate::text::decimal_text(n).contains('?'),
    decreases n,
{
    let s = crate::text::decimal_text(n);
    if n >= 10 {
        lemma_decimal_has_no_question(n / 10);
        let p = crate::text::decimal_text(n / 10);
        if s.contains('?') {
            let k = choose|k: int| 0 <= k < s.len() && s[k] == '?';
            if k < p.len() {
                assert(s[k] == p[k]);
            }
        }
    }
}

/// Appends statement text that holds no placeholder.
fn push_sql(s: &mut String, text: &str)
    requires
        !text@.contains('?'),
    ensures
        final(s)@ == old(s)@ + text@,
        placeholders(final(s)@) == placeholders(old(s)@),
{
    push_str(s, text);
    proof {
        lemma_count_concat(old(s)@, text@, '?');
        lemma_count_absent(text@, '?');
    }
}

/// Appends a placeholder.
fn push_placeholder(s: &mut String)
    ensures
        final(s)@ == old(s)@ + "?"@,
        placeholders(final(s)@) == placeholders(old(s)@) + 1,
{
    push_str(s, "?");
    proof {
        reveal_strlit("?");
        lemma_count_concat(old(s)@, "?"@, '?');
        assert("?"@.drop_last() =~= Seq::<char>::empty());
        assert(count_char(Seq::<char>::empty(), '?') == 0);
        assert("?"@.last() == '?');
        assert(count_char("?"@, '?') == 1);
    }
}

pub open spec fn select_proxies() -> Seq<char> {
    "SELECT p.id, p.ip, p.port, p.protocol, p.anonymity, p.country, p.score, p.is_alive, p.success_count, p.fail_count, p.consecutive_fails, p.avg_latency_ms, p.last_check_at, p.last_success_at, p.next_check_at, p.created_at, p.updated_at, p.source, p.subscription_id, p.group_name FROM proxies p"@
}

fn start_select() -> (res: String)
    ensures
        res@ == select_proxies(),
        placeholders(res@) == 0,
{
    let mut s = String::new();
    proof {
        reveal_strlit("SELECT p.id, p.ip, p.port, p.protocol, p.anonymity, p.country, p.score, p.is_alive, p.success_count, p.fail_count, p.consecutive_fails, p.avg_latency_ms, p.last_check_at, p.last_success_at, p.next_check_at, p.created_at, p.updated_at, p.source, p.subscription_id, p.group_name FROM proxies p");
    }
    push_sql(&mut s, "SELECT p.id, p.ip, p.port, p.protocol, p.anonymity, p.country, p.score, p.is_alive, p.success_count, p.fail_count, p.consecutive_fails, p.avg_latency_ms, p.last_check_at, p.last_success_at, p.next_check_at, p.created_at, p.updated_at, p.source, p.subscription_id, p.group_name FROM proxies p");
    proof {
        assert(s@ =~= select_proxies());
    }
    s
}

pub open spec fn ascii_lower(c: char) -> char {
    if 'A' <= c && c <= 'Z' {
        ((c as u32) + 32) as char
    } else {
        c
    }
}

/// `str::eq_ignore_ascii_case`.
pub open spec fn eq_ignore_ascii_case(a: Seq<char>, b: Seq<char>) -> bool {
    a.len() == b.len() && forall|i: int| 0 <= i < a.len() ==> ascii_lower(a[i]) == ascii_lower(
        #[trigger] b[i],
    )
}

fn lower_ascii(c: char) -> (res: char)
    ensures
        res == ascii_lower(c),
{
    if 'A' <= c && c <= 'Z' {
        ((c as u32) + 32) as u8 as char
    } else {
        c
    }
}

/// Equality of two texts up to ASCII case.
pub fn equals_ignore_ascii_case(a: &str, b: &str) -> (res: bool)
    ensures
        res == eq_ignore_ascii_case(a@, b@),
{
    let x = chars_of(a);
    let y = chars_of(b);
    if x.len() != y.len() {
        return false;
    }
    let mut i: usize = 0;
    while i < x.len()
        invariant
            i <= x@.len(),
            x@.len() == y@.len(),
            x@ == a@,
            y@ == b@,
            forall|j: int| 0 <= j < i ==> ascii_lower(x@[j]) == ascii_lower(#[trigger] y@[j]),
        decreases x@.len() - i,
    {
        if lower_ascii(x[i]) != lower_ascii(y[i]) {
            return false;
        }
        i = i + 1;
    }
    true
}

/// A group filter applies unless it is missing, empty, or `all` in any case.
pub open spec fn group_filter_active(group: Option<Seq<char>>) -> bool {
    match group {
        Some(g) => g.len() > 0 && !eq_ignore_ascii_case(g, "all"@),
        None => false,
    }
}

/// A protocol or country filter applies unless it is missing, empty, or `all`.
pub open spec fn value_filter_active(value: Option<Seq<char>>) -> bool {
    match value {
        Some(v) => v.len() > 0 && v != "all"@,
        None => false,
    }
}

pub open spec fn opt_str(o: Option<&str>) -> Option<Seq<char>> {
    match o {
        Some(s) => Some(s@),
        None => None,
    }
}

fn group_active(group: Option<&str>) -> (res: bool)
    ensures
        res == group_filter_active(opt_str(group)),
{
    match group {
        Some(g) => !g.is_empty() && !equals_ignore_ascii_case(g, "all"),
        None => false,
    }
}

fn value_active(value: Option<&str>) -> (res: bool)
    ensures
        res == value_filter_active(opt_str(value)),
{
    match value {
        Some(v) => !v.is_empty() && !str_equals(v, "all"),
        None => false,
    }
}

fn owned(s: &str) -> (res: String)
    ensures
        res@ == s@,
{
    string_from_chars(chars_of(s).as_slice())
}

// ---------------------------------------------------------------------
// Top proxies
// ---------------------------------------------------------------------

pub open spec fn top_sql(has_group: bool) -> Seq<char> {
    select_proxies() + " WHERE p.is_alive = 1"@ + (if has_group {
        " AND p.group_name = ?"@
    } else {
        Seq::empty()
    }) + " ORDER BY p.score DESC LIMIT ?"@
}

/// The best-scored alive proxies, optionally of one group.
pub fn top_proxies_query(limit: i64, group: Option<&str>) -> (res: SqlQuery)
    ensures
        res.sql@ == top_sql(group_filter_active(opt_str(group))),
        params_view(res.params@) == if group_filter_active(opt_str(group)) {
            seq![SqlParamView::Text(group.unwrap()@), SqlParamView::Int(limit)]
        } else {
            seq![SqlParamView::Int(limit)]
        },
        placeholders(res.sql@) == res.params@.len(),
{
    let has_group = group_active(group);
    let mut sql = start_select();
    let mut params: Vec<SqlParam> = Vec::new();
    proof {
        reveal_strlit(" WHERE p.is_alive = 1");
        reveal_strlit(" AND p.group_name = ");
        reveal_strlit(" ORDER BY p.score DESC LIMIT ");
    }
    push_sql(&mut sql, " WHERE p.is_alive = 1");
    let ghost s1 = sql@;
    if has_group {
        push_sql(&mut sql, " AND p.group_name = ");
        push_placeholder(&mut sql);
        params.push(SqlParam::Text(owned(group.unwrap())));
        proof {
            reveal_strlit(" AND p.group_name = ?");
            reveal_strlit("?");
            assert(sql@ =~= s1 + " AND p.group_name = ?"@);
        }
    }
    let ghost s2 = sql@;
    push_sql(&mut sql, " ORDER BY p.score DESC LIMIT ");
    push_placeholder(&mut sql);
    params.push(SqlParam::Int(limit));
    proof {
        reveal_strlit(" ORDER BY p.score DESC LIMIT ?");
        reveal_strlit("?");
        assert(sql@ =~= s2 + " ORDER BY p.score DESC LIMIT ?"@);
        if has_group {
            assert(sql@ =~= top_sql(true));
        } else {
            assert(s2 =~= s1 + Seq::<char>::empty());
            assert(sql@ =~= top_sql(false));
        }
        assert(params_view(params@) =~= if has_group {
            seq![SqlParamView::Text(group.unwrap()@), SqlParamView::Int(limit)]
        } else {
            seq![SqlParamView::Int(limit)]
        });
    }
    SqlQuery { sql, params }
}

// ---------------------------------------------------------------------
// Sorted export
// ---------------------------------------------------------------------

pub open spec fn order_clause(sort: Seq<char>) -> Seq<char> {
    if sort == "latency"@ {
        "avg_latency_ms ASC"@
    } else if sort == "success_rate"@ {
        "CAST(success_count AS REAL) / MAX(success_count + fail_count, 1) DESC"@
    } else if sort == "success_count"@ {
        "success_count DESC"@
    } else {
        "score DESC"@
    }
}

pub open spec fn sorted_sql(sort: Seq<char>, limit: Option<i64>, has_country: bool) -> Seq<char> {
    select_proxies() + " WHERE p.is_alive = 1"@ + (if has_country {
        " AND p.country = ?"@
    } else {
        Seq::empty()
    }) + " ORDER BY "@ + order_clause(sort) + match limit {
        Some(l) => " LIMIT "@ + signed_decimal_text(l as int),
        None => Seq::empty(),
    }
}

/// Alive proxies in the export order (`latency` ascending, `success_rate`,
/// `success_count` or, for anything else, `score` descending), optionally
/// of one country, optionally limited.
pub fn sorted_proxies_query(sort: &str, limit: Option<i64>, country: Option<&str>) -> (res: SqlQuery)
    ensures
        res.sql@ == sorted_sql(sort@, limit, value_filter_active(opt_str(country))),
        params_view(res.params@) == if value_filter_active(opt_str(country)) {
            seq![SqlParamView::Text(country.unwrap()@)]
        } else {
            Seq::<SqlParamView>::empty()
        },
        placeholders(res.sql@) == res.params@.len(),
{
    let has_country = value_active(country);
    let mut sql = start_select();
    let mut params: Vec<SqlParam> = Vec::new();
    proof {
        reveal_strlit(" WHERE p.is_alive = 1");
        reveal_strlit(" AND p.country = ");
        reveal_strlit(" ORDER BY ");
        reveal_strlit("avg_latency_ms ASC");
        reveal_strlit("CAST(success_count AS REAL) / MAX(success_count + fail_count, 1) DESC");
        reveal_strlit("success_count DESC");
        reveal_strlit("score DESC");
        reveal_strlit(" LIMIT ");
    }
    push_sql(&mut sql, " WHERE p.is_alive = 1");
    let ghost s1 = sql@;
    if has_country {
        push_sql(&mut sql, " AND p.country = ");
        push_placeholder(&mut sql);
        params.push(SqlParam::Text(owned(country.unwrap())));
        proof {
            reveal_strlit(" AND p.country = ?");
            reveal_strlit("?");
            assert(sql@ =~= s1 + " AND p.country = ?"@);
        }
    }
    let ghost s2 = sql@;
    push_sql(&mut sql, " ORDER BY ");
    let order = if str_equals(sort, "latency") {
        "avg_latency_ms ASC"
    } else if str_equals(sort, "success_rate") {
        "CAST(success_count AS REAL) / MAX(success_count + fail_count, 1) DESC"
    } else if str_equals(sort, "success_count") {
        "success_count DESC"
    } else {
        "score DESC"
    };
    push_sql(&mut sql, order);
    let ghost s3 = sql@;
    match limit {
        Some(l) => {
            push_sql(&mut sql, " LIMIT ");
            let ghost s4 = sql@;
            push_i64_text(&mut sql, l);
            proof {
                let d = signed_decimal_text(l as int);
                if l < 0 {
                    lemma_decimal_has_no_question((-(l as int)) as nat);
                    assert(!d.contains('?')) by {
                        if d.contains('?') {
                            let k = choose|k: int| 0 <= k < d.len() && d[k] == '?';
                            if k > 0 {
                                assert(d[k] == crate::text::decimal_text((-(l as int)) as nat)[k
                                    - 1]);
                            }
                        }
                    }
                } else {
                    lemma_decimal_has_no_question(l as nat);
                }
                lemma_count_concat(s4, d, '?');
                lemma_count_absent(d, '?');
                assert(sql@ =~= s3 + (" LIMIT "@ + d));
            }
        },
        None => {
            proof {
                assert(sql@ =~= s3 + Seq::<char>::empty());
            }
        },
    }
    proof {
        if !has_country {
            assert(s2 =~= s1 + Seq::<char>::empty());
        }
        assert(sql@ =~= sorted_sql(sort@, limit, has_country));
        assert(params_view(params@) =~= if has_country {
            seq![SqlParamView::Text(country.unwrap()@)]
        } else {
            Seq::<SqlParamView>::empty()
        });
    }
    SqlQuery { sql, params }
}

// ---------------------------------------------------------------------
// Pages of all proxies
// ---------------------------------------------------------------------

pub open spec fn all_page_sql() -> Seq<char> {
    select_proxies() + " ORDER BY p.score DESC LIMIT ? OFFSET ?"@
}

/// One page of all proxies by score.
pub fn all_proxies_query(page: i64, per_page: i64) -> (res: SqlQuery)
    requires
        i64::MIN <= (page - 1) * per_page <= i64::MAX,
        page > i64::MIN,
    ensures
        res.sql@ == all_page_sql(),
        params_view(res.params@) == seq![
            SqlParamView::Int(per_page),
            SqlParamView::Int(((page - 1) * per_page) as i64),
        ],
        placeholders(res.sql@) == res.params@.len(),
{
    let offset = crate::api::page_offset(page, per_page);
    let mut sql = start_select();
    proof {
        reveal_strlit(" ORDER BY p.score DESC LIMIT ");
        reveal_strlit(" OFFSET ");
    }
    push_sql(&mut sql, " ORDER BY p.score DESC LIMIT ");
    push_placeholder(&mut sql);
    push_sql(&mut sql, " OFFSET ");
    push_placeholder(&mut sql);
    let mut params: Vec<SqlParam> = Vec::new();
    params.push(SqlParam::Int(per_page));
    params.push(SqlParam::Int(offset));
    proof {
        reveal_strlit(" ORDER BY p.score DESC LIMIT ? OFFSET ?");
        reveal_strlit("?");
        assert(sql@ =~= all_page_sql());
        assert(params_view(params@) =~= seq![
            SqlParamView::Int(per_page),
            SqlParamView::Int(offset),
        ]);
    }
    SqlQuery { sql, params }
}

} // verus!

verus! {

// ---------------------------------------------------------------------
// Administrator's listing
// ---------------------------------------------------------------------

pub open spec fn search_clause() -> Seq<char> {
    "(p.ip LIKE ? OR CAST(p.port AS TEXT) LIKE ? OR p.country LIKE ? OR p.source LIKE ? OR p.protocol LIKE ?)"@
}

/// The condition of the state filter (which wins over the alive filter):
/// `alive`, `dead` (checked and not alive) or `untested`; an unknown state
/// filters nothing.
pub open spec fn state_clauses(alive: Option<bool>, status: Option<Seq<char>>) -> Seq<Seq<char>> {
    match status {
        Some(st) => if st == "alive"@ {
            seq!["p.is_alive = 1"@]
        } else if st == "dead"@ {
            seq!["p.is_alive = 0 AND p.last_check_at IS NOT NULL"@]
        } else if st == "untested"@ {
            seq!["p.last_check_at IS NULL"@]
        } else {
            Seq::empty()
        },
        None => match alive {
            Some(true) => seq!["p.is_alive = 1"@],
            Some(false) => seq!["p.is_alive = 0"@],
            None => Seq::empty(),
        },
    }
}

/// The search pattern: `%text%` of the trimmed search, when not blank.
pub open spec fn search_pattern(search: Option<Seq<char>>) -> Option<Seq<char>> {
    match search {
        Some(s) => if trim(s).len() > 0 {
            Some(seq!['%'] + trim(s) + seq!['%'])
        } else {
            None
        },
        None => None,
    }
}

/// All conditions of the administrator's listing, in order.
pub open spec fn admin_clauses(
    alive: Option<bool>,
    protocol: Option<Seq<char>>,
    group: Option<Seq<char>>,
    status: Option<Seq<char>>,
    search: Option<Seq<char>>,
) -> Seq<Seq<char>> {
    state_clauses(alive, status) + (if value_filter_active(protocol) {
        seq!["p.protocol = ?"@]
    } else {
        Seq::empty()
    }) + (if group_filter_active(group) {
        seq!["p.group_name = ?"@]
    } else {
        Seq::empty()
    }) + (if search_pattern(search) is Some {
        seq![search_clause()]
    } else {
        Seq::empty()
    })
}

/// ` WHERE c1 AND c2 ...`, or nothing without conditions.
pub open spec fn where_text(clauses: Seq<Seq<char>>) -> Seq<char>
    decreases clauses.len(),
{
    if clauses.len() == 0 {
        Seq::empty()
    } else if clauses.len() == 1 {
        " WHERE "@ + clauses[0]
    } else {
        where_text(clauses.drop_last()) + " AND "@ + clauses.last()
    }
}

/// The values of the conditions' placeholders, in order.
pub open spec fn admin_filter_params(
    protocol: Option<Seq<char>>,
    group: Option<Seq<char>>,
    search: Option<Seq<char>>,
) -> Seq<SqlParamView> {
    (if value_filter_active(protocol) {
        seq![SqlParamView::Text(protocol.unwrap())]
    } else {
        Seq::empty()
    }) + (if group_filter_active(group) {
        seq![SqlParamView::Text(group.unwrap())]
    } else {
        Seq::empty()
    }) + match search_pattern(search) {
        Some(t) => seq![
            SqlParamView::Text(t),
            SqlParamView::Text(t),
            SqlParamView::Text(t),
            SqlParamView::Text(t),
            SqlParamView::Text(t),
        ],
        None => Seq::empty(),
    }
}

/// The two statements of a listing page: the count of all matching rows,
/// and the rows of the page.
#[derive(Debug)]
pub struct PagedQuery {
    pub count: SqlQuery,
    pub rows: SqlQuery,
}

fn push_condition(w: &mut String, first: bool, clause: &str)
    requires
        !clause@.contains('?'),
    ensures
        final(w)@ == old(w)@ + (if first { " WHERE "@ } else { " AND "@ }) + clause@,
        placeholders(final(w)@) == placeholders(old(w)@),
{
    proof {
        reveal_strlit(" WHERE ");
        reveal_strlit(" AND ");
    }
    if first {
        push_sql(w, " WHERE ");
    } else {
        push_sql(w, " AND ");
    }
    push_sql(w, clause);
}

fn push_search_condition(w: &mut String, first: bool)
    ensures
        final(w)@ == old(w)@ + (if first { " WHERE "@ } else { " AND "@ }) + search_clause(),
        placeholders(final(w)@) == placeholders(old(w)@) + 5,
{
    proof {
        reveal_strlit(" WHERE ");
        reveal_strlit(" AND ");
        reveal_strlit("(p.ip LIKE ");
        reveal_strlit(" OR CAST(p.port AS TEXT) LIKE ");
        reveal_strlit(" OR p.country LIKE ");
        reveal_strlit(" OR p.source LIKE ");
        reveal_strlit(" OR p.protocol LIKE ");
        reveal_strlit(")");
    }
    let ghost start = w@;
    if first {
        push_sql(w, " WHERE ");
    } else {
        push_sql(w, " AND ");
    }
    let ghost s0 = w@;
    push_sql(w, "(p.ip LIKE ");
    push_placeholder(w);
    push_sql(w, " OR CAST(p.port AS TEXT) LIKE ");
    push_placeholder(w);
    push_sql(w, " OR p.country LIKE ");
    push_placeholder(w);
    push_sql(w, " OR p.source LIKE ");
    push_placeholder(w);
    push_sql(w, " OR p.protocol LIKE ");
    push_placeholder(w);
    push_sql(w, ")");
    proof {
        reveal_strlit("?");
        reveal_strlit("(p.ip LIKE ? OR CAST(p.port AS TEXT) LIKE ? OR p.country LIKE ? OR p.source LIKE ? OR p.protocol LIKE ?)");
        assert(w@ =~= s0 + search_clause());
    }
}

pub proof fn lemma_where_text_push(clauses: Seq<Seq<char>>, c: Seq<char>)
    ensures
        where_text(clauses.push(c)) == where_text(clauses) + (if clauses.len() == 0 {
            " WHERE "@
        } else {
            " AND "@
        }) + c,
{
    if clauses.len() == 0 {
        assert(clauses.push(c)[0] == c);
        assert(Seq::<char>::empty() + " WHERE "@ + c =~= " WHERE "@ + c);
    } else {
        assert(clauses.push(c).drop_last() =~= clauses);
    }
}

fn state_condition(filter_alive: Option<bool>, filter_status: Option<&str>) -> (res: Option<&'static str>)
    ensures
        match res {
            Some(c) => state_clauses(filter_alive, opt_str(filter_status)) == seq![c@] && !c@.contains(
                '?',
            ),
            None => state_clauses(filter_alive, opt_str(filter_status)) == Seq::<Seq<char>>::empty(),
        },
{
    proof {
        reveal_strlit("p.is_alive = 1");
        reveal_strlit("p.is_alive = 0 AND p.last_check_at IS NOT NULL");
        reveal_strlit("p.last_check_at IS NULL");
        reveal_strlit("p.is_alive = 0");
    }
    match filter_status {
        Some(st) => if str_equals(st, "alive") {
            Some("p.is_alive = 1")
        } else if str_equals(st, "dead") {
            Some("p.is_alive = 0 AND p.last_check_at IS NOT NULL")
        } else if str_equals(st, "untested") {
            Some("p.last_check_at IS NULL")
        } else {
            None
        },
        None => match filter_alive {
            Some(true) => Some("p.is_alive = 1"),
            Some(false) => Some("p.is_alive = 0"),
            None => None,
        },
    }
}

/// The ` WHERE ...` part of the administrator's listing and the values of
/// its placeholders.
#[verifier::spinoff_prover]
#[verifier::rlimit(50)]
fn admin_conditions(
    filter_alive: Option<bool>,
    filter_protocol: Option<&str>,
    filter_group: Option<&str>,
    filter_status: Option<&str>,
    search: Option<&str>,
) -> (res: (String, Vec<SqlParam>))
    ensures
        res.0@ == where_text(
            admin_clauses(
                filter_alive,
                opt_str(filter_protocol),
                opt_str(filter_group),
                opt_str(filter_status),
                opt_str(search),
            ),
        ),
        params_view(res.1@) == admin_filter_params(
            opt_str(filter_protocol),
            opt_str(filter_group),
            opt_str(search),
        ),
        placeholders(res.0@) == res.1@.len(),
{
    let ghost clauses = admin_clauses(
        filter_alive,
        opt_str(filter_protocol),
        opt_str(filter_group),
        opt_str(filter_status),
        opt_str(search),
    );
    let mut w = String::new();
    let mut n: usize = 0;
    let ghost mut added: Seq<Seq<char>> = Seq::empty();
    proof {
        reveal_strlit("p.protocol = ");
        reveal_strlit("p.group_name = ");
        reveal_strlit("?");
        reveal_strlit("p.protocol = ?");
        reveal_strlit("p.group_name = ?");
        assert(w@ =~= where_text(added));
        assert(count_char(Seq::<char>::empty(), '?') == 0);
    }
    match state_condition(filter_alive, filter_status) {
        Some(c) => {
            push_condition(&mut w, true, c);
            proof {
                lemma_where_text_push(added, c@);
                added = added.push(c@);
            }
            n = n + 1;
        },
        None => {},
    }
    proof {
        assert(added =~= state_clauses(filter_alive, opt_str(filter_status)));
        assert(n as int == added.len());
    }
    let mut params: Vec<SqlParam> = Vec::new();
    if value_active(filter_protocol) {
        push_condition(&mut w, n == 0, "p.protocol = ");
        push_placeholder(&mut w);
        proof {
            assert(w@ =~= where_plus(where_text(added), n == 0, "p.protocol = ?"@));
            lemma_where_text_push(added, "p.protocol = ?"@);
            added = added.push("p.protocol = ?"@);
        }
        n = n + 1;
        params.push(SqlParam::Text(owned(filter_protocol.unwrap())));
    }
    if group_active(filter_group) {
        push_condition(&mut w, n == 0, "p.group_name = ");
        push_placeholder(&mut w);
        proof {
            assert(w@ =~= where_plus(where_text(added), n == 0, "p.group_name = ?"@));
            lemma_where_text_push(added, "p.group_name = ?"@);
            added = added.push("p.group_name = ?"@);
        }
        n = n + 1;
        params.push(SqlParam::Text(owned(filter_group.unwrap())));
    }
    let term = search_term(search);
    match &term {
        Some(t) => {
            push_search_condition(&mut w, n == 0);
            proof {
                lemma_where_text_push(added, search_clause());
                added = added.push(search_clause());
            }
            params.push(SqlParam::Text(owned(t.as_str())));
            params.push(SqlParam::Text(owned(t.as_str())));
            params.push(SqlParam::Text(owned(t.as_str())));
            params.push(SqlParam::Text(owned(t.as_str())));
            params.push(SqlParam::Text(owned(t.as_str())));
        },
        None => {},
    }
    proof {
        assert(added =~= clauses);
        assert(params_view(params@) =~= admin_filter_params(
            opt_str(filter_protocol),
            opt_str(filter_group),
            opt_str(search),
        ));
    }
    (w, params)
}

fn copy_param(p: &SqlParam) -> (res: SqlParam)
    ensures
        res@ == p@,
{
    match p {
        SqlParam::Text(s) => SqlParam::Text(owned(s.as_str())),
        SqlParam::Int(i) => SqlParam::Int(*i),
    }
}

fn copy_params(ps: &Vec<SqlParam>) -> (res: Vec<SqlParam>)
    ensures
        params_view(res@) == params_view(ps@),
{
    let mut out: Vec<SqlParam> = Vec::new();
    let mut k: usize = 0;
    while k < ps.len()
        invariant
            k <= ps@.len(),
            params_view(out@) == params_view(ps@).take(k as int),
        decreases ps@.len() - k,
    {
        let p = copy_param(&ps[k]);
        let ghost prev = out@;
        out.push(p);
        proof {
            assert(params_view(out@) =~= params_view(prev).push(ps@[k as int]@));
            assert(params_view(ps@).take(k + 1) =~= params_view(ps@).take(k as int).push(
                ps@[k as int]@,
            ));
        }
        k = k + 1;
    }
    proof {
        assert(params_view(ps@).take(k as int) =~= params_view(ps@));
    }
    out
}

/// The count and the page of the administrator's proxy listing (newest
/// changes first), filtered by state (or, without it, by the alive flag),
/// protocol, group and a search over address, port, country, source and
/// protocol.
pub fn admin_proxies_query(
    page: i64,
    per_page: i64,
    filter_alive: Option<bool>,
    filter_protocol: Option<&str>,
    filter_group: Option<&str>,
    filter_status: Option<&str>,
    search: Option<&str>,
) -> (res: PagedQuery)
    requires
        i64::MIN <= (page - 1) * per_page <= i64::MAX,
        page > i64::MIN,
    ensures
        ({
            let clauses = admin_clauses(
                filter_alive,
                opt_str(filter_protocol),
                opt_str(filter_group),
                opt_str(filter_status),
                opt_str(search),
            );
            let filters = admin_filter_params(
                opt_str(filter_protocol),
                opt_str(filter_group),
                opt_str(search),
            );
            &&& res.count.sql@ == "SELECT COUNT(*) FROM proxies p"@ + where_text(clauses)
            &&& params_view(res.count.params@) == filters
            &&& res.rows.sql@ == select_proxies() + where_text(clauses)
                + " ORDER BY p.updated_at DESC LIMIT ? OFFSET ?"@
            &&& params_view(res.rows.params@) == filters + seq![
                SqlParamView::Int(per_page),
                SqlParamView::Int(((page - 1) * per_page) as i64),
            ]
        }),
        placeholders(res.count.sql@) == res.count.params@.len(),
        placeholders(res.rows.sql@) == res.rows.params@.len(),
{
    let offset = crate::api::page_offset(page, per_page);
    let (w, params) = admin_conditions(
        filter_alive,
        filter_protocol,
        filter_group,
        filter_status,
        search,
    );
    let mut count_sql = String::new();
    proof {
        reveal_strlit("SELECT COUNT(*) FROM proxies p");
        reveal_strlit(" ORDER BY p.updated_at DESC LIMIT ");
        reveal_strlit(" OFFSET ");
        reveal_strlit("?");
        assert(count_char(Seq::<char>::empty(), '?') == 0);
    }
    push_sql(&mut count_sql, "SELECT COUNT(*) FROM proxies p");
    let ghost c0 = count_sql@;
    push_str(&mut count_sql, w.as_str());
    proof {
        lemma_count_concat(c0, w@, '?');
    }
    let mut rows_sql = start_select();
    let ghost r0 = rows_sql@;
    push_str(&mut rows_sql, w.as_str());
    proof {
        lemma_count_concat(r0, w@, '?');
    }
    let ghost r1 = rows_sql@;
    push_sql(&mut rows_sql, " ORDER BY p.updated_at DESC LIMIT ");
    push_placeholder(&mut rows_sql);
    push_sql(&mut rows_sql, " OFFSET ");
    push_placeholder(&mut rows_sql);
    proof {
        reveal_strlit(" ORDER BY p.updated_at DESC LIMIT ? OFFSET ?");
        assert(rows_sql@ =~= r1 + " ORDER BY p.updated_at DESC LIMIT ? OFFSET ?"@);
    }
    let mut row_params = copy_params(&params);
    let ghost before = params_view(row_params@);
    row_params.push(SqlParam::Int(per_page));
    row_params.push(SqlParam::Int(offset));
    proof {
        assert(params_view(row_params@) =~= before + seq![
            SqlParamView::Int(per_page),
            SqlParamView::Int(offset),
        ]);
    }
    PagedQuery {
        count: SqlQuery { sql: count_sql, params },
        rows: SqlQuery { sql: rows_sql, params: row_params },
    }
}

pub open spec fn where_plus(w: Seq<char>, first: bool, c: Seq<char>) -> Seq<char> {
    w + (if first { " WHERE "@ } else { " AND "@ }) + c
}

/// The search pattern `%text%` of a non-blank search.
pub fn search_term(search: Option<&str>) -> (res: Option<String>)
    ensures
        match res {
            Some(t) => search_pattern(opt_str(search)) == Some(t@),
            None => search_pattern(opt_str(search)) is None,
        },
{
    match search {
        Some(s) => {
            let cs = chars_of(s);
            let t = trim_chars(cs.as_slice());
            if t.len() == 0 {
                None
            } else {
                let mut r = String::new();
                crate::text::push_chars(&mut r, &['%']);
                crate::text::push_chars(&mut r, t.as_slice());
                crate::text::push_chars(&mut r, &['%']);
                Some(r)
            }
        },
        None => None,
    }
}


/// In the administrator's listing a state filter decides alone: with a
/// state given, the alive flag changes none of the query's conditions
/// (its bound values never depend on that flag).
pub proof fn law_status_filter_wins(
    alive: Option<bool>,
    protocol: Option<Seq<char>>,
    group: Option<Seq<char>>,
    status: Seq<char>,
    search: Option<Seq<char>>,
)
    ensures
        admin_clauses(alive, protocol, group, Some(status), search) == admin_clauses(
            None,
            protocol,
            group,
            Some(status),
            search,
        ),
{
}


/// The state filter of the administrator's listing, whatever the alive
/// flag: `alive` keeps exactly the rows with `is_alive = 1`, `dead` the
/// checked rows that are not alive, `untested` the rows never checked.
/// Without a state, the alive flag keeps the alive or the dead rows, and
/// neither keeps all rows. With no other filter, the listing of alive
/// proxies counts `WHERE p.is_alive = 1`.
pub proof fn law_state_filter_conditions(alive: Option<bool>)
    ensures
        state_clauses(alive, Some("alive"@)) == seq!["p.is_alive = 1"@],
        state_clauses(alive, Some("dead"@)) == seq![
            "p.is_alive = 0 AND p.last_check_at IS NOT NULL"@,
        ],
        state_clauses(alive, Some("untested"@)) == seq!["p.last_check_at IS NULL"@],
        state_clauses(Some(true), None) == seq!["p.is_alive = 1"@],
        state_clauses(Some(false), None) == seq!["p.is_alive = 0"@],
        state_clauses(None, None) == Seq::<Seq<char>>::empty(),
        "SELECT COUNT(*) FROM proxies p"@ + where_text(
            admin_clauses(alive, None, None, Some("alive"@), None),
        ) == "SELECT COUNT(*) FROM proxies p WHERE p.is_alive = 1"@,
{
    reveal_strlit("alive");
    reveal_strlit("dead");
    reveal_strlit("untested");
    reveal_strlit(" WHERE ");
    reveal_strlit("p.is_alive = 1");
    reveal_strlit("SELECT COUNT(*) FROM proxies p");
    reveal_strlit("SELECT COUNT(*) FROM proxies p WHERE p.is_alive = 1");
    assert("alive"@.len() != "dead"@.len());
    assert("alive"@.len() != "untested"@.len());
    assert("dead"@.len() != "untested"@.len());
    let c = admin_clauses(alive, None, None, Some("alive"@), None);
    assert(search_pattern(None) is None);
    assert(c =~= seq!["p.is_alive = 1"@]);
    assert("SELECT COUNT(*) FROM proxies p"@ + where_text(c)
        =~= "SELECT COUNT(*) FROM proxies p WHERE p.is_alive = 1"@);
}

} // verus!
