use proxy_pulse::query::{
    admin_proxies_query, all_proxies_query, equals_ignore_ascii_case, search_term,
    sorted_proxies_query, top_proxies_query, SqlParam, SqlQuery,
};

const SELECT: &str = "SELECT p.id, p.ip, p.port, p.protocol, p.anonymity, p.country, p.score, p.is_alive, p.success_count, p.fail_count, p.consecutive_fails, p.avg_latency_ms, p.last_check_at, p.last_success_at, p.next_check_at, p.created_at, p.updated_at, p.source, p.subscription_id, p.group_name FROM proxies p";

fn placeholders(q: &SqlQuery) -> usize {
    q.sql.chars().filter(|c| *c == '?').count()
}

fn texts(q: &SqlQuery) -> Vec<String> {
    q.params
        .iter()
        .map(|p| match p {
            SqlParam::Text(t) => format!("T:{}", t),
            SqlParam::Int(i) => format!("I:{}", i),
        })
        .collect()
}

#[test]
fn top_query_with_and_without_group() {
    let q = top_proxies_query(10, Some("eu"));
    assert_eq!(q.sql, format!("{} WHERE p.is_alive = 1 AND p.group_name = ? ORDER BY p.score DESC LIMIT ?", SELECT));
    assert_eq!(texts(&q), vec!["T:eu", "I:10"]);
    let all = top_proxies_query(5, Some("ALL"));
    assert_eq!(all.sql, format!("{} WHERE p.is_alive = 1 ORDER BY p.score DESC LIMIT ?", SELECT));
    assert_eq!(texts(&all), vec!["I:5"]);
    assert_eq!(texts(&top_proxies_query(5, Some(""))), vec!["I:5"]);
    assert_eq!(placeholders(&q), q.params.len());
}

#[test]
fn sorted_query_orders() {
    let q = sorted_proxies_query("latency", Some(3), Some("US"));
    assert_eq!(q.sql, format!("{} WHERE p.is_alive = 1 AND p.country = ? ORDER BY avg_latency_ms ASC LIMIT 3", SELECT));
    assert_eq!(texts(&q), vec!["T:US"]);
    let r = sorted_proxies_query("success_rate", None, Some("all"));
    assert_eq!(r.sql, format!("{} WHERE p.is_alive = 1 ORDER BY CAST(success_count AS REAL) / MAX(success_count + fail_count, 1) DESC", SELECT));
    assert!(r.params.is_empty());
    let s = sorted_proxies_query("whatever", Some(-7), None);
    assert!(s.sql.ends_with("ORDER BY score DESC LIMIT -7"));
    assert_eq!(placeholders(&s), 0);
    assert!(sorted_proxies_query("success_count", None, None).sql.ends_with("ORDER BY success_count DESC"));
}

#[test]
fn all_proxies_page() {
    let q = all_proxies_query(3, 20);
    assert_eq!(q.sql, format!("{} ORDER BY p.score DESC LIMIT ? OFFSET ?", SELECT));
    assert_eq!(texts(&q), vec!["I:20", "I:40"]);
}

#[test]
fn admin_listing_filters() {
    let q = admin_proxies_query(2, 50, Some(true), Some("http"), Some("eu"), None, Some("  1.2 "));
    let w = " WHERE p.is_alive = 1 AND p.protocol = ? AND p.group_name = ? AND (p.ip LIKE ? OR CAST(p.port AS TEXT) LIKE ? OR p.country LIKE ? OR p.source LIKE ? OR p.protocol LIKE ?)";
    assert_eq!(q.count.sql, format!("SELECT COUNT(*) FROM proxies p{}", w));
    assert_eq!(q.rows.sql, format!("{}{} ORDER BY p.updated_at DESC LIMIT ? OFFSET ?", SELECT, w));
    assert_eq!(texts(&q.count), vec!["T:http", "T:eu", "T:%1.2%", "T:%1.2%", "T:%1.2%", "T:%1.2%", "T:%1.2%"]);
    assert_eq!(texts(&q.rows).len(), 9);
    assert_eq!(texts(&q.rows)[7..].to_vec(), vec!["I:50".to_string(), "I:50".to_string()]);
    assert_eq!(placeholders(&q.count), q.count.params.len());
    assert_eq!(placeholders(&q.rows), q.rows.params.len());
    let d = admin_proxies_query(1, 20, Some(true), Some("all"), Some("All"), Some("dead"), Some("   "));
    assert_eq!(d.count.sql, "SELECT COUNT(*) FROM proxies p WHERE p.is_alive = 0 AND p.last_check_at IS NOT NULL");
    assert!(d.count.params.is_empty());
    let u = admin_proxies_query(1, 20, None, None, None, Some("untested"), None);
    assert_eq!(u.count.sql, "SELECT COUNT(*) FROM proxies p WHERE p.last_check_at IS NULL");
    let n = admin_proxies_query(1, 20, Some(false), None, None, Some("bogus"), None);
    assert_eq!(n.count.sql, "SELECT COUNT(*) FROM proxies p");
    let f = admin_proxies_query(1, 20, Some(false), None, None, None, None);
    assert_eq!(f.count.sql, "SELECT COUNT(*) FROM proxies p WHERE p.is_alive = 0");
}

#[test]
fn search_and_case_helpers() {
    assert_eq!(search_term(Some(" de ")), Some("%de%".to_string()));
    assert_eq!(search_term(Some("  ")), None);
    assert_eq!(search_term(None), None);
    assert!(equals_ignore_ascii_case("ALL", "all"));
    assert!(!equals_ignore_ascii_case("al", "all"));
}
