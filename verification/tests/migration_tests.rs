use proxy_pulse::migration::{
    migrations, needs_check_logs_repair, needs_address_unique_migration, pending_migrations,
    Migration, BASE_SCHEMA_VERSION,
};

#[test]
fn repairs_are_detected_from_table_text() {
    assert!(needs_check_logs_repair(Some("CREATE TABLE check_logs (... REFERENCES \"proxies_old\"(id))")));
    assert!(!needs_check_logs_repair(Some("CREATE TABLE check_logs (... REFERENCES proxies(id))")));
    assert!(!needs_check_logs_repair(None));
    assert!(!needs_address_unique_migration(Some("CREATE TABLE proxies (..., UNIQUE(ip, port))")));
    assert!(needs_address_unique_migration(Some("CREATE TABLE proxies (..., UNIQUE(ip, port, protocol))")));
    assert!(needs_address_unique_migration(Some("CREATE TABLE proxies (id INTEGER, ip TEXT)")));
    assert!(!needs_address_unique_migration(None));
}

#[test]
fn known_migrations_in_order() {
    let m = migrations();
    let versions: Vec<&str> = m.iter().map(|x| x.version).collect();
    assert_eq!(versions, vec!["1.0.1", "1.1.0", "1.2.0"]);
    assert_eq!(m[0].description, "create migration logs table");
    assert_eq!(BASE_SCHEMA_VERSION, "1.0.0");
}

#[test]
fn pending_migrations_after_current_version() {
    let table = migrations();
    let (all, failed) = pending_migrations(&table, "1.0.0");
    assert!(!failed);
    assert_eq!(all.len(), 3);
    let (some, failed) = pending_migrations(&table, "1.1.0");
    assert!(!failed);
    assert_eq!(some.iter().map(|x| x.version).collect::<Vec<_>>(), vec!["1.2.0"]);
    let (none, failed) = pending_migrations(&table, "1.2.0");
    assert!(!failed && none.is_empty());
    let (pre, failed) = pending_migrations(&table, "1.1.0-rc.1");
    assert!(!failed);
    assert_eq!(pre.iter().map(|x| x.version).collect::<Vec<_>>(), vec!["1.1.0", "1.2.0"]);
    let (bad, failed) = pending_migrations(&table, "one.two");
    assert!(failed && bad.is_empty());
}

#[test]
fn unreadable_table_version_stops_after_earlier_ones() {
    let table = vec![
        Migration { version: "1.0.1", description: "a" },
        Migration { version: "x", description: "b" },
        Migration { version: "1.2.0", description: "c" },
    ];
    let (done, failed) = pending_migrations(&table, "1.0.0");
    assert!(failed);
    assert_eq!(done.iter().map(|x| x.description).collect::<Vec<_>>(), vec!["a"]);
}

#[test]
fn versions_compare_by_number_not_text() {
    let table = vec![
        Migration { version: "1.0.9", description: "nine" },
        Migration { version: "1.0.10", description: "ten" },
    ];
    let (done, failed) = pending_migrations(&table, "1.0.9");
    assert!(!failed);
    assert_eq!(done.iter().map(|x| x.description).collect::<Vec<_>>(), vec!["ten"]);
}
