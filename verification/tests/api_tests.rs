use proxy_pulse::api::{listen_port, sqlite_file_path};
use proxy_pulse::api::{
    admin_page_size, capped_count, country_limit, csv_header, default_preferences, demo_guard,
    export_limit, export_sort, export_txt, import_protocol_hint, is_sqlite_file,
    new_user_preferences, page_number, page_offset, public_page_size, requested_version,
    source_defaults, system_settings_from_stored, system_settings_writes, top_limit,
    update_trigger_answer, AddSourceRequest, ErrorResponse, ExportRow, ImportProxiesRequest,
    SettingsError, SystemSettingsRequest, TriggerUpdateRequest,
};

#[test]
fn demo_mode_refuses_changes() {
    assert!(demo_guard(false).is_ok());
    match demo_guard(true) {
        Err((status, body)) => {
            assert_eq!(status, 403);
            assert!(!body.success);
            assert_eq!(body.error, "Operation not allowed in demo mode");
        }
        Ok(()) => panic!("demo mode must refuse"),
    }
    let e = ErrorResponse::new("boom".to_string());
    assert!(!e.success);
    assert_eq!(e.error, "boom");
}

#[test]
fn paging_and_limits() {
    assert_eq!(page_number(None), 1);
    assert_eq!(page_number(Some(0)), 1);
    assert_eq!(page_number(Some(-5)), 1);
    assert_eq!(page_number(Some(7)), 7);
    assert_eq!(public_page_size(None), 20);
    assert_eq!(public_page_size(Some(500)), 100);
    assert_eq!(public_page_size(Some(-3)), -3);
    assert_eq!(admin_page_size(Some(150)), 150);
    assert_eq!(admin_page_size(Some(201)), 200);
    assert_eq!(top_limit(None), 10);
    assert_eq!(top_limit(Some(1000)), 100);
    assert_eq!(country_limit(None), 20);
    assert_eq!(capped_count(Some(5), 1, 3), 3);
    assert_eq!(export_limit(None), None);
    assert_eq!(export_limit(Some(0)), Some(1));
    assert_eq!(export_limit(Some(25)), Some(25));
    assert_eq!(export_sort(None), "score");
    assert_eq!(export_sort(Some("latency")), "latency");
    assert_eq!(page_offset(1, 20), 0);
    assert_eq!(page_offset(3, 20), 40);
}

#[test]
fn text_export() {
    let rows = vec![
        ExportRow { ip: "1.2.3.4".to_string(), port: 80 },
        ExportRow { ip: "5.6.7.8".to_string(), port: 1080 },
    ];
    assert_eq!(export_txt(&rows), "1.2.3.4:80\n5.6.7.8:1080");
    assert_eq!(export_txt(&Vec::new()), "");
    assert_eq!(
        csv_header(),
        "ip,port,protocol,country,score,latency_ms,success_count,fail_count,success_rate\n"
    );
}

fn settings_request(
    auto_update: Option<bool>,
    schedule: Option<&str>,
    language: Option<&str>,
    timezone: Option<&str>,
    theme: Option<&str>,
) -> SystemSettingsRequest {
    SystemSettingsRequest {
        auto_update,
        install_schedule: schedule.map(String::from),
        default_language: language.map(String::from),
        default_timezone: timezone.map(String::from),
        default_theme: theme.map(String::from),
    }
}

#[test]
fn system_settings_writes_in_order() {
    let (ws, err) = system_settings_writes(&settings_request(Some(false), Some("night"), Some("ja"), Some("UTC"), Some("dark")));
    assert_eq!(err, None);
    let pairs: Vec<(&str, &str)> = ws.iter().map(|w| (w.key.as_str(), w.value.as_str())).collect();
    assert_eq!(pairs, vec![
        ("system.auto_update", "false"),
        ("system.install_schedule", "night"),
        ("system.default_language", "ja"),
        ("system.default_timezone", "UTC"),
        ("system.default_theme", "dark"),
    ]);
}

#[test]
fn system_settings_refusals() {
    // An unknown schedule is skipped silently.
    let (ws, err) = system_settings_writes(&settings_request(None, Some("lunch"), None, None, None));
    assert!(ws.is_empty());
    assert_eq!(err, None);
    // An unknown language stops the writes after the earlier ones.
    let (ws, err) = system_settings_writes(&settings_request(Some(true), None, Some("de"), Some("UTC"), None));
    assert_eq!(ws.len(), 1);
    assert_eq!(ws[0].value, "true");
    assert_eq!(err, Some(SettingsError::InvalidLanguage));
    assert_eq!(SettingsError::InvalidLanguage.message(), "Invalid language. Must be one of: auto, en, zh-CN, zh-TW, ja");
    let (ws, err) = system_settings_writes(&settings_request(None, None, None, Some("UTC"), Some("pink")));
    assert_eq!(ws.len(), 1);
    assert_eq!(ws[0].key, "system.default_timezone");
    assert_eq!(err, Some(SettingsError::InvalidTheme));
    assert_eq!(SettingsError::InvalidTheme.message(), "Invalid theme. Must be one of: system, light, dark");
}

#[test]
fn stored_system_settings() {
    let s = system_settings_from_stored(None, None, None, None, None);
    assert!(s.auto_update);
    assert_eq!(s.install_schedule, "anytime");
    assert_eq!(s.default_language, "auto");
    assert_eq!(s.default_timezone, "auto");
    assert_eq!(s.default_theme, "system");
    let t = system_settings_from_stored(Some("false"), Some("night"), Some("ja"), Some("UTC"), Some("dark"));
    assert!(!t.auto_update);
    assert_eq!(t.install_schedule, "night");
    assert_eq!(t.default_theme, "dark");
    assert_eq!(new_user_preferences(None, None, None), ("system".to_string(), "en".to_string(), "auto".to_string()));
    assert_eq!(new_user_preferences(Some("dark"), Some("ja"), Some("UTC")), ("dark".to_string(), "ja".to_string(), "UTC".to_string()));
    assert_eq!(default_preferences(), ("system".to_string(), "en".to_string(), "auto".to_string()));
}

#[test]
fn database_upload_magic() {
    let mut ok = b"SQLite format 3\0".to_vec();
    ok.extend_from_slice(&[1, 2, 3]);
    assert!(is_sqlite_file(&ok));
    assert!(is_sqlite_file(b"SQLite format 3\0"));
    assert!(!is_sqlite_file(b"SQLite format 3"));
    assert!(!is_sqlite_file(b"SQLite format 4\0xxxx"));
    assert!(!is_sqlite_file(b""));
}

#[test]
fn update_trigger_answers() {
    assert_eq!(update_trigger_answer(Ok(true)), (200, true, "Update triggered. The service will restart automatically.".to_string()));
    assert_eq!(update_trigger_answer(Ok(false)), (200, true, "Already up to date.".to_string()));
    assert_eq!(update_trigger_answer(Err("BINARY_NOT_READY")), (202, false, "BINARY_NOT_READY".to_string()));
    assert_eq!(update_trigger_answer(Err("timeout")), (500, false, "Update failed: timeout".to_string()));
    assert_eq!(requested_version(None), None);
    assert_eq!(requested_version(Some(&TriggerUpdateRequest { version: None })), None);
    assert_eq!(requested_version(Some(&TriggerUpdateRequest { version: Some("v1.1.0".to_string()) })), Some("v1.1.0".to_string()));
}

#[test]
fn source_and_import_defaults() {
    let req = AddSourceRequest {
        name: "s".to_string(),
        source_type: "url".to_string(),
        url: Some("http://x".to_string()),
        content: None,
        protocol_hint: None,
        sync_interval_secs: None,
    };
    assert_eq!(source_defaults(&req), ("auto".to_string(), 21600));
    let req2 = AddSourceRequest { protocol_hint: Some("socks5".to_string()), sync_interval_secs: Some(300), ..req };
    assert_eq!(source_defaults(&req2), ("socks5".to_string(), 300));
    let imp = ImportProxiesRequest { content: "1.2.3.4:80".to_string(), protocol_hint: None };
    assert_eq!(import_protocol_hint(&imp), "auto");
    let imp2 = ImportProxiesRequest { content: String::new(), protocol_hint: Some("http".to_string()) };
    assert_eq!(import_protocol_hint(&imp2), "http");
}

#[test]
fn server_settings_from_environment() {
    assert_eq!(listen_port(None), 8080);
    assert_eq!(listen_port(Some("3000")), 3000);
    assert_eq!(listen_port(Some("65535")), 65535);
    assert_eq!(listen_port(Some("65536")), 8080);
    assert_eq!(listen_port(Some("http")), 8080);
    assert_eq!(sqlite_file_path("sqlite://proxy_pulse.db?mode=rwc"), "proxy_pulse.db");
    assert_eq!(sqlite_file_path("sqlite:///data/proxy.db?mode=rwc"), "/data/proxy.db");
    assert_eq!(sqlite_file_path("sqlite:local.db"), "local.db");
    assert_eq!(sqlite_file_path("plain.db"), "plain.db");
}
