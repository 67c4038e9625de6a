use proxy_pulse::updater::{
    artifact_file_name, auto_update_enabled, detect_platform, download_status_ok,
    extract_xml_tag, is_container, is_newer, is_within_schedule, latest_version,
    missing_binary_outcome, package_file_name, parse_atom_entries, plan_latest_update,
    plan_requested_update, release_asset_exists, release_asset_url, release_tag,
    releases_feed_url, run_script_url, version_core, ReleaseEntry, UpdateError,
};

#[test]
fn test_is_newer() {
    assert!(is_newer("1.2.0", "1.1.2"));
    assert!(is_newer("2.0.0", "1.9.9"));
    assert!(is_newer("1.1.3", "1.1.2"));
    assert!(!is_newer("1.1.2", "1.1.2"));
    assert!(!is_newer("1.1.1", "1.1.2"));
    assert!(!is_newer("1.0.0", "1.1.2"));
}

#[test]
fn is_newer_skips_parts_that_are_not_numbers() {
    // "x" is skipped, so "1.x.5" reads as 1.5.0.
    assert!(is_newer("1.x.5", "1.4.9"));
    assert!(!is_newer("1.x.5", "1.5.0"));
    // Missing parts count as zero.
    assert!(!is_newer("1", "1.0.0"));
    assert!(is_newer("1.0.1", "1"));
    // A part too large for u32 is skipped.
    assert!(!is_newer("4294967296.1", "1.1"));
    assert!(is_newer("4294967295", "4294967294.9.9"));
}

#[test]
fn newer_is_a_strict_order_on_examples() {
    let vs = ["0.9.9", "1.0.0", "1.0.1", "1.1.0", "2.0.0", "10.0.0"];
    for (i, a) in vs.iter().enumerate() {
        assert!(!is_newer(a, a));
        for (j, b) in vs.iter().enumerate() {
            assert_eq!(is_newer(a, b), i > j);
            if is_newer(a, b) {
                assert!(!is_newer(b, a));
            }
        }
    }
}

#[test]
fn xml_tag_is_trimmed_content_of_first_element() {
    let xml = "<entry><title type=\"html\">  v1.2.0 \n</title><title>x</title></entry>";
    assert_eq!(extract_xml_tag(xml, "title"), Some("v1.2.0".to_string()));
    assert_eq!(extract_xml_tag(xml, "updated"), None);
    assert_eq!(extract_xml_tag("<title>open", "title"), None);
    assert_eq!(extract_xml_tag("<title", "title"), None);
}

#[test]
fn atom_entries_in_feed_order() {
    let xml = "<feed><entry><title>v1.2.1</title><updated>2024-05-01</updated></entry>\
               <entry><title></title><updated>x</updated></entry>\
               <entry><title>v1.2.0</title></entry><entry><title>v0.9</title>";
    let entries = parse_atom_entries(xml);
    assert_eq!(entries.len(), 2);
    assert_eq!(entries[0].version, "v1.2.1");
    assert_eq!(entries[0].date, "2024-05-01");
    assert_eq!(entries[1].version, "v1.2.0");
    assert_eq!(entries[1].date, "");
    assert!(parse_atom_entries("no entries here").is_empty());
}

#[test]
fn platform_names() {
    assert_eq!(detect_platform("linux", "x86_64"), ("linux", "amd64"));
    assert_eq!(detect_platform("macos", "aarch64"), ("darwin", "arm64"));
    assert_eq!(detect_platform("windows", "x86_64"), ("windows", "amd64"));
    assert_eq!(detect_platform("freebsd", "riscv64"), ("unknown", "unknown"));
}

#[test]
fn release_artifact_names_and_urls() {
    assert_eq!(artifact_file_name("linux", "amd64"), "proxy-pulse-linux-amd64");
    assert_eq!(package_file_name("linux", "amd64"), "proxy-pulse-linux-amd64.tar.gz");
    assert_eq!(package_file_name("windows", "amd64"), "proxy-pulse-windows-amd64.zip");
    assert_eq!(
        release_asset_url("v1.2.1", "darwin", "arm64"),
        "https://github.com/illab-org/Proxy-Pulse/releases/download/v1.2.1/proxy-pulse-darwin-arm64.tar.gz"
    );
    assert_eq!(releases_feed_url(), "https://github.com/illab-org/Proxy-Pulse/releases.atom");
    assert_eq!(run_script_url(false), "https://raw.githubusercontent.com/illab-org/Proxy-Pulse/main/run");
    assert_eq!(run_script_url(true), "https://raw.githubusercontent.com/illab-org/Proxy-Pulse/main/run.ps1");
}

#[test]
fn release_status_codes() {
    assert!(release_asset_exists(200));
    assert!(release_asset_exists(302));
    assert!(!release_asset_exists(404));
    assert!(!release_asset_exists(301));
    assert!(download_status_ok(204));
    assert!(download_status_ok(302));
    assert!(!download_status_ok(404));
    assert!(!download_status_ok(304));
}

#[test]
fn tags_and_version_cores() {
    assert_eq!(version_core("vv1.2.0"), "1.2.0");
    assert_eq!(version_core("1.2.0"), "1.2.0");
    assert_eq!(release_tag("1.2.0"), "v1.2.0");
    assert_eq!(release_tag("v1.2.0"), "v1.2.0");
    assert_eq!(version_core(&release_tag("1.3.0")), "1.3.0");
}

#[test]
fn requested_update_plans() {
    assert_eq!(plan_requested_update("v1.2.1", "1.2.1"), None);
    assert_eq!(plan_requested_update("1.2.1", "1.2.1"), None);
    assert_eq!(plan_requested_update("1.1.0", "1.2.1"), Some("v1.1.0".to_string()));
    assert_eq!(plan_requested_update("v1.3.0", "1.2.1"), Some("v1.3.0".to_string()));
}

#[test]
fn latest_update_plans() {
    assert_eq!(plan_latest_update("v1.3.0", "1.2.1"), Some("v1.3.0".to_string()));
    assert_eq!(plan_latest_update("1.3.0", "1.2.1"), Some("v1.3.0".to_string()));
    assert_eq!(plan_latest_update("v1.2.1", "1.2.1"), None);
    assert_eq!(plan_latest_update("v1.0.0", "1.2.1"), None);
}

#[test]
fn update_outcomes_and_errors() {
    assert_eq!(missing_binary_outcome(true), Err(UpdateError::BinaryNotReady));
    assert_eq!(missing_binary_outcome(false), Ok(false));
    assert_eq!(latest_version(&Vec::new()), Err(UpdateError::NoReleases));
    let entries = vec![
        ReleaseEntry { version: "v2.0.0".to_string(), date: "d".to_string() },
        ReleaseEntry { version: "v1.0.0".to_string(), date: "e".to_string() },
    ];
    assert_eq!(latest_version(&entries), Ok("v2.0.0".to_string()));
}

#[test]
fn auto_update_setting() {
    assert!(auto_update_enabled(None));
    assert!(auto_update_enabled(Some("true")));
    assert!(auto_update_enabled(Some("no")));
    assert!(!auto_update_enabled(Some("false")));
}

#[test]
fn install_schedule_windows() {
    assert!(is_within_schedule(None, 13));
    assert!(is_within_schedule(Some("anytime"), 23));
    assert!(is_within_schedule(Some("night"), 0));
    assert!(is_within_schedule(Some("night"), 5));
    assert!(!is_within_schedule(Some("night"), 6));
    assert!(is_within_schedule(Some("morning"), 6));
    assert!(!is_within_schedule(Some("morning"), 12));
    assert!(is_within_schedule(Some("afternoon"), 17));
    assert!(!is_within_schedule(Some("afternoon"), 18));
    assert!(is_within_schedule(Some("evening"), 18));
    assert!(!is_within_schedule(Some("evening"), 17));
    assert!(is_within_schedule(Some("sometimes"), 3));
}

#[test]
fn container_detection() {
    assert!(is_container(true, None, false));
    assert!(is_container(false, Some("0::/docker/abc"), false));
    assert!(is_container(false, Some("1:name=systemd:/system.slice/containerd.service"), false));
    assert!(!is_container(false, Some("0::/init.scope"), false));
    assert!(is_container(false, None, true));
    assert!(!is_container(false, None, false));
}

#[test]
fn is_newer_compares_numbers_and_pads_missing_parts() {
    assert!(is_newer("1.10.0", "1.9.0"));
    assert!(!is_newer("1.9.0", "1.10.0"));
    assert!(!is_newer("1.2", "1.2.0"));
    assert!(!is_newer("1.2.0", "1.2"));
}
