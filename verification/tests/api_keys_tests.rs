use proxy_pulse::api_keys::{
    api_key_created, api_key_list, api_key_list_at, expiry_at, key_expiry, key_is_expired,
    plan_api_key, time_format, CreateApiKeyRequest,
};
use proxy_pulse::auth::{hash_api_key, AuthFailure};

#[test]
fn key_creation_plan() {
    let req = CreateApiKeyRequest { name: "  ci  ".to_string(), expires_in: Some("7d".to_string()) };
    let plan = plan_api_key(&req).ok().expect("plan");
    assert_eq!(plan.name, "ci");
    assert_eq!(plan.lifetime_hours, Some(168));
    assert_eq!(plan.material.key.len(), 68);
    assert!(plan.material.key.starts_with("ppk_"));
    assert!(plan.material.key[4..].chars().all(|c| c.is_ascii_digit() || ('a'..='f').contains(&c)));
    assert_eq!(plan.material.key_hash, hash_api_key(&plan.material.key));
    let forever = CreateApiKeyRequest { name: "x".to_string(), expires_in: Some("2w".to_string()) };
    assert_eq!(plan_api_key(&forever).ok().expect("plan").lifetime_hours, None);
    let blank = CreateApiKeyRequest { name: " ".to_string(), expires_in: None };
    assert!(matches!(plan_api_key(&blank), Err(AuthFailure::EmptyApiKeyName)));
    let created = api_key_created(3, "ppk_x".to_string());
    assert!(created.success);
    assert_eq!((created.id, created.key.as_str()), (3, "ppk_x"));
}

#[test]
fn key_expiry_text() {
    assert_eq!(key_expiry(None), None);
    let t = key_expiry(Some(1)).expect("expiry");
    assert_eq!(t.len(), 19);
    assert_eq!(&t[4..5], "-");
    assert_eq!(&t[10..11], " ");
    assert!(!key_is_expired(Some(&t), (0, 0)));
}

#[test]
fn expiry_against_an_instant() {
    // 2000-01-01 00:00:00 UTC is 946684800 s after the epoch.
    let at = Some("2000-01-01 00:00:00");
    assert!(!key_is_expired(at, (946684800, 0)));
    assert!(key_is_expired(at, (946684800, 1)));
    assert!(key_is_expired(at, (946684801, 0)));
    assert!(!key_is_expired(at, (946684799, 999_999_999)));
    assert!(!key_is_expired(Some("tomorrow"), (i64::MAX, 0)));
    assert!(!key_is_expired(None, (i64::MAX, 0)));
}

#[test]
fn key_listing_rows() {
    let rows = vec![
        (1, "old".to_string(), "ppk_a...b".to_string(), Some("2000-01-01 00:00:00".to_string()), "1999-12-01 10:00:00".to_string()),
        (2, "new".to_string(), "ppk_c...d".to_string(), None, "2024-01-01 00:00:00".to_string()),
        (3, "bad".to_string(), "ppk_e...f".to_string(), Some("soon".to_string()), "2024-01-02 00:00:00".to_string()),
    ];
    let list = api_key_list_at(&rows, (1_000_000_000, 0));
    assert!(list.success);
    assert_eq!(list.keys.len(), 3);
    assert!(list.keys[0].expired);
    assert!(!list.keys[1].expired);
    assert!(!list.keys[2].expired);
    assert_eq!(list.keys[0].name, "old");
    assert_eq!(list.keys[0].expires_at, Some("2000-01-01 00:00:00".to_string()));
    assert_eq!(list.keys[1].created_at, "2024-01-01 00:00:00");
    let now_list = api_key_list(&rows);
    assert!(now_list.keys[0].expired);
    assert_eq!(now_list.keys[2].preview, "ppk_e...f");
}

#[test]
fn expiry_from_a_given_second() {
    assert_eq!(time_format(), "%Y-%m-%d %H:%M:%S");
    // 2000-01-01 00:00:00 UTC is 946684800 s after the epoch.
    assert_eq!(expiry_at(946684800, Some(1)), Some("2000-01-01 01:00:00".to_string()));
    assert_eq!(expiry_at(946684800, Some(24 * 365)), Some("2000-12-31 00:00:00".to_string()));
    assert_eq!(expiry_at(946684800, Some(0)), Some("2000-01-01 00:00:00".to_string()));
    assert_eq!(expiry_at(946684800, None), None);
    let t = expiry_at(946684800, Some(168)).expect("expiry");
    assert_eq!(t, "2000-01-08 00:00:00");
    assert!(!key_is_expired(Some(&t), (946684800 + 168 * 3600, 0)));
    assert!(key_is_expired(Some(&t), (946684800 + 168 * 3600, 1)));
}
