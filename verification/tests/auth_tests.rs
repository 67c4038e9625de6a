use proxy_pulse::auth::{
    admin_gate, api_key_from_token, token_from_parts, api_key_lifetime_hours, api_key_name, api_key_preview, check_demotion,
    check_new_password, check_new_user, check_password_change, check_preferences, check_role,
    check_setup, check_user_deletion, check_user_password, check_user_update, default_timezone,
    extract_api_key, extract_bearer_token, extract_token, generate_token, hash_api_key,
    hash_password, is_admin_role, is_demotion, login_user, new_api_key, password_matches,
    proxy_api_gate, session_gate, setup_status, token_from_cookie, trimmed_username, AuthFailure,
    AuthResponse, ChangePasswordRequest, CreateUserRequest, Gate, LoginRequest,
    PreferencesRequest, SetupRequest, UpdateUserRequest, TOKEN_EXPIRY_HOURS,
};

const SECRET1_HASH: &str = "$2b$04$abcdefghijklmnopqrstuuCHf7DUmNUvMBdGje9JveOQe49tH5xFK";

fn is_hex64(s: &str) -> bool {
    s.len() == 64 && s.chars().all(|c| c.is_ascii_digit() || ('a'..='f').contains(&c))
}

#[test]
fn bearer_token_from_header() {
    assert_eq!(extract_bearer_token(Some("Bearer abc")), Some("abc".to_string()));
    assert_eq!(extract_bearer_token(Some("bearer abc")), None);
    assert_eq!(extract_bearer_token(Some("Bearer ")), Some(String::new()));
    assert_eq!(extract_bearer_token(None), None);
}

#[test]
fn token_from_header_or_cookie() {
    assert_eq!(extract_token(Some("Bearer h"), Some("pp_token=c")), Some("h".to_string()));
    assert_eq!(extract_token(Some("Basic x"), Some("a=1; pp_token=c; pp_token=d")), Some("c".to_string()));
    assert_eq!(extract_token(None, Some("  pp_token=tok  ")), Some("tok".to_string()));
    assert_eq!(extract_token(None, Some("a=1;b=2")), None);
    assert_eq!(extract_token(None, None), None);
    assert_eq!(token_from_cookie("theme=dark;pp_token=zz"), Some("zz".to_string()));
    assert_eq!(token_from_cookie("xpp_token=zz"), None);
}

#[test]
fn issued_token_is_found_again() {
    let t = generate_token();
    assert!(is_hex64(&t));
    assert_eq!(extract_token(Some(&format!("Bearer {}", t)), None), Some(t.clone()));
    assert_eq!(extract_token(None, Some(&format!("pp_token={}", t))), Some(t.clone()));
    assert_ne!(generate_token(), t);
}

#[test]
fn api_key_from_header_or_query() {
    assert_eq!(extract_api_key(Some("ppk_abc"), None), Some("ppk_abc".to_string()));
    assert_eq!(extract_api_key(Some("abc"), Some("api_key=ppk_q")), Some("ppk_q".to_string()));
    assert_eq!(extract_api_key(None, Some("x=1&api_key=ppk_%41%42")), Some("ppk_AB".to_string()));
    assert_eq!(extract_api_key(None, Some("api_key=nope&api_key=ppk_2")), Some("ppk_2".to_string()));
    assert_eq!(extract_api_key(None, Some("api_key=%ZZ")), None);
    assert_eq!(extract_api_key(None, Some("api_key=ppk_%FF")), Some("ppk_%FF".to_string()));
    assert_eq!(extract_api_key(None, None), None);
}

#[test]
fn api_key_digest_is_sha256_hex() {
    assert_eq!(
        hash_api_key("abc"),
        "ba7816bf8f01cfea414140de5dae2223b00361a396177a9cb410ff61f20015ad"
    );
    assert_eq!(
        hash_api_key(""),
        "e3b0c44298fc1c149afbf4c8996fb92427ae41e4649b934ca495991b7852b855"
    );
}

#[test]
fn new_api_key_material() {
    let k = new_api_key();
    assert_eq!(k.key.len(), 68);
    assert!(k.key.starts_with("ppk_"));
    assert!(is_hex64(&k.key[4..]));
    assert_eq!(k.key_hash, hash_api_key(&k.key));
    assert_eq!(k.preview, format!("ppk_{}...{}", &k.key[4..12], &k.key[64..]));
    assert_eq!(extract_api_key(Some(&k.key), None), Some(k.key.clone()));
    assert_eq!(extract_api_key(None, Some(&format!("api_key={}", k.key))), Some(k.key.clone()));
    assert_eq!(api_key_preview("ppk_0123456789abcdef"), "ppk_01234567...cdef");
}

#[test]
fn api_key_lifetimes() {
    assert_eq!(api_key_lifetime_hours(Some("1h")), Some(1));
    assert_eq!(api_key_lifetime_hours(Some("24h")), Some(24));
    assert_eq!(api_key_lifetime_hours(Some("7d")), Some(168));
    assert_eq!(api_key_lifetime_hours(Some("30d")), Some(720));
    assert_eq!(api_key_lifetime_hours(Some("90d")), Some(2160));
    assert_eq!(api_key_lifetime_hours(Some("365d")), Some(8760));
    assert_eq!(api_key_lifetime_hours(Some("never")), None);
    assert_eq!(api_key_lifetime_hours(None), None);
    assert_eq!(api_key_name("  ci key "), Ok("ci key".to_string()));
    assert_eq!(api_key_name(" \t"), Err(AuthFailure::EmptyApiKeyName));
}

#[test]
fn passwords_hash_and_verify() {
    assert!(password_matches("secret1", SECRET1_HASH));
    assert!(!password_matches("secret2", SECRET1_HASH));
    assert!(!password_matches("secret1", "not-a-hash"));
    let h = hash_password("hunter22").expect("hash");
    assert!(h.starts_with("$2b$12$"));
    assert!(password_matches("hunter22", &h));
}

#[test]
fn failure_messages_and_statuses() {
    assert_eq!(AuthFailure::SetupAlreadyCompleted.message(), "Setup already completed");
    assert_eq!(AuthFailure::SetupAlreadyCompleted.status(), 403);
    assert_eq!(AuthFailure::InvalidLogin.message(), "Invalid username or password");
    assert_eq!(AuthFailure::InvalidLogin.status(), 401);
    assert_eq!(AuthFailure::InvalidRole.message(), "Role must be 'admin' or 'user'");
    assert_eq!(AuthFailure::InvalidRole.status(), 400);
    assert_eq!(AuthFailure::UserNotFound.message(), "User not found");
    assert_eq!(AuthFailure::DatabaseError.message(), "Database error");
    let r = AuthResponse::failure(AuthFailure::CannotDeleteSelf);
    assert!(!r.success);
    assert_eq!(r.token, None);
    assert_eq!(r.error, Some("Cannot delete your own account".to_string()));
    let ok = AuthResponse::success(Some("t".to_string()));
    assert!(ok.success);
    assert_eq!(ok.token, Some("t".to_string()));
    assert_eq!(ok.error, None);
    assert_eq!(TOKEN_EXPIRY_HOURS, 24);
}

#[test]
fn setup_rules() {
    let body = |u: &str, p: &str| SetupRequest { username: u.to_string(), password: p.to_string() };
    assert_eq!(check_setup(true, &body("admin", "secret1")), Err(AuthFailure::SetupAlreadyCompleted));
    assert_eq!(check_setup(false, &body("  ", "secret1")), Err(AuthFailure::InvalidCredentials));
    assert_eq!(check_setup(false, &body("admin", "12345")), Err(AuthFailure::InvalidCredentials));
    assert_eq!(check_setup(false, &body(" admin ", "123456")), Ok("admin".to_string()));
    // Six bytes, fewer characters.
    assert_eq!(check_setup(false, &body("a", "ééé")), Ok("a".to_string()));
    assert!(setup_status(Some(false)).needs_setup);
    assert!(!setup_status(Some(true)).needs_setup);
    assert!(!setup_status(None).needs_setup);
}

#[test]
fn login_rules() {
    let body = LoginRequest { username: "admin".to_string(), password: "secret1".to_string() };
    assert_eq!(login_user(Some((7, SECRET1_HASH)), &body), Ok(7));
    assert_eq!(login_user(None, &body), Err(AuthFailure::InvalidLogin));
    let wrong = LoginRequest { username: "admin".to_string(), password: "secret".to_string() };
    assert_eq!(login_user(Some((7, SECRET1_HASH)), &wrong), Err(AuthFailure::InvalidLogin));
    assert_eq!(login_user(Some((7, "garbage")), &body), Err(AuthFailure::InvalidLogin));
}

#[test]
fn role_and_user_rules() {
    assert_eq!(check_role("admin"), Ok(()));
    assert_eq!(check_role("user"), Ok(()));
    assert_eq!(check_role("Admin"), Err(AuthFailure::InvalidRole));
    assert!(is_admin_role("admin"));
    assert!(!is_admin_role("user"));
    let req = |u: &str, p: &str, r: &str| CreateUserRequest {
        username: u.to_string(),
        password: p.to_string(),
        role: r.to_string(),
    };
    assert_eq!(check_new_user(&req(" bob ", "123456", "user")), Ok("bob".to_string()));
    assert_eq!(check_new_user(&req("bob", "123", "root")), Err(AuthFailure::InvalidCredentials));
    assert_eq!(check_new_user(&req("bob", "123456", "root")), Err(AuthFailure::InvalidRole));
    assert_eq!(trimmed_username("\u{3000}bob\n"), "bob");
    assert_eq!(check_new_password("12345"), Err(AuthFailure::NewPasswordTooShort));
    assert_eq!(check_new_password("123456"), Ok(()));
    assert_eq!(check_user_password("12345"), Err(AuthFailure::PasswordTooShort));
    assert_eq!(check_user_password("123456"), Ok(()));
}

#[test]
fn password_change_rules() {
    let body = |c: &str, n: &str| ChangePasswordRequest {
        current_password: c.to_string(),
        new_password: n.to_string(),
    };
    assert_eq!(check_password_change(&body("secret1", "short"), SECRET1_HASH), Err(AuthFailure::NewPasswordTooShort));
    assert_eq!(check_password_change(&body("wrong", "longenough"), SECRET1_HASH), Err(AuthFailure::CurrentPasswordIncorrect));
    assert_eq!(check_password_change(&body("secret1", "longenough"), SECRET1_HASH), Ok(()));
}

#[test]
fn deletion_and_demotion_rules() {
    assert_eq!(check_user_deletion(3, 3, "user", 5), Err(AuthFailure::CannotDeleteSelf));
    assert_eq!(check_user_deletion(3, 1, "admin", 1), Err(AuthFailure::LastAdminDeletion));
    assert_eq!(check_user_deletion(3, 1, "admin", 2), Ok(()));
    assert_eq!(check_user_deletion(3, 1, "user", 1), Ok(()));
    assert!(is_demotion("user"));
    assert!(!is_demotion("admin"));
    assert_eq!(check_demotion("admin", 1), Err(AuthFailure::LastAdminDemotion));
    assert_eq!(check_demotion("admin", 2), Ok(()));
    assert_eq!(check_demotion("user", 0), Ok(()));
}

#[test]
fn user_update_rules() {
    let req = |r: Option<&str>, p: Option<&str>| UpdateUserRequest {
        role: r.map(String::from),
        password: p.map(String::from),
    };
    assert_eq!(check_user_update(&req(Some("root"), None), None, None), Err(AuthFailure::InvalidRole));
    assert_eq!(check_user_update(&req(Some("user"), None), Some("admin"), Some(1)), Err(AuthFailure::LastAdminDemotion));
    assert_eq!(check_user_update(&req(Some("user"), None), Some("admin"), Some(2)), Ok(()));
    assert_eq!(check_user_update(&req(Some("user"), None), Some("user"), None), Ok(()));
    assert_eq!(check_user_update(&req(None, Some("123")), None, None), Err(AuthFailure::PasswordTooShort));
    assert_eq!(check_user_update(&req(Some("admin"), Some("123456")), None, None), Ok(()));
}

#[test]
fn preference_rules() {
    let req = |t: &str, l: &str, z: &str| PreferencesRequest {
        theme: t.to_string(),
        language: l.to_string(),
        timezone: z.to_string(),
    };
    assert_eq!(check_preferences(&req("dark", "ja", "Asia/Tokyo")), Ok(()));
    assert_eq!(check_preferences(&req("dark", "ja", "auto")), Ok(()));
    assert_eq!(check_preferences(&req("blue", "ja", "auto")), Err(AuthFailure::InvalidThemeOrLanguage));
    assert_eq!(check_preferences(&req("dark", "fr", "auto")), Err(AuthFailure::InvalidThemeOrLanguage));
    assert_eq!(check_preferences(&req("light", "en", "Etc/GMT+3")), Ok(()));
    assert_eq!(check_preferences(&req("light", "en", "Bad Zone")), Err(AuthFailure::InvalidTimezone));
    let long = "A".repeat(51);
    assert_eq!(check_preferences(&req("system", "default", &long)), Err(AuthFailure::InvalidTimezone));
    assert_eq!(default_timezone(), "auto");
}

#[test]
fn route_guards() {
    assert!(matches!(session_gate(false, true, Some(1)), Gate::Pass { refresh_session: true }));
    assert!(matches!(session_gate(false, false, None), Gate::Refuse { status: 401, ref error } if error == "Authentication required"));
    assert!(matches!(session_gate(false, true, None), Gate::Refuse { status: 401, ref error } if error == "Invalid or expired token"));
    assert!(matches!(session_gate(true, true, None), Gate::Redirect { ref to } if to == "/login"));
    assert!(matches!(admin_gate(false, true, Some(1), Some("admin")), Gate::Pass { refresh_session: true }));
    assert!(matches!(admin_gate(false, true, Some(1), Some("user")), Gate::Refuse { status: 403, ref error } if error == "Admin access required"));
    assert!(matches!(admin_gate(true, true, Some(1), None), Gate::Redirect { ref to } if to == "/"));
    assert!(matches!(admin_gate(true, false, None, None), Gate::Redirect { ref to } if to == "/login"));
    assert!(matches!(proxy_api_gate(Some(2), false), Gate::Pass { refresh_session: true }));
    assert!(matches!(proxy_api_gate(None, true), Gate::Pass { refresh_session: false }));
    assert!(matches!(proxy_api_gate(None, false), Gate::Refuse { status: 401, ref error } if error == "Authentication required. Use Bearer token or API key."));
}

#[test]
fn user_creation_conflicts() {
    assert_eq!(
        proxy_pulse::auth::creation_conflict_message("UNIQUE constraint failed: users.username"),
        "Username already exists"
    );
    assert_eq!(
        proxy_pulse::auth::creation_conflict_message("disk I/O error"),
        "Failed to create user: disk I/O error"
    );
}

#[test]
fn token_and_key_from_parts() {
    assert_eq!(token_from_parts("a", "b", -5), hash_api_key("a-b--5"));
    assert_eq!(token_from_parts("x", "y", 12), hash_api_key("x-y-12"));
    assert_ne!(token_from_parts("x", "y", 12), token_from_parts("x", "y", 13));
    let k = api_key_from_token("0123456789abcdef");
    assert_eq!(k.key, "ppk_0123456789abcdef");
    assert_eq!(k.preview, "ppk_01234567...cdef");
    assert_eq!(k.key_hash, hash_api_key("ppk_0123456789abcdef"));
}
