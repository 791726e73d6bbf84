use password_hash::{PasswordHasher, SaltString};
use gear_editor::auth::{
    check_password, error_redirect_location, html_escape_attr, html_escape_text, is_admin,
    login_outcome, login_redirect_location, new_session_id, next_or_dashboard,
    registration_filled, sanitize_next_path, session_cookie, url_encode_component,
    validate_login, LoginError, PasswordVerdict, Session, SessionStore,
};

fn session(uid: i32, name: &str, at: u64) -> Session {
    Session { uid, username: name.to_string(), pending_writes: Vec::new(), last_active_ms: at }
}

#[test]
fn next_paths_must_stay_on_site() {
    assert_eq!(sanitize_next_path("  /dashboard?tab=discs "), Some("/dashboard?tab=discs".to_string()));
    assert_eq!(sanitize_next_path("//evil.example"), None);
    assert_eq!(sanitize_next_path("https://evil.example"), None);
    assert_eq!(sanitize_next_path("   "), None);
    assert_eq!(sanitize_next_path("/a\r\nSet-Cookie: x"), None);
    assert_eq!(next_or_dashboard(None), "/dashboard");
    assert_eq!(next_or_dashboard(Some("//x")), "/dashboard");
    assert_eq!(next_or_dashboard(Some("/weapon/3")), "/weapon/3");
}

#[test]
fn url_component_encoding() {
    assert_eq!(url_encode_component("/dashboard"), "%2Fdashboard");
    assert_eq!(url_encode_component("a b&c=d"), "a%20b%26c%3Dd");
    assert_eq!(url_encode_component("AZaz09-_.~"), "AZaz09-_.~");
    assert_eq!(url_encode_component("й"), "%D0%B9");
}

#[test]
fn html_escaping() {
    assert_eq!(html_escape_attr("a\"<b>&"), "a&quot;&lt;b&gt;&amp;");
    assert_eq!(html_escape_text("a\"<b>&"), "a\"&lt;b&gt;&amp;");
    assert!(!html_escape_text("<script>").contains('<'));
}

#[test]
fn redirect_locations() {
    assert_eq!(login_redirect_location(Some("/weapon/3?x=1")), "/?next=%2Fweapon%2F3%3Fx%3D1");
    assert_eq!(login_redirect_location(None), "/?next=%2Fdashboard");
    assert_eq!(login_redirect_location(Some("//evil")), "/?next=%2Fdashboard");
    assert_eq!(
        error_redirect_location("/dashboard", "login.failed"),
        "/?next=%2Fdashboard&error=login.failed"
    );
    assert_eq!(
        session_cookie("abc"),
        "ge_session=abc; HttpOnly; SameSite=Lax; Path=/; Max-Age=2592000"
    );
}

#[test]
fn registration_form_checks() {
    assert!(registration_filled("bob", "pw"));
    assert!(!registration_filled("   ", "pw"));
    assert!(!registration_filled("bob", ""));
}

#[test]
fn admin_account() {
    assert!(is_admin(&session(1, "XaPoHbomj", 0)));
    assert!(!is_admin(&session(2, "XaPoHbomj", 0)));
    assert!(!is_admin(&session(1, "someone", 0)));
}

#[test]
fn session_ids_are_48_alphanumerics() {
    let id = new_session_id();
    assert_eq!(id.chars().count(), 48);
    assert!(id.chars().all(|c| c.is_ascii_alphanumeric()));
    assert_ne!(id, new_session_id());
}

#[test]
fn session_store_read_after_write() {
    let mut store = SessionStore::new();
    assert_eq!(store.len(), 0);
    let id = store.insert_session(session(7, "bob", 100));
    assert_eq!(store.len(), 1);
    let cookie = format!("a=b; ge_session={}", id);
    let (got_id, s) = store.get_session(Some(&cookie), 500).expect("stored session");
    assert_eq!(got_id, id);
    assert_eq!(s.uid, 7);
    assert_eq!(s.username, "bob");
    assert_eq!(s.last_active_ms, 500);
    assert!(store.get_session(Some("ge_session=nope"), 600).is_none());
    assert!(store.get_session(None, 600).is_none());
    store.set_session("fixed".to_string(), session(8, "amy", 700));
    assert_eq!(store.len(), 2);
    store.set_session("fixed".to_string(), session(9, "amy", 800));
    assert_eq!(store.len(), 2);
    assert_eq!(store.touch("fixed", 900).map(|s| s.uid), Some(9));
    store.remove_session(&id);
    assert_eq!(store.len(), 1);
    assert!(store.touch(&id, 900).is_none());
}

#[test]
fn idle_sessions_are_collected() {
    let mut store = SessionStore::new();
    store.set_session("old".to_string(), session(1, "a", 0));
    store.set_session("new".to_string(), session(2, "b", 90_000));
    let removed = store.gc_sessions(100_000, 86_400);
    assert_eq!(removed, 1);
    assert_eq!(store.len(), 1);
    assert!(store.touch("old", 100_000).is_none());
    assert!(store.touch("new", 100_000).is_some());
}

#[test]
fn password_checks() {
    let salt = SaltString::from_b64("c2FsdHNhbHQ").unwrap();
    let params = pbkdf2::Params { rounds: 1000, output_length: 32 };
    let hash = pbkdf2::Pbkdf2
        .hash_password_customized(b"password", None, None, params, &salt)
        .unwrap()
        .to_string();
    assert_eq!(check_password(&hash, "password"), PasswordVerdict::Match);
    assert_eq!(check_password(&hash, "passw0rd"), PasswordVerdict::Mismatch);
    let s = validate_login(Some((4, "eve".to_string(), hash.clone())), "password", 9)
        .unwrap()
        .unwrap();
    assert_eq!((s.uid, s.username.as_str(), s.last_active_ms), (4, "eve", 9));
    assert!(validate_login(Some((4, "eve".to_string(), hash)), "nope", 9).unwrap().is_none());
    assert_eq!(check_password("", "password"), PasswordVerdict::Malformed);
    assert_eq!(check_password("not a phc string", "x"), PasswordVerdict::Malformed);
    assert_eq!(validate_login(None, "pw", 1).unwrap().is_none(), true);
    assert_eq!(
        validate_login(Some((1, "bob".to_string(), String::new())), "pw", 1).err(),
        Some(LoginError::MalformedHash)
    );
}

#[test]
fn login_outcomes() {
    let s = login_outcome(3, "bob".to_string(), PasswordVerdict::Match, 42).unwrap().unwrap();
    assert_eq!((s.uid, s.username.as_str(), s.last_active_ms), (3, "bob", 42));
    assert!(s.pending_writes.is_empty());
    assert!(login_outcome(3, "bob".to_string(), PasswordVerdict::Mismatch, 42).unwrap().is_none());
    assert_eq!(
        login_outcome(3, "bob".to_string(), PasswordVerdict::Malformed, 42).err(),
        Some(LoginError::MalformedHash)
    );
}

#[test]
fn redirects_stay_on_the_site() {
    for next in [None, Some(""), Some("  /a  "), Some("//evil.example"), Some("https://x"), Some("/a\r\nSet-Cookie: x"), Some("/\u{3000}")] {
        let r = next_or_dashboard(next);
        assert!(r.starts_with('/'));
        assert!(!r.starts_with("//"));
        assert!(!r.contains('\n') && !r.contains('\r'));
    }
}

#[test]
fn bcrypt_hashes_open_sessions() {
    let hash = bcrypt::hash("hunter2", 4).unwrap();
    assert_eq!(check_password(&hash, "hunter2"), PasswordVerdict::Match);
    assert_eq!(check_password(&hash, "hunter3"), PasswordVerdict::Mismatch);
    let row = Some((7, "alice".to_string(), hash.clone()));
    let s = validate_login(row, "hunter2", 42).unwrap().unwrap();
    assert_eq!((s.uid, s.username.as_str(), s.pending_writes.len(), s.last_active_ms), (7, "alice", 0, 42));
    assert!(validate_login(Some((7, "alice".to_string(), hash)), "nope", 42).unwrap().is_none());
    // A bcrypt prefix on a hash bcrypt cannot read is a broken hash.
    assert_eq!(check_password("$2b$04$short", "x"), PasswordVerdict::Malformed);
    assert_eq!(validate_login(Some((7, "a".to_string(), "$2y$xx".to_string())), "x", 0).err(), Some(LoginError::MalformedHash));
}
