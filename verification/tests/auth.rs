use bookmark_hub::api::{login, login_at, login_is_granted, logout, AuthResponse, LoginRequest};
use bookmark_hub::clock::Timestamp;
use bookmark_hub::config::Config;
use bookmark_hub::error::Error;
use bookmark_hub::cookie::session_cookie_text;
use bookmark_hub::middleware::auth::{auth_middleware, auth_middleware_at, session_is_known};
use bookmark_hub::session::SessionStore;
use bookmark_hub::state::Storage;

fn at(secs: i64) -> Timestamp {
    Timestamp { secs, nanos: 0 }
}

fn storage(enabled: bool, duration: i64) -> Storage {
    let mut config = Config::default();
    config.auth.enabled = enabled;
    config.auth.username = "alice".to_string();
    config.auth.password = "wonder".to_string();
    config.auth.session_duration_secs = duration;
    Storage::new(config, vec![], SessionStore::new())
}

fn request(username: &str, password: &str) -> LoginRequest {
    LoginRequest { username: username.to_string(), password: password.to_string() }
}

#[test]
fn login_without_auth_is_accepted_without_cookie() {
    let mut s = storage(false, 60);
    let r = login(&mut s, &request("whoever", "whatever"));
    assert_eq!(r, Ok(AuthResponse { status: 202, set_cookie: None }));
    assert!(s.sessions.entries().is_empty());
    assert_eq!(auth_middleware(&mut s, None), Ok(None));
    assert_eq!(auth_middleware(&mut s, Some("anything")), Ok(None));
    assert!(s.sessions.entries().is_empty());
}

#[test]
fn login_with_wrong_credentials_fails() {
    let mut s = storage(true, 60);
    assert_eq!(login(&mut s, &request("alice", "wrong")), Err(Error::InvalidCredentials));
    assert_eq!(login(&mut s, &request("bob", "wonder")), Err(Error::InvalidCredentials));
    assert_eq!(login(&mut s, &request("", "")), Err(Error::InvalidCredentials));
    assert!(s.sessions.entries().is_empty());
}

#[test]
fn login_at_sets_the_session_cookie() {
    let mut s = storage(true, 3600);
    let r = login_at(&mut s, &request("alice", "wonder"), "tok-1".to_string(), at(1000));
    assert_eq!(
        r,
        Ok(AuthResponse {
            status: 200,
            set_cookie: Some(
                "session_id=tok-1; HttpOnly; SameSite=Lax; Path=/; Max-Age=3600".to_string()
            ),
        })
    );
    let data = s.sessions.get("tok-1").cloned().unwrap();
    assert_eq!(data.session_id, "tok-1");
    assert_eq!(data.created_at, at(1000));
    assert_eq!(data.expires_at, at(4600));
}

#[test]
fn cookie_max_age_is_written_in_decimal() {
    let mut s = storage(true, 604_800);
    let r = login_at(&mut s, &request("alice", "wonder"), "t".to_string(), at(0)).unwrap();
    assert_eq!(
        r.set_cookie,
        Some("session_id=t; HttpOnly; SameSite=Lax; Path=/; Max-Age=604800".to_string())
    );
    let mut neg = storage(true, -5);
    let r = login_at(&mut neg, &request("alice", "wonder"), "t".to_string(), at(0)).unwrap();
    assert_eq!(
        r.set_cookie,
        Some("session_id=t; HttpOnly; SameSite=Lax; Path=/; Max-Age=-5".to_string())
    );
    let mut zero = storage(true, 0);
    let r = login_at(&mut zero, &request("alice", "wonder"), "t".to_string(), at(0)).unwrap();
    assert_eq!(
        r.set_cookie,
        Some("session_id=t; HttpOnly; SameSite=Lax; Path=/; Max-Age=0".to_string())
    );
}

#[test]
fn login_then_protected_request_end_to_end() {
    let mut s = storage(true, 3600);
    let r = login(&mut s, &request("alice", "wonder")).unwrap();
    assert_eq!(r.status, 200);
    let cookie = r.set_cookie.unwrap();
    let token = s.sessions.entries()[0].key.clone();
    assert_eq!(token.len(), 36);
    assert_eq!(
        cookie,
        format!("session_id={}; HttpOnly; SameSite=Lax; Path=/; Max-Age=3600", token)
    );
    assert_eq!(auth_middleware(&mut s, Some(&token)), Ok(Some(cookie)));
    assert_eq!(auth_middleware(&mut s, None), Err(401));
    assert_eq!(auth_middleware(&mut s, Some("forged")), Err(401));
}

#[test]
fn middleware_refreshes_a_good_session() {
    let mut s = storage(true, 60);
    s.sessions.create_session_at("tok".to_string(), at(1000), 60);
    let r = auth_middleware_at(&mut s, Some("tok"), at(1030));
    assert_eq!(
        r,
        Ok(Some("session_id=tok; HttpOnly; SameSite=Lax; Path=/; Max-Age=60".to_string()))
    );
    assert_eq!(s.sessions.get("tok").map(|d| d.expires_at), Some(at(1090)));
}

#[test]
fn middleware_rejects_and_drops_an_expired_session() {
    let mut s = storage(true, 60);
    s.sessions.create_session_at("tok".to_string(), at(1000), 60);
    assert_eq!(auth_middleware_at(&mut s, Some("tok"), at(1060)), Err(401));
    assert_eq!(s.sessions.get("tok"), None);
    assert_eq!(auth_middleware_at(&mut s, Some("tok"), at(1000)), Err(401));
}

#[test]
fn middleware_without_cookie_rejects_and_keeps_sessions() {
    let mut s = storage(true, 60);
    s.sessions.create_session_at("tok".to_string(), at(1000), 60);
    assert_eq!(auth_middleware_at(&mut s, None, at(5000)), Err(401));
    assert_eq!(s.sessions.get("tok").map(|d| d.expires_at), Some(at(1060)));
}

#[test]
fn middleware_passes_everything_when_auth_is_off() {
    let mut s = storage(false, 60);
    s.sessions.create_session_at("tok".to_string(), at(1000), 60);
    assert_eq!(auth_middleware_at(&mut s, Some("tok"), at(9999)), Ok(None));
    assert_eq!(auth_middleware_at(&mut s, None, at(9999)), Ok(None));
    assert_eq!(s.sessions.get("tok").map(|d| d.expires_at), Some(at(1060)));
}

#[test]
fn logout_drops_the_session_of_the_cookie() {
    let mut s = storage(true, 60);
    s.sessions.create_session_at("a".to_string(), at(1000), 60);
    s.sessions.create_session_at("b".to_string(), at(1000), 60);
    assert_eq!(logout(&mut s, Some("a")), AuthResponse { status: 200, set_cookie: None });
    assert_eq!(s.sessions.get("a"), None);
    assert!(s.sessions.get("b").is_some());
    assert_eq!(logout(&mut s, Some("a")), AuthResponse { status: 200, set_cookie: None });
    assert_eq!(logout(&mut s, None), AuthResponse { status: 200, set_cookie: None });
    assert_eq!(s.sessions.entries().len(), 1);
}

#[test]
fn session_cookie_is_spelled_out() {
    assert_eq!(
        session_cookie_text("abc", 60),
        "session_id=abc; HttpOnly; SameSite=Lax; Path=/; Max-Age=60"
    );
    assert_eq!(
        session_cookie_text("", i64::MIN),
        "session_id=; HttpOnly; SameSite=Lax; Path=/; Max-Age=-9223372036854775808"
    );
    assert_eq!(
        session_cookie_text("a b;c", i64::MAX),
        "session_id=a b;c; HttpOnly; SameSite=Lax; Path=/; Max-Age=9223372036854775807"
    );
}

#[test]
fn login_is_granted_for_the_configured_credentials_only() {
    let s = storage(true, 60);
    assert!(login_is_granted(&s, &request("alice", "wonder")));
    assert!(!login_is_granted(&s, &request("alice", "wrong")));
    assert!(!login_is_granted(&s, &request("bob", "wonder")));
    let open = storage(false, 60);
    assert!(!login_is_granted(&open, &request("alice", "wonder")));
}

#[test]
fn unsupported_duration_matters_only_where_a_session_is_kept() {
    let mut s = storage(true, i64::MAX);
    assert_eq!(login(&mut s, &request("alice", "wrong")), Err(Error::InvalidCredentials));
    assert_eq!(auth_middleware(&mut s, None), Err(401));
    assert_eq!(auth_middleware(&mut s, Some("unknown")), Err(401));
    assert!(!s.sessions.validate_session("unknown", &s.config.clone()));
    assert!(!session_is_known(&s, Some("unknown")));
    assert!(!session_is_known(&s, None));
    s.sessions.create_session_at("tok".to_string(), at(0), 10);
    assert!(session_is_known(&s, Some("tok")));
    let mut open = storage(false, 60);
    open.sessions.create_session_at("tok".to_string(), at(0), 10);
    assert!(!session_is_known(&open, Some("tok")));
}
