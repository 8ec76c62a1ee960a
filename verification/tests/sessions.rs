use bookmark_hub::clock::{supports_duration, Timestamp, MAX_DURATION_SECS};
use bookmark_hub::config::Config;
use bookmark_hub::session::{SessionData, SessionEntry, SessionStore};
use bookmark_hub::state::Storage;

fn at(secs: i64) -> Timestamp {
    Timestamp { secs, nanos: 0 }
}

fn config(duration: i64) -> Config {
    let mut c = Config::default();
    c.auth.session_duration_secs = duration;
    c
}

fn session(id: &str, created: i64, expires: i64) -> SessionData {
    SessionData { session_id: id.to_string(), created_at: at(created), expires_at: at(expires) }
}

#[test]
fn timestamps_compare_by_seconds_then_nanos() {
    let a = Timestamp { secs: 10, nanos: 5 };
    assert!(Timestamp { secs: 11, nanos: 0 }.later_than(&a));
    assert!(Timestamp { secs: 10, nanos: 6 }.later_than(&a));
    assert!(!Timestamp { secs: 10, nanos: 5 }.later_than(&a));
    assert!(!Timestamp { secs: 10, nanos: 4 }.later_than(&a));
    assert!(!Timestamp { secs: 9, nanos: 999 }.later_than(&a));
}

#[test]
fn timestamps_move_by_whole_seconds() {
    let a = Timestamp { secs: 10, nanos: 5 };
    assert_eq!(a.plus_seconds(90), Timestamp { secs: 100, nanos: 5 });
    assert_eq!(a.plus_seconds(-20), Timestamp { secs: -10, nanos: 5 });
    assert_eq!(a.plus_seconds(0), a);
}

#[test]
fn new_store_is_empty() {
    let s = SessionStore::new();
    assert!(s.entries().is_empty());
    assert!(SessionStore::default().entries().is_empty());
    assert_eq!(s.get("x"), None);
}

#[test]
fn created_session_is_recorded() {
    let mut s = SessionStore::new();
    s.create_session_at("tok".to_string(), at(100), 60);
    assert_eq!(s.get("tok"), Some(&session("tok", 100, 160)));
    assert_eq!(s.entries().len(), 1);
    assert_eq!(s.get("other"), None);
}

#[test]
fn created_session_replaces_one_of_the_same_token() {
    let mut s = SessionStore::new();
    s.create_session_at("tok".to_string(), at(100), 60);
    s.create_session_at("tok".to_string(), at(200), 10);
    assert_eq!(s.entries().len(), 1);
    assert_eq!(s.get("tok"), Some(&session("tok", 200, 210)));
}

#[test]
fn session_validates_immediately_and_expires_after_its_duration() {
    let mut s = SessionStore::new();
    s.create_session_at("tok".to_string(), at(1000), 60);
    let mut t = SessionStore::new();
    t.create_session_at("tok".to_string(), at(1000), 60);
    assert!(s.validate_session_at("tok", at(1000), 60));
    assert!(!t.validate_session_at("tok", at(1060), 60));
    assert_eq!(t.get("tok"), None);
    assert!(t.entries().is_empty());
    assert!(!t.validate_session_at("tok", at(1060), 60));
    assert!(!t.validate_session_at("tok", at(1000), 60));
}

#[test]
fn session_expiring_exactly_now_is_expired() {
    let mut s = SessionStore::new();
    s.insert("tok".to_string(), SessionData {
        session_id: "tok".to_string(),
        created_at: at(0),
        expires_at: Timestamp { secs: 50, nanos: 7 },
    });
    let mut t = SessionStore::from_entries(s.entries());
    assert!(s.validate_session_at("tok", Timestamp { secs: 50, nanos: 6 }, 60));
    assert!(!t.validate_session_at("tok", Timestamp { secs: 50, nanos: 7 }, 60));
    assert_eq!(t.get("tok"), None);
}

#[test]
fn validation_slides_the_expiry() {
    let mut s = SessionStore::new();
    s.create_session_at("tok".to_string(), at(1000), 60);
    assert!(s.validate_session_at("tok", at(1059), 60));
    assert_eq!(s.get("tok"), Some(&session("tok", 1000, 1119)));
    assert!(s.validate_session_at("tok", at(1060), 60));
    assert!(s.validate_session_at("tok", at(1100), 60));
    assert_eq!(s.get("tok"), Some(&session("tok", 1000, 1160)));
    assert!(!s.validate_session_at("tok", at(1160), 60));
    assert_eq!(s.get("tok"), None);
}

#[test]
fn validation_of_unknown_token_changes_nothing() {
    let mut s = SessionStore::new();
    s.create_session_at("tok".to_string(), at(1000), 60);
    assert!(!s.validate_session_at("nope", at(1001), 60));
    assert_eq!(s.get("tok"), Some(&session("tok", 1000, 1060)));
}

#[test]
fn session_with_non_positive_duration_is_never_valid() {
    let mut s = SessionStore::new();
    s.create_session_at("tok".to_string(), at(1000), 0);
    assert!(!s.validate_session_at("tok", at(1000), 0));
    assert_eq!(s.get("tok"), None);
}

#[test]
fn delete_is_idempotent() {
    let mut s = SessionStore::new();
    s.create_session_at("a".to_string(), at(1), 60);
    s.create_session_at("b".to_string(), at(2), 60);
    s.delete_session("a");
    assert_eq!(s.get("a"), None);
    assert_eq!(s.get("b"), Some(&session("b", 2, 62)));
    s.delete_session("a");
    s.delete_session("zzz");
    assert_eq!(s.entries().len(), 1);
}

#[test]
fn sweep_drops_exactly_the_expired() {
    let mut s = SessionStore::new();
    s.insert("old".to_string(), session("old", 0, 99));
    s.insert("edge".to_string(), session("edge", 0, 100));
    s.insert("live".to_string(), session("live", 0, 101));
    s.insert("far".to_string(), session("far", 50, 5000));
    s.cleanup_sessions_at(at(100));
    assert_eq!(s.get("old"), None);
    assert_eq!(s.get("edge"), None);
    assert_eq!(s.get("live"), Some(&session("live", 0, 101)));
    assert_eq!(s.get("far"), Some(&session("far", 50, 5000)));
    assert_eq!(s.entries().len(), 2);
    s.cleanup_sessions_at(at(100));
    assert_eq!(s.entries().len(), 2);
}

#[test]
fn sweep_by_the_clock_keeps_future_sessions() {
    let mut s = SessionStore::new();
    s.insert("past".to_string(), session("past", 0, 1));
    s.insert("future".to_string(), session("future", 0, 100_000_000_000));
    s.cleanup_sessions();
    assert_eq!(s.get("past"), None);
    assert_eq!(s.get("future"), Some(&session("future", 0, 100_000_000_000)));
}

#[test]
fn insert_keeps_key_and_data_apart() {
    let mut s = SessionStore::new();
    s.insert("key".to_string(), session("other", 1, 2));
    assert_eq!(s.get("key"), Some(&session("other", 1, 2)));
    assert_eq!(s.get("other"), None);
    s.insert("key".to_string(), session("third", 3, 4));
    assert_eq!(s.get("key"), Some(&session("third", 3, 4)));
    assert_eq!(s.entries().len(), 1);
}

#[test]
fn entries_round_trip() {
    let mut s = SessionStore::new();
    s.insert("a".to_string(), session("a", 1, 10));
    s.insert("b".to_string(), session("b", 2, 20));
    let mut written = s.entries();
    written.sort_by(|x, y| x.key.cmp(&y.key));
    assert_eq!(
        written,
        vec![
            SessionEntry { key: "a".to_string(), data: session("a", 1, 10) },
            SessionEntry { key: "b".to_string(), data: session("b", 2, 20) },
        ]
    );
    let read = SessionStore::from_entries(written);
    assert_eq!(read.get("a"), s.get("a"));
    assert_eq!(read.get("b"), s.get("b"));
    assert_eq!(read.entries().len(), 2);
}

#[test]
fn from_entries_lets_the_later_entry_win() {
    let read = SessionStore::from_entries(vec![
        SessionEntry { key: "a".to_string(), data: session("a", 1, 10) },
        SessionEntry { key: "a".to_string(), data: session("a", 2, 20) },
    ]);
    assert_eq!(read.entries().len(), 1);
    assert_eq!(read.get("a"), Some(&session("a", 2, 20)));
}

#[test]
fn create_session_by_the_clock() {
    let mut s = SessionStore::new();
    let c = config(3600);
    let id = s.create_session(&c);
    assert_eq!(id.len(), 36);
    let data = s.get(&id).cloned().unwrap();
    assert_eq!(data.session_id, id);
    assert_eq!(data.expires_at, data.created_at.plus_seconds(3600));
    assert!(data.created_at.secs > 1_600_000_000);
    assert!(data.created_at.secs < 281_474_976_710_656);
    let other = s.create_session(&c);
    assert_ne!(other, id);
    assert_eq!(s.entries().len(), 2);
}

#[test]
fn validate_session_by_the_clock() {
    let mut s = SessionStore::new();
    let c = config(3600);
    let id = s.create_session(&c);
    assert!(s.validate_session(&id, &c));
    assert!(!s.validate_session("unknown", &c));
    s.insert("stale".to_string(), session("stale", 0, 1));
    assert!(!s.validate_session("stale", &c));
    assert_eq!(s.get("stale"), None);
    assert!(!s.validate_session("stale", &c));
    let long = config(7200);
    let before = s.get(&id).cloned().unwrap();
    assert!(s.validate_session(&id, &long));
    let after = s.get(&id).cloned().unwrap();
    assert_eq!(after.created_at, before.created_at);
    assert!(after.expires_at.secs >= before.created_at.secs + 7200);
}

#[test]
fn init_sweeps_the_loaded_sessions() {
    let mut sessions = SessionStore::new();
    sessions.insert("old".to_string(), session("old", 0, 10));
    sessions.insert("new".to_string(), session("new", 0, 1000));
    let s = Storage::init_at(Config::default(), vec![], sessions, at(500));
    assert_eq!(s.sessions.get("old"), None);
    assert_eq!(s.sessions.get("new"), Some(&session("new", 0, 1000)));
    assert!(s.profiles.is_empty());
    assert_eq!(s.config, Config::default());
    let mut more = SessionStore::new();
    more.insert("past".to_string(), session("past", 0, 1));
    more.insert("future".to_string(), session("future", 0, 100_000_000_000));
    let t = Storage::init(Config::default(), vec![], more);
    assert_eq!(t.sessions.get("past"), None);
    assert!(t.sessions.get("future").is_some());
}

#[test]
fn session_data_clone_is_equal() {
    let d = session("x", 5, 6);
    assert_eq!(d.clone(), d);
    let e = SessionEntry { key: "k".to_string(), data: d };
    assert_eq!(e.clone(), e);
}

#[test]
fn len_counts_the_sessions() {
    let mut s = SessionStore::new();
    assert_eq!(s.len(), 0);
    s.insert("a".to_string(), session("a", 1, 10));
    s.insert("b".to_string(), session("b", 1, 10));
    s.insert("a".to_string(), session("a", 2, 20));
    assert_eq!(s.len(), 2);
    s.delete_session("a");
    assert_eq!(s.len(), 1);
    s.cleanup_sessions_at(at(10));
    assert_eq!(s.len(), 0);
}

#[test]
fn supported_durations() {
    assert!(supports_duration(0));
    assert!(supports_duration(604_800));
    assert!(supports_duration(-1));
    assert!(supports_duration(MAX_DURATION_SECS));
    assert!(supports_duration(-MAX_DURATION_SECS));
    assert!(!supports_duration(MAX_DURATION_SECS + 1));
    assert!(!supports_duration(-MAX_DURATION_SECS - 1));
    assert!(!supports_duration(i64::MAX));
    assert!(!supports_duration(i64::MIN));
    assert_eq!(MAX_DURATION_SECS, i64::MAX / 1000);
}
