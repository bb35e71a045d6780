use castor::model::cache::{CacheEntry, MetadataCache};
use castor::model::registry::Registry;
use castor::model::scanner::Scanner;
use castor::model::session::{display_id_of, Session, SessionHealth};
use castor::utils::time::{Timestamp, MAX_UTC_SECS};

fn ts(secs: i64) -> Timestamp {
    Timestamp { secs, nanos: 0 }
}

fn found(path: &str, name: &str, project: &str, secs: i64, size: u64) -> Session {
    Session::from_path(path, Some(name), project.to_string(), None, ts(secs), size)
}

#[test]
fn test_lazy_loading() {
    let s = found(
        "/tmp/x/session-2026-03-08T12-00-abcdef01.json",
        "session-2026-03-08T12-00-abcdef01.json",
        "p",
        1_772_971_200,
        2,
    );
    assert_eq!(s.display_id, "abcdef01");
    assert_eq!(s.health, SessionHealth::Unknown);
}

#[test]
fn from_path_without_name_is_unknown() {
    let s = Session::from_path("/tmp/x/\u{fffd}.json", None, "p".to_string(), None, ts(0), 0);
    assert_eq!(s.id, "unknown");
    assert_eq!(s.display_id, "unknown");
    assert_eq!(display_id_of("plain.json"), "plain");
    assert_eq!(display_id_of("a-b-c"), "c");
}

#[test]
fn test_scanner_with_data() {
    let scanner = Scanner::new("/tmp/base");
    assert_eq!(scanner.base_path, "/tmp/base");
    assert!(Scanner::is_session_file("session-1.json"));
    assert!(!Scanner::is_session_file("notes.txt"));
    assert!(!Scanner::is_session_file("json"));
    assert_eq!(Scanner::host_from_marker("/home/user/proj1"), "/home/user/proj1");
    assert_eq!(Scanner::host_from_marker("  /home/user/proj1 \n"), "/home/user/proj1");
}

#[test]
fn deep_validate_outcomes() {
    let now = ts(1_000_000);
    let mut empty = found("/p/e.json", "e.json", "p", 10, 0);
    empty.deep_validate_at(Some("{}"), true, now);
    assert_eq!(empty.health, SessionHealth::Error);
    assert_eq!(empty.validation_notes, vec!["File is empty".to_string()]);

    let mut unreadable = found("/p/u.json", "u.json", "p", 10, 5);
    unreadable.deep_validate_at(None, true, now);
    assert_eq!(unreadable.health, SessionHealth::Error);
    assert_eq!(unreadable.validation_notes, vec!["Unreadable file".to_string()]);

    let mut broken = found("/p/b.json", "b.json", "p", 10, 5);
    broken.deep_validate_at(Some("{not json"), true, now);
    assert_eq!(broken.health, SessionHealth::Error);
    assert_eq!(broken.validation_notes, vec!["Invalid JSON structure".to_string()]);

    let mut orphan = found("/p/o.json", "o.json", "p", 10, 5);
    orphan.host_path = Some("/gone".to_string());
    orphan.deep_validate_at(Some(r#"{"messages": [{"type":"user","content":"first line\nsecond"}]}"#), false, now);
    assert_eq!(orphan.health, SessionHealth::Warn);
    assert_eq!(orphan.validation_notes, vec!["Host project path missing".to_string()]);
    assert_eq!(orphan.name, Some("first line".to_string()));

    let mut future = found("/p/f.json", "f.json", "p", 1_000_000 + 3601, 5);
    future.host_path = Some("/here".to_string());
    future.deep_validate_at(Some("{}"), true, now);
    assert_eq!(future.health, SessionHealth::Risk);
    assert_eq!(future.validation_notes, vec!["Temporal anomaly: future update time".to_string()]);

    let mut large = found("/p/l.json", "l.json", "p", 10, 52_428_801);
    large.host_path = Some("/here".to_string());
    large.deep_validate_at(Some("{}"), true, now);
    assert_eq!(large.health, SessionHealth::Risk);
    assert_eq!(large.validation_notes, vec!["Extremely large session (>50MB)".to_string()]);

    let mut fine = found("/p/g.json", "g.json", "p", 10, 5);
    fine.host_path = Some("/here".to_string());
    fine.deep_validate_at(Some("{}"), true, now);
    assert_eq!(fine.health, SessionHealth::Healthy);
    assert!(fine.validation_notes.is_empty());
}

#[test]
fn session_name_cut_to_fifty_chars() {
    let long = "x".repeat(80);
    let doc = format!(r#"{{"messages": [{{"type":"assistant","content":"hi"}}, {{"type":"user","content":"{}"}}]}}"#, long);
    let mut s = found("/p/n.json", "n.json", "p", 10, 5);
    s.deep_validate_at(Some(doc.as_str()), true, ts(100));
    assert_eq!(s.name, Some("x".repeat(50)));
}

#[test]
fn health_labels() {
    assert_eq!(SessionHealth::Healthy.label(), "OK");
    assert_eq!(SessionHealth::Unknown.label(), "UNKNOWN");
    assert_eq!(SessionHealth::Risk.label(), "RISK");
    assert_eq!(SessionHealth::default(), SessionHealth::Unknown);
}

#[test]
fn cache_reads_back_what_was_written() {
    let mut c = MetadataCache::new();
    c.update(
        "/p/a.json".to_string(),
        CacheEntry { mtime: ts(5), health: SessionHealth::Warn, name: Some("n".to_string()), notes: vec!["x".to_string()] },
    );
    let hit = c.get("/p/a.json", ts(5)).expect("entry for the same mtime");
    assert_eq!(hit.health, SessionHealth::Warn);
    assert_eq!(hit.name, Some("n".to_string()));
    assert!(c.get("/p/a.json", ts(6)).is_none());
    assert!(c.get("/p/b.json", ts(5)).is_none());
    c.update(
        "/p/a.json".to_string(),
        CacheEntry { mtime: ts(6), health: SessionHealth::Healthy, name: None, notes: Vec::new() },
    );
    assert_eq!(c.get("/p/a.json", ts(6)).map(|e| e.health), Some(SessionHealth::Healthy));
    assert!(c.get("/p/a.json", ts(5)).is_none());
}

#[test]
fn test_registry_with_cache() {
    let mut cache = MetadataCache::new();
    cache.update(
        "/g/p1/chats/session-2026-03-08T12-00-aaaa1111.json".to_string(),
        CacheEntry { mtime: ts(77), health: SessionHealth::Healthy, name: Some("cached_name".to_string()), notes: Vec::new() },
    );
    let mut registry = Registry::new("/g", "/c/cache.json", cache);
    let mut s = found(
        "/g/p1/chats/session-2026-03-08T12-00-aaaa1111.json",
        "session-2026-03-08T12-00-aaaa1111.json",
        "p1",
        77,
        40,
    );
    assert!(registry.apply_cached(&mut s));
    assert_eq!(s.name, Some("cached_name".to_string()));
    registry.install(vec![s]);
    assert_eq!(registry.list().len(), 1);
    assert_eq!(registry.list()[0].name, Some("cached_name".to_string()));
}

#[test]
fn registry_validates_and_records_on_miss() {
    let mut registry = Registry::new("/g", "/c/cache.json", MetadataCache::new());
    let mut s = found("/g/p/chats/a.json", "a.json", "p", 10, 20);
    assert!(!registry.apply_cached(&mut s));
    assert!(registry.validate_and_record(&mut s, Some(r#"{"messages": []}"#), true));
    let mut again = found("/g/p/chats/a.json", "a.json", "p", 10, 20);
    again.health = SessionHealth::Risk;
    assert!(registry.apply_cached(&mut again));
    assert_eq!(again.health, s.health);
    let mut changed = found("/g/p/chats/a.json", "a.json", "p", 11, 20);
    assert!(!registry.apply_cached(&mut changed));
}

#[test]
fn registry_finds_by_id_then_name() {
    let mut registry = Registry::new("/g", "/c/cache.json", MetadataCache::new());
    let mut a = found("/g/p/chats/a.json", "a.json", "p", 1, 1);
    a.name = Some("hello".to_string());
    let b = found("/g/p/chats/b.json", "b.json", "p", 2, 1);
    let b2 = found("/g/q/chats/b.json", "b.json", "q", 3, 1);
    registry.install(vec![a, b, b2]);
    assert_eq!(registry.find_by_id("a.json").map(|s| s.id.clone()), Some("a.json".to_string()));
    assert_eq!(registry.find_by_id("b.json").map(|s| s.project_id.clone()), Some("q".to_string()));
    assert_eq!(registry.find("hello").map(|s| s.id.clone()), Some("a.json".to_string()));
    assert!(registry.find("nope").is_none());
}

#[test]
fn validation_near_the_end_of_time_is_refused_only_where_it_reads_the_clock() {
    let late = ts(MAX_UTC_SECS - 3599);
    let mut s = found("/g/p/chats/a.json", "a.json", "p", 10, 20);
    assert!(!s.deep_validate_checked_at(Some("{}"), true, late));
    assert_eq!(s.health, SessionHealth::Unknown);
    assert!(s.deep_validate_checked_at(None, true, late));
    assert_eq!(s.health, SessionHealth::Error);
    let mut t = found("/g/p/chats/b.json", "b.json", "p", 10, 20);
    assert!(t.deep_validate_checked_at(Some("{}"), true, ts(MAX_UTC_SECS - 3600)));
    let mut registry = Registry::new("/g", "/c/cache.json", MetadataCache::new());
    let mut u = found("/g/p/chats/c.json", "c.json", "p", 10, 20);
    assert!(!registry.validate_and_record_at(&mut u, Some("{}"), true, late));
    assert!(!registry.apply_cached(&mut u));
    assert!(registry.validate_and_record_at(&mut u, Some("{}"), true, ts(100)));
    let mut again = found("/g/p/chats/c.json", "c.json", "p", 10, 20);
    assert!(registry.apply_cached(&mut again));
}
