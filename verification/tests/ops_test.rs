use castor::audit::logger::{AuditEntry, AuditLogger, OperationType};
use castor::cli::{plan_delete, plan_prune, prune_epilogue, runs_tui, Cli, Commands};
use castor::config::{Config, PreviewConfig};
use castor::error::CastorError;
use castor::model::session::{Session, SessionHealth};
use castor::ops::doctor::DoctorReport;
use castor::ops::executor::{Executor, PlanStep};
use castor::ops::export::{export_session, role_label, session_to_markdown, session_to_markdown_limited};
use castor::ops::grep::search_sessions;
use castor::ops::prune::{days_in_bounds, find_sessions_to_prune, find_sessions_to_prune_at, find_sessions_to_prune_checked_at};
use castor::ops::stats::StorageStats;
use castor::tui::theme::ThemeConfig;
use castor::utils::icons::IconSet;
use castor::utils::time::Timestamp;
use std::sync::Arc;

fn session(id: &str, project: &str, secs: i64, size: u64, health: SessionHealth) -> Session {
    Session {
        id: id.to_string(),
        display_id: id.to_string(),
        project_id: project.to_string(),
        host_path: None,
        name: None,
        path: format!("/g/{}/chats/{}", project, id),
        created_at: Timestamp { secs, nanos: 0 },
        updated_at: Timestamp { secs, nanos: 0 },
        size,
        health,
        validation_notes: Vec::new(),
    }
}

fn config() -> Config {
    Config {
        gemini_sessions_path: "/tmp/gemini".to_string(),
        trash_path: "/tmp/trash".to_string(),
        audit_path: "/tmp/audit".to_string(),
        cache_path: "/tmp/cache".to_string(),
        dry_run_by_default: true,
        icon_set: IconSet::Ascii,
        theme: ThemeConfig::default(),
        preview: PreviewConfig::default(),
    }
}

#[test]
fn test_markdown_generation_merging() {
    let data = r#"{
        "messages": [
            {"type": "user", "content": "hello"},
            {"type": "assistant", "content": "part 1"},
            {"type": "assistant", "content": "part 2"},
            {"type": "assistant", "content": "  "}
        ]
    }"#;
    let s = session("test", "p", 0, 0, SessionHealth::Healthy);
    let md = session_to_markdown(&s, data).unwrap();
    assert!(md.contains("## USER\nhello"));
    assert!(md.contains("## GEMINI\npart 1\n\npart 2"));
    assert_eq!(md.matches("## GEMINI").count(), 1);
}

#[test]
fn markdown_exact_text_and_limit() {
    let data = r#"{"messages": [
        {"type": "user", "content": [{"text": "a"}, {"text": " "}, {"text": "b"}]},
        {"type": "tool", "content": "t"},
        {"type": "assistant", "content": "c"}
    ]}"#;
    assert_eq!(
        session_to_markdown_limited(data, 10).unwrap(),
        "## USER\na\n\nb\n\n## TOOL\nt\n\n## GEMINI\nc\n\n"
    );
    assert_eq!(
        session_to_markdown_limited(data, 1).unwrap(),
        "## USER\na\n\nb\n\n\n\n-- [ Preview limited to first few messages ] --"
    );
    assert_eq!(session_to_markdown_limited("{}", 3).unwrap(), "");
    assert!(matches!(session_to_markdown_limited("not json", 3), Err(CastorError::Serialization(_))));
}

#[test]
fn test_export_logic() {
    let s = session("session-2026-03-08T10-00-aaaa1111.json", "p1", 0, 10, SessionHealth::Healthy);
    let data = r#"{"messages": [{"type": "user", "content": "Markdown test"}]}"#;
    let md = session_to_markdown(&s, data).unwrap();
    assert!(md.contains("# Session:"));
    assert!(md.contains("Markdown test"));
    let (path, body) = export_session(&s, data, None).unwrap();
    assert_eq!(path, "session-2026-03-08T10-00-aaaa1111.md");
    assert_eq!(body, md);
    let (path2, _) = export_session(&s, data, Some("/out/x.md")).unwrap();
    assert_eq!(path2, "/out/x.md");
}

#[test]
fn export_paths_replace_the_last_extension() {
    let data = r#"{"messages": []}"#;
    let dotted = session("a.b.json", "p1", 0, 10, SessionHealth::Healthy);
    assert_eq!(export_session(&dotted, data, None).unwrap().0, "a.b.md");
    let hidden = session(".hidden", "p1", 0, 10, SessionHealth::Healthy);
    assert_eq!(export_session(&hidden, data, None).unwrap().0, ".hidden.md");
    let plain = session("notes", "p1", 0, 10, SessionHealth::Healthy);
    assert_eq!(export_session(&plain, data, None).unwrap().0, "notes.md");
}

#[test]
fn test_prune_selection() {
    let now = Timestamp { secs: 1_800_000_000, nanos: 5 };
    let s1 = Arc::new(session("old", "p1", now.secs - 40 * 86400, 0, SessionHealth::Healthy));
    let s2 = Arc::new(session("new", "p1", now.secs, 0, SessionHealth::Healthy));
    let list = [s1, s2];
    let to_prune = find_sessions_to_prune_at(&list, 30, now);
    assert_eq!(to_prune.len(), 1);
    assert_eq!(to_prune[0].id, "old");
}

#[test]
fn prune_threshold_is_strict() {
    let now = Timestamp { secs: 1_800_000_000, nanos: 0 };
    let edge = Arc::new(session("edge", "p", now.secs - 30 * 86400, 0, SessionHealth::Healthy));
    let list = [edge];
    assert!(find_sessions_to_prune_at(&list, 30, now).is_empty());
    assert_eq!(find_sessions_to_prune_at(&list, 29, now).len(), 1);
    let ancient = [Arc::new(session("ancient", "p", 1_000_000_000, 0, SessionHealth::Healthy))];
    let stale_now = find_sessions_to_prune(&ancient, 0).expect("threshold in range");
    assert_eq!(stale_now.len(), 1);
}

#[test]
fn test_stats_calculation() {
    let s = Arc::new(session("s1", "p1", 0, 1024, SessionHealth::Healthy));
    let stats = StorageStats::calculate(&[s], None);
    assert_eq!(stats.total_sessions, 1);
    assert_eq!(stats.total_size_bytes, 1024);
    assert_eq!(stats.trash_size_bytes, 0);
}

#[test]
fn test_search_sessions() {
    let s1 = Arc::new(session("s1", "p1", 0, 0, SessionHealth::Healthy));
    let content = vec![r#"{"messages": [{"type":"user","content":"Rust performance"}]}"#.to_string()];
    let list = [s1];
    let results = search_sessions(&list, &content, "Rust", false);
    assert_eq!(results.len(), 1);
    let results_none = search_sessions(&list, &content, "Python", false);
    assert_eq!(results_none.len(), 0);
    assert_eq!(search_sessions(&list, &content, "rust", false).len(), 0);
    assert_eq!(search_sessions(&list, &content, "RUST", true).len(), 1);
}

#[test]
fn test_doctor_report_generation() {
    let mut s1 = session("s1", "p1", 0, 0, SessionHealth::Error);
    s1.validation_notes = vec!["Structural: corrupted".to_string()];
    let report = DoctorReport::generate(&[Arc::new(s1)], true, true, false);
    assert_eq!(report.total_sessions, 1);
    assert_eq!(report.corrupted_count, 1);
    assert_eq!(report.orphaned_count, 0);
    assert!(!report.trash_path_exists);
}

#[test]
fn test_full_prune_and_restore_cycle() {
    let executor = Executor::new(config());
    let now = Timestamp { secs: 1_772_964_000, nanos: 0 };
    let fresh = Arc::new(session("session-2026-03-08T10-00-fresh111.json", "proj_a", now.secs, 10, SessionHealth::Healthy));
    let old = Arc::new(session("session-2026-01-01T10-00-oldold22.json", "proj_a", now.secs - 60 * 86400, 10, SessionHealth::Healthy));
    let list = [fresh, old];
    let to_prune = find_sessions_to_prune_at(&list, 30, now);
    assert_eq!(to_prune.len(), 1);
    assert_eq!(to_prune[0].id, "session-2026-01-01T10-00-oldold22.json");

    let plan = executor.delete_soft(to_prune[0], false, 42).unwrap();
    assert_eq!(plan.batch_id, 42);
    let entry = match &plan.steps[0] {
        PlanStep::AppendAudit(e) => e,
        other => panic!("unexpected first step {:?}", other),
    };
    let trashed = "/tmp/trash/proj_a/session-2026-01-01T10-00-oldold22.json".to_string();
    assert_eq!(entry.target_path, Some(trashed.clone()));
    assert!(matches!(&plan.steps[3], PlanStep::MovePath(a, b) if a == &to_prune[0].path && b == &trashed));

    let history = vec![AuditEntry {
        batch_id: entry.batch_id,
        timestamp: entry.timestamp,
        op_type: entry.op_type,
        session_id: entry.session_id.clone(),
        original_path: entry.original_path.clone(),
        target_path: entry.target_path.clone(),
    }];
    let restore = executor.restore(&history, "session-2026-01-01T10-00-oldold22.json", false, 43).unwrap();
    assert!(matches!(&restore.steps[0], PlanStep::RequireExists(p) if p == &trashed));
    assert!(matches!(&restore.steps[3], PlanStep::MovePath(a, b) if a == &trashed && b == &to_prune[0].path));
    match &restore.steps[1] {
        PlanStep::AppendAudit(e) => assert_eq!(e.op_type, OperationType::Restore),
        other => panic!("unexpected step {:?}", other),
    }
}

#[test]
fn dry_runs_only_announce() {
    let executor = Executor::new(config());
    let s = session("a.json", "p", 0, 1, SessionHealth::Healthy);
    let soft = executor.plan_delete_soft(&s, true, 7, Timestamp { secs: 1, nanos: 0 });
    assert_eq!(soft.steps.len(), 1);
    assert!(matches!(&soft.steps[0], PlanStep::Announce(m) if m == "[DRY-RUN] Would move session a.json (Project: p) to trash"));
    let hard = executor.plan_delete_hard(&s, true, 7, Timestamp { secs: 1, nanos: 0 });
    assert!(matches!(&hard.steps[0], PlanStep::Announce(m) if m == "[DRY-RUN] Would permanently delete session a.json (Project: p)"));
    let real_hard = executor.plan_delete_hard(&s, false, 7, Timestamp { secs: 1, nanos: 0 });
    assert_eq!(real_hard.steps.len(), 3);
    assert!(matches!(&real_hard.steps[2], PlanStep::RemovePath(p) if p == "/g/p/chats/a.json"));
}

#[test]
fn restore_errors() {
    let executor = Executor::new(config());
    let none: Vec<AuditEntry> = Vec::new();
    assert!(matches!(executor.restore(&none, "x", false, 9), Err(CastorError::BatchNotFound(id)) if id == "x"));
    let broken = vec![AuditEntry {
        batch_id: 1,
        timestamp: Timestamp { secs: 1, nanos: 0 },
        op_type: OperationType::SoftDelete,
        session_id: "x".to_string(),
        original_path: "/g/p/chats/x".to_string(),
        target_path: None,
    }];
    assert!(matches!(executor.restore(&broken, "x", false, 9), Err(CastorError::Audit(m)) if m == "Missing target path in audit log"));
    let dry = vec![AuditEntry {
        batch_id: 1,
        timestamp: Timestamp { secs: 1, nanos: 0 },
        op_type: OperationType::SoftDelete,
        session_id: "x".to_string(),
        original_path: "/g/p/chats/x".to_string(),
        target_path: Some("/t/p/x".to_string()),
    }];
    let plan = executor.restore(&dry, "x", true, 9).unwrap();
    assert!(matches!(&plan.steps[1], PlanStep::Announce(m) if m == "[DRY-RUN] Would restore session x to \"/g/p/chats/x\""));
}

#[test]
fn audit_log_lives_in_audit_dir() {
    assert_eq!(AuditLogger::new("/tmp/audit").log_path, "/tmp/audit/audit.jsonl");
    assert_eq!(Executor::new(config()).logger.log_path, "/tmp/audit/audit.jsonl");
}

#[test]
fn confirmation_gates_deletion() {
    let executor = Executor::new(config());
    let s = Arc::new(session("a.json", "p", 0, 1, SessionHealth::Healthy));
    assert!(plan_delete(&executor, &s, false, false, false, 1).unwrap().is_none());
    let p = plan_delete(&executor, &s, true, false, true, 3).unwrap().unwrap();
    assert!(matches!(&p.steps[2], PlanStep::RemovePath(_)));
    assert_eq!(p.batch_id, 3);
    let list = vec![&s, &s];
    assert!(plan_prune(&executor, &list, false, true, false, &vec![0, 0]).unwrap().is_empty());
    let plans = plan_prune(&executor, &list, false, true, true, &vec![11, 12]).unwrap();
    assert_eq!(plans.len(), 2);
    assert_eq!((plans[0].batch_id, plans[1].batch_id), (11, 12));
    assert_eq!(prune_epilogue(false, true), "\nRun with --confirm to perform the operation.");
    assert_eq!(prune_epilogue(true, true), "\nDry-run complete. No files were moved.");
    assert_eq!(prune_epilogue(true, false), "\nPrune complete.");
    assert!(runs_tui(&Cli { verbose: false, config: None, command: None }));
    assert!(!runs_tui(&Cli { verbose: false, config: None, command: Some(Commands::Doctor) }));
}

#[test]
fn day_counts_chrono_accepts() {
    assert!(days_in_bounds(0));
    assert!(days_in_bounds(106_751_991_167));
    assert!(!days_in_bounds(106_751_991_168));
    assert!(days_in_bounds(u64::MAX));
    assert!(!days_in_bounds(u64::MAX / 2));
}

#[test]
fn delete_closing_lines() {
    assert_eq!(castor::cli::delete_epilogue("a.json", true), "Dry-run: Session a.json would be deleted.");
    assert_eq!(castor::cli::delete_epilogue("a.json", false), "Session a.json deleted.");
}

#[test]
fn test_stats_and_grep() {
    let s = Arc::new(session("session-2026-03-08T10-00-aaaa1111.json", "p1", 0, 80, SessionHealth::Healthy));
    let list = [s];
    let contents = vec![r#"{"messages": [{"type": "user", "content": "Find me: KeywordX"}]}"#.to_string()];
    let matches = search_sessions(&list, &contents, "KeywordX", false);
    assert_eq!(matches.len(), 1);
    let stats = StorageStats::calculate(&list, Some(0));
    assert_eq!(stats.total_sessions, 1);
}

#[test]
fn test_soft_delete_and_restore_with_project() {
    let mut cfg = config();
    cfg.trash_path = "/tmp/t/trash".to_string();
    let executor = Executor::new(cfg);
    let mut s = session("test-session.json", "abc123hash", 0, 16, SessionHealth::Unknown);
    s.path = "/tmp/t/tmp/abc123hash/chats/test-session.json".to_string();
    s.host_path = Some("/home/omega/test/my_project".to_string());
    assert_eq!(s.host_path.as_deref(), Some("/home/omega/test/my_project"));

    let plan = executor.delete_soft(&s, false, 5).unwrap();
    let entry = match &plan.steps[0] {
        PlanStep::AppendAudit(e) => e,
        other => panic!("unexpected first step {:?}", other),
    };
    assert!(matches!(&plan.steps[1], PlanStep::RequireExists(p) if p == &s.path));
    assert!(matches!(&plan.steps[3], PlanStep::MovePath(a, b)
        if a == &s.path && b == "/tmp/t/trash/abc123hash/test-session.json"));

    let history = vec![AuditEntry {
        batch_id: entry.batch_id,
        timestamp: entry.timestamp,
        op_type: entry.op_type,
        session_id: entry.session_id.clone(),
        original_path: entry.original_path.clone(),
        target_path: entry.target_path.clone(),
    }];
    let restore = executor.restore(&history, "test-session.json", false, 6).unwrap();
    assert!(matches!(&restore.steps[3], PlanStep::MovePath(a, b)
        if a == "/tmp/t/trash/abc123hash/test-session.json" && b == &s.path));
}

#[test]
fn prune_threshold_outside_the_calendar_gives_none() {
    let s = Arc::new(session("a.json", "p", 0, 1, SessionHealth::Healthy));
    let list = [s];
    let now = Timestamp { secs: 100 * 86400, nanos: 0 };
    assert_eq!(find_sessions_to_prune_checked_at(&list, 10, now).unwrap().len(), 1);
    assert_eq!(find_sessions_to_prune_checked_at(&list, 200, now).unwrap().len(), 0);
    assert!(find_sessions_to_prune_checked_at(&list, 106_751_991_167, now).is_none());
    let late = Timestamp { secs: 8_210_266_876_799, nanos: 0 };
    assert!(find_sessions_to_prune_checked_at(&list, u64::MAX, late).is_none());
}

#[test]
fn role_labels() {
    assert_eq!(role_label("user"), "USER");
    assert_eq!(role_label("assistant"), "GEMINI");
    assert_eq!(role_label("tool"), "TOOL");
}
