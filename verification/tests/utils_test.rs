use castor::utils::fs::{format_host, join_path};
use castor::utils::icons::{IconSet, Icons};
use castor::utils::term::{render_cell, project_display, paginate, listing_groups, icon_for_health};
use castor::utils::text::{usize_text, trim, str_lt, contains_str};
use castor::utils::time::Timestamp;
use castor::tui::ui::truncate_with_ellipsis;
use castor::model::session::{Session, SessionHealth};
use std::sync::Arc;

fn session(id: &str, project: &str, host: Option<&str>, secs: i64) -> Session {
    Session {
        id: id.to_string(),
        display_id: id.to_string(),
        project_id: project.to_string(),
        host_path: host.map(|h| h.to_string()),
        name: None,
        path: format!("{}.json", id),
        created_at: Timestamp { secs, nanos: 0 },
        updated_at: Timestamp { secs, nanos: 0 },
        size: 1024,
        health: SessionHealth::Healthy,
        validation_notes: Vec::new(),
    }
}

#[test]
fn test_format_host_short() {
    assert_eq!(format_host("/etc", None), "/etc");
}

#[test]
fn test_format_host_home() {
    let home = "/home/user";
    let path = "/home/user/projects/castor";
    assert_eq!(format_host(path, Some(home)), "~/projects/castor");
}

#[test]
fn test_format_host_long_path() {
    assert_eq!(format_host("/var/log/syslog", None), "/var/log/syslog");
}

#[test]
fn test_format_host_non_home_long() {
    let home = "/home/user";
    assert_eq!(format_host("/usr/local/bin", Some(home)), "/usr/local/bin");
}

#[test]
fn test_truncate_with_ellipsis() {
    assert_eq!(truncate_with_ellipsis("abc", 5), "abc");
    assert_eq!(truncate_with_ellipsis("abcdef", 4), "abc…");
    assert_eq!(truncate_with_ellipsis("abcdef", 1), "…");
    assert_eq!(truncate_with_ellipsis("abcdef", 0), "");
}

#[test]
fn truncate_keeps_exact_fit() {
    assert_eq!(truncate_with_ellipsis("abcd", 4), "abcd");
    assert_eq!(truncate_with_ellipsis("日本語テキスト", 3), "日本…");
}

#[test]
fn test_render_cell_logic() {
    assert_eq!(unicode_width::UnicodeWidthStr::width(render_cell("hello", 10).as_str()), 10);
    let long_cjk = render_cell("这是一个很长的标题项", 10);
    assert_eq!(unicode_width::UnicodeWidthStr::width(long_cjk.as_str()), 10);
}

#[test]
fn render_cell_pads_and_cuts() {
    assert_eq!(render_cell("ab", 4), "ab  ");
    assert_eq!(render_cell("abcdef", 4), "abc…");
    assert_eq!(render_cell("ab", 3), "ab ");
    assert_eq!(render_cell("这", 10), "这        ");
    assert_eq!(unicode_width::UnicodeWidthStr::width(render_cell("这", 10).as_str()), 10);
}

#[test]
fn test_project_display_prefers_host_path() {
    let mut s = session("session-2026-03-08T12-00-abcdef01.json", "gemini-sm", Some("/home/omega/Projects/gemini-sm"), 0);
    s.display_id = "abcdef01".to_string();
    assert_eq!(project_display(&s, Some("/home/omega")), "~/Projects/gemini-sm");
}

#[test]
fn project_display_falls_back_to_project_id() {
    let s = session("a.json", "proj", None, 0);
    assert_eq!(project_display(&s, Some("/home/omega")), "proj");
}

#[test]
fn pagination_covers_rows_in_order() {
    assert_eq!(paginate(5, 0), None);
    assert_eq!(paginate(5, 5), None);
    assert_eq!(paginate(5, 2), Some(vec![(0, 2), (2, 4), (4, 5)]));
    assert_eq!(paginate(6, 3), Some(vec![(0, 3), (3, 6)]));
}

#[test]
fn listing_groups_sorted_by_project() {
    let ss = vec![
        Arc::new(session("a", "zeta", None, 1)),
        Arc::new(session("b", "alpha", None, 2)),
        Arc::new(session("c", "zeta", None, 3)),
        Arc::new(session("d", "p", Some("/home/u/work"), 4)),
    ];
    let g = listing_groups(&ss, Some("/home/u"));
    let keys: Vec<&str> = g.iter().map(|x| x.0.as_str()).collect();
    assert_eq!(keys, vec!["alpha", "zeta", "~/work"]);
    assert_eq!(g[1].1, vec![0, 2]);
    assert_eq!(g[0].1, vec![1]);
    assert_eq!(g[2].1, vec![3]);
}

#[test]
fn icons_per_set() {
    let a = Icons::get(IconSet::Ascii);
    assert_eq!(a.folder, "[P]");
    assert_eq!(a.chat, "[S]");
    assert_eq!(icon_for_health(&a, &SessionHealth::Healthy), "OK");
    assert_eq!(icon_for_health(&a, &SessionHealth::Unknown), "??");
    let u = Icons::get(IconSet::Unicode);
    assert_eq!(u.folder, "📁");
    assert_eq!(u.ok, "✓");
    let d = Icons::get(IconSet::default());
    assert_eq!(d.folder, "󰉋");
}

#[test]
fn join_path_follows_pathbuf_push() {
    assert_eq!(join_path("/a/b", "c"), "/a/b/c");
    assert_eq!(join_path("/a/b/", "c"), "/a/b/c");
    assert_eq!(join_path("/a/b", "/abs"), "/abs");
    assert_eq!(join_path("", "c"), "c");
}

#[test]
fn text_helpers() {
    assert_eq!(usize_text(0), "0");
    assert_eq!(usize_text(1234), "1234");
    assert_eq!(trim("  /home/user/proj1\n"), "/home/user/proj1");
    assert!(str_lt("abc", "abd"));
    assert!(str_lt("ab", "abc"));
    assert!(!str_lt("b", "abc"));
    assert!(contains_str("Rust performance", "perf"));
    assert!(!contains_str("Rust", "Python"));
}
