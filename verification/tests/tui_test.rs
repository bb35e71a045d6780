use castor::config::{Config, PreviewConfig};
use castor::model::cache::MetadataCache;
use castor::model::registry::Registry;
use castor::model::session::{Session, SessionHealth};
use castor::ops::executor::{Executor, PlanStep};
use castor::tui::app::{App, GroupingMode, InputMode, Selection};
use castor::tui::app::FoldOp;
use castor::tui::event::{
    deep_preview_allowed, deep_preview_refused, deep_preview_text, finish_delete, handle_key_event, preview_due, Key,
    KeyAction,
};
use castor::tui::theme::{Color, Theme, ThemeConfig};
use castor::tui::ui::{health_mark, keys_bar, line_role, placeholder_text, preview_text, status_lines, tree_line_budget, tree_lines, tree_title, LineRole};
use castor::utils::icons::{IconSet, Icons};
use castor::utils::time::{is_time_ok, Timestamp};
use std::sync::Arc;

fn session(id: &str, project: &str, host: Option<&str>, secs: i64) -> Session {
    Session {
        id: id.to_string(),
        display_id: id.trim_end_matches(".json").to_string(),
        project_id: project.to_string(),
        host_path: host.map(|h| h.to_string()),
        name: None,
        path: format!("/g/{}/chats/{}", project, id),
        created_at: Timestamp { secs, nanos: 0 },
        updated_at: Timestamp { secs, nanos: 0 },
        size: 2048,
        health: SessionHealth::Healthy,
        validation_notes: Vec::new(),
    }
}

fn config() -> Config {
    Config {
        gemini_sessions_path: "/tmp/g".to_string(),
        trash_path: "/tmp/trash".to_string(),
        audit_path: "/tmp/audit".to_string(),
        cache_path: "/tmp/cache".to_string(),
        dry_run_by_default: true,
        icon_set: IconSet::Ascii,
        theme: ThemeConfig::default(),
        preview: PreviewConfig::default(),
    }
}

fn app() -> App {
    let registry = Registry::new("/tmp/g", "/tmp/cache/cache.json", MetadataCache::new());
    App::new(registry, Executor::new(config()), Some("/home/u".to_string()))
}

fn ids(app: &App) -> Vec<String> {
    app.flat_items
        .iter()
        .map(|s| match s {
            Selection::Group(g) => format!("G:{}", g),
            Selection::Session(id) => id.clone(),
        })
        .collect()
}

#[test]
fn test_app_incremental_loading() {
    let mut app = app();
    let s = session("session-2026-03-08T12-00-aaaa1111.json", "proj1", None, 1_772_971_200);
    app.add_sessions(vec![Arc::new(s)]).unwrap();
    assert_eq!(app.flat_items.len(), 2);
    assert!(matches!(app.flat_items[1], Selection::Session(_)));
    assert_eq!(app.list_state.selected(), Some(1));
    assert_eq!(app.last_selected_id, Some("session-2026-03-08T12-00-aaaa1111.json".to_string()));
}

#[test]
fn tree_orders_groups_and_sessions() {
    let mut app = app();
    app.add_sessions(vec![
        Arc::new(session("a1.json", "zeta", None, 100)),
        Arc::new(session("b1.json", "alpha", None, 50)),
    ])
    .unwrap();
    app.add_sessions(vec![
        Arc::new(session("a2.json", "zeta", None, 300)),
        Arc::new(session("c1.json", "p", Some("/home/u/work"), 10)),
    ])
    .unwrap();
    assert_eq!(ids(&app), vec!["G:alpha", "b1.json", "G:zeta", "a2.json", "a1.json", "G:~/work", "c1.json"]);
    assert_eq!(app.registry.sessions.len(), 4);
    assert_eq!(app.get_selected_session().map(|s| s.id.clone()), Some("b1.json".to_string()));
}

#[test]
fn month_grouping_newest_first() {
    let mut app = app();
    app.add_sessions(vec![
        Arc::new(session("jan.json", "p", None, 1_767_268_800)),
        Arc::new(session("mar.json", "p", None, 1_772_971_200)),
        Arc::new(session("jan2.json", "q", None, 1_767_355_200)),
    ])
    .unwrap();
    app.toggle_grouping().unwrap();
    assert_eq!(app.grouping_mode, GroupingMode::Month);
    assert_eq!(ids(&app), vec!["G:2026-03", "mar.json", "G:2026-01", "jan2.json", "jan.json"]);
    app.toggle_grouping().unwrap();
    assert_eq!(app.grouping_mode, GroupingMode::Host);
    assert_eq!(ids(&app), vec!["G:p", "mar.json", "jan.json", "G:q", "jan2.json"]);
}

#[test]
fn navigation_skips_headings_and_wraps() {
    let mut app = app();
    app.add_sessions(vec![
        Arc::new(session("a.json", "p1", None, 2)),
        Arc::new(session("b.json", "p2", None, 1)),
    ])
    .unwrap();
    assert_eq!(app.list_state.selected(), Some(1));
    app.next();
    assert_eq!(app.list_state.selected(), Some(3));
    assert_eq!(app.last_selected_id, Some("b.json".to_string()));
    assert_eq!(app.current_preview, None);
    app.next();
    assert_eq!(app.list_state.selected(), Some(1));
    app.previous();
    assert_eq!(app.list_state.selected(), Some(3));
}

#[test]
fn preview_kept_while_selection_stays() {
    let mut app = app();
    app.add_sessions(vec![Arc::new(session("a.json", "p1", None, 2))]).unwrap();
    app.current_preview = Some("text".to_string());
    app.next();
    assert_eq!(app.list_state.selected(), Some(1));
    assert_eq!(app.current_preview, Some("text".to_string()));
}

#[test]
fn keys_drive_the_interface() {
    let mut app = app();
    app.add_sessions(vec![
        Arc::new(session("a.json", "p1", None, 2)),
        Arc::new(session("b.json", "p2", None, 1)),
    ])
    .unwrap();
    assert!(matches!(handle_key_event(&mut app, Key::Char('j'), 0), Ok(KeyAction::Nothing)));
    assert_eq!(app.list_state.selected(), Some(3));
    assert!(matches!(handle_key_event(&mut app, Key::Up, 0), Ok(KeyAction::Nothing)));
    assert_eq!(app.list_state.selected(), Some(1));
    handle_key_event(&mut app, Key::Char('d'), 0).unwrap();
    assert_eq!(app.input_mode, InputMode::ConfirmDelete);
    handle_key_event(&mut app, Key::Esc, 0).unwrap();
    assert_eq!(app.input_mode, InputMode::Normal);
    handle_key_event(&mut app, Key::Char('d'), 0).unwrap();
    match handle_key_event(&mut app, Key::Char('y'), 77) {
        Ok(KeyAction::RunDelete { plan, session_id }) => {
            assert_eq!(session_id, "a.json");
            assert_eq!(plan.batch_id, 77);
            assert!(matches!(&plan.steps[3], PlanStep::MovePath(a, b) if a == "/g/p1/chats/a.json" && b == "/tmp/trash/p1/a.json"));
        }
        _ => panic!("expected a delete"),
    }
    assert_eq!(app.input_mode, InputMode::ConfirmDelete);
    finish_delete(&mut app, "a.json");
    assert_eq!(app.input_mode, InputMode::Normal);
    assert_eq!(app.message, Some("Deleted session a.json".to_string()));
    assert!(app.flat_items.is_empty());
    assert!(app.registry.sessions.is_empty());
    assert!(matches!(handle_key_event(&mut app, Key::Char('r'), 0), Ok(KeyAction::Reload)));
    assert_eq!(app.message, Some("Reloading...".to_string()));
    handle_key_event(&mut app, Key::Char('q'), 0).unwrap();
    assert!(app.should_quit);
}

#[test]
fn reload_then_scan_rebuilds_the_tree() {
    let mut app = app();
    app.add_sessions(vec![
        Arc::new(session("a.json", "p1", None, 2)),
        Arc::new(session("b.json", "p2", None, 1)),
    ])
    .unwrap();
    assert!(matches!(handle_key_event(&mut app, Key::Char('r'), 0), Ok(KeyAction::Reload)));
    assert!(app.flat_items.is_empty());
    app.add_sessions(vec![Arc::new(session("c.json", "p3", None, 5))]).unwrap();
    assert_eq!(ids(&app), vec!["G:p3", "c.json"]);
    assert_eq!(app.registry.sessions.len(), 1);
}

#[test]
fn fold_keys_hide_and_show_a_group() {
    let mut app = app();
    app.add_sessions(vec![
        Arc::new(session("a.json", "p1", None, 2)),
        Arc::new(session("a2.json", "p1", None, 1)),
        Arc::new(session("b.json", "p2", None, 1)),
    ])
    .unwrap();
    assert_eq!(ids(&app), vec!["G:p1", "a.json", "a2.json", "G:p2", "b.json"]);
    app.list_state.select(Some(2));
    handle_key_event(&mut app, Key::Char('h'), 0).unwrap();
    assert_eq!(ids(&app), vec!["G:p1", "G:p2", "b.json"]);
    assert_eq!(app.list_state.selected(), Some(0));
    assert!(app.is_group_collapsed("p1"));
    assert!(!app.is_group_collapsed("p2"));
    let theme = Theme::default_dark();
    let icons = Icons::get(IconSet::Ascii);
    assert_eq!(tree_lines(&app, &icons, 20, &theme)[0][0].text, "▸ p1 (2)");
    handle_key_event(&mut app, Key::Left, 0).unwrap();
    assert_eq!(ids(&app), vec!["G:p1", "G:p2", "b.json"]);
    handle_key_event(&mut app, Key::Right, 0).unwrap();
    assert_eq!(ids(&app), vec!["G:p1", "a.json", "a2.json", "G:p2", "b.json"]);
    assert!(!app.is_group_collapsed("p1"));
    handle_key_event(&mut app, Key::Char(' '), 0).unwrap();
    assert_eq!(ids(&app), vec!["G:p1", "G:p2", "b.json"]);
    handle_key_event(&mut app, Key::Enter, 0).unwrap();
    assert_eq!(ids(&app), vec!["G:p1", "a.json", "a2.json", "G:p2", "b.json"]);
    handle_key_event(&mut app, Key::Char('l'), 0).unwrap();
    assert_eq!(ids(&app), vec!["G:p1", "a.json", "a2.json", "G:p2", "b.json"]);
    app.list_state.select(Some(4));
    app.set_fold(FoldOp::Fold);
    assert_eq!(ids(&app), vec!["G:p1", "a.json", "a2.json", "G:p2"]);
    assert_eq!(app.list_state.selected(), Some(3));
    assert_eq!(app.last_selected_id, None);
}

#[test]
fn test_render_tree_with_collapsed_group() {
    let mut app = app();
    app.add_sessions(vec![Arc::new(session("a.json", "p1", None, 2))]).unwrap();
    app.list_state.select(Some(0));
    app.toggle_selected_group();
    let theme = Theme::default_dark();
    let icons = Icons::get(IconSet::Ascii);
    let lines = tree_lines(&app, &icons, 20, &theme);
    assert_eq!(lines.len(), 1);
    assert_eq!(lines[0][0].text, "▸ p1 (1)");
}

#[test]
fn preview_and_open_keys_name_the_selected_session() {
    let mut app = app();
    app.add_sessions(vec![Arc::new(session("a.json", "p1", None, 2))]).unwrap();
    match handle_key_event(&mut app, Key::Char('p'), 0) {
        Ok(KeyAction::DeepPreview { session_id }) => assert_eq!(session_id, "a.json"),
        _ => panic!("expected a deep preview"),
    }
    match handle_key_event(&mut app, Key::Enter, 0) {
        Ok(KeyAction::Open { session_id }) => assert_eq!(session_id, "a.json"),
        _ => panic!("expected an open"),
    }
    app.list_state.select(Some(0));
    assert!(matches!(handle_key_event(&mut app, Key::Char('p'), 0), Ok(KeyAction::Nothing)));
    assert!(preview_due(false, 101));
    assert!(!preview_due(false, 100));
    assert!(!preview_due(true, 500));
    let prefs = app.executor.config.preview;
    assert!(deep_preview_allowed(64 * 1024 * 1024, &prefs));
    assert!(!deep_preview_allowed(64 * 1024 * 1024 + 1, &prefs));
    let mut small = prefs;
    small.deep_preview_char_budget = 4;
    assert_eq!(deep_preview_text("abcdef", &small), "abc…");
    assert_eq!(deep_preview_text("abc", &small), "abc");
    assert_eq!(deep_preview_refused(), "Session too large for deep preview");
}

#[test]
fn down_then_up_returns_to_the_session() {
    let mut app = app();
    app.add_sessions(vec![
        Arc::new(session("a.json", "p1", None, 2)),
        Arc::new(session("a2.json", "p1", None, 1)),
        Arc::new(session("b.json", "p2", None, 1)),
    ])
    .unwrap();
    for start in [1usize, 2, 4] {
        app.list_state.select(Some(start));
        app.next();
        app.previous();
        assert_eq!(app.list_state.selected(), Some(start));
    }
}

#[test]
fn theme_presets_ignore_case() {
    assert_eq!(ThemeConfig::Preset("gruvbox".to_string()).get_theme(), Theme::gruvbox());
    assert_eq!(ThemeConfig::Preset("TokyoNight".to_string()).get_theme(), Theme::tokyonight());
    assert_eq!(ThemeConfig::Preset("OneDark".to_string()).get_theme(), Theme::onedark());
    assert_eq!(ThemeConfig::Preset("CATPPUCCIN".to_string()).get_theme(), Theme::catppuccin());
    assert_eq!(ThemeConfig::Preset("Default".to_string()).get_theme(), Theme::default_dark());
    assert_eq!(ThemeConfig::Custom(Theme::gruvbox()).get_theme(), Theme::gruvbox());
    assert_eq!(ThemeConfig::default(), ThemeConfig::Preset("Default".to_string()));
}

#[test]
fn tree_lines_show_counts_and_marks() {
    let mut app = app();
    app.add_sessions(vec![
        Arc::new(session("abcdef.json", "proj", None, 2)),
        Arc::new(session("x.json", "proj", None, 1)),
    ])
    .unwrap();
    let theme = Theme::default_dark();
    let icons = Icons::get(IconSet::Ascii);
    let lines = tree_lines(&app, &icons, 20, &theme);
    assert_eq!(lines.len(), 3);
    assert_eq!(lines[0][0].text, "▾ proj (2)");
    assert_eq!(lines[0][0].color, Some(Color::Cyan));
    let texts: Vec<&str> = lines[1].iter().map(|p| p.text.as_str()).collect();
    assert_eq!(texts, vec!["  ", "[S] ", "•", " abcdef"]);
    let narrow = tree_lines(&app, &icons, 9, &theme);
    assert_eq!(narrow[0][0].text, "▾ proj (…");
    assert_eq!(narrow[1][3].text, " ab…");
    assert_eq!(tree_line_budget(30), 24);
    assert_eq!(tree_line_budget(3), 0);
    assert_eq!(tree_title(GroupingMode::Month), " Months / Sessions ");
    assert_eq!(health_mark(SessionHealth::Risk, &theme), ("▲", Color::Magenta));
}

#[test]
fn details_and_preview_text() {
    let theme = Theme::default_dark();
    let s = session("a.json", "proj", Some("/home/u/work"), 1_772_971_200);
    let lines = status_lines(&s, Some("/home/u"), "2.00 KB", &theme);
    let pairs: Vec<(String, String)> = lines.iter().map(|l| (l[0].text.clone(), l[1].text.clone())).collect();
    assert_eq!(pairs[0], ("ID:       ".to_string(), "a.json".to_string()));
    assert_eq!(pairs[2], ("Host:     ".to_string(), "~/work".to_string()));
    assert_eq!(pairs[3], ("Updated:  ".to_string(), "2026-03-08 12:00:00".to_string()));
    assert_eq!(pairs[4].1, "2.00 KB");
    assert_eq!(pairs[5].1, "OK");
    assert_eq!(lines[5][1].color, Some(Color::Green));
    assert_eq!(preview_text(&None), "Loading preview...");
    assert_eq!(placeholder_text(&Some("hello".to_string())), "hello");
    assert_eq!(placeholder_text(&None), "Select a session to view details");
    assert_eq!(line_role(&vec!["## ".to_string(), "USER".to_string()]), LineRole::User);
    assert_eq!(line_role(&vec!["## GEMINI".to_string()]), LineRole::Gemini);
    assert_eq!(line_role(&vec!["plain".to_string()]), LineRole::Plain);
}

#[test]
fn keys_bar_per_mode() {
    let theme = Theme::default_dark();
    let normal: Vec<String> = keys_bar(InputMode::Normal, &theme).into_iter().map(|p| p.text).collect();
    assert_eq!(normal[0], "[KEYS] ");
    assert_eq!(&normal[1..4], &["q ".to_string(), "quit ".to_string(), "| ".to_string()]);
    assert_eq!(normal.len(), 1 + 9 * 2 + 8);
    let confirm: Vec<String> = keys_bar(InputMode::ConfirmDelete, &theme).into_iter().map(|p| p.text).collect();
    assert_eq!(confirm[1], "CONFIRM DELETE? ");
    assert_eq!(confirm.len(), 7);
}

#[test]
fn previews_only_for_the_selected_session() {
    let mut app = app();
    app.add_sessions(vec![Arc::new(session("a.json", "p1", None, 2))]).unwrap();
    app.apply_preview("other.json", "x".to_string());
    assert_eq!(app.current_preview, None);
    app.apply_preview("a.json", "## USER\nhi".to_string());
    assert_eq!(app.current_preview, Some("## USER\nhi".to_string()));
}

#[test]
fn upward_move_from_past_the_rows_wraps_to_a_session() {
    let mut app = app();
    app.add_sessions(vec![Arc::new(session("a.json", "p1", None, 2))]).unwrap();
    app.list_state.select(Some(3));
    handle_key_event(&mut app, Key::Char('k'), 0).unwrap();
    assert_eq!(app.list_state.selected(), Some(1));
    app.list_state.select(Some(0));
    app.previous();
    assert_eq!(app.list_state.selected(), Some(1));
    assert!(is_time_ok(Timestamp { secs: 0, nanos: 999_999_999 }));
    assert!(!is_time_ok(Timestamp { secs: 0, nanos: 1_000_000_000 }));
    assert!(!is_time_ok(Timestamp { secs: i64::MAX, nanos: 0 }));
}
