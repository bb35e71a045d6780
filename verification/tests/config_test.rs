use castor::config::{Config, ConfigSource, PreviewConfig, ProjectPaths};
use castor::error::CastorError;
use castor::tui::theme::ThemeConfig;
use castor::utils::icons::IconSet;

#[test]
fn test_config_default() {
    let config = Config::default_with(Some("/home/u"));
    assert!(config.dry_run_by_default);
    assert_eq!(config.icon_set, IconSet::NerdFont);
    assert_eq!(config.theme, ThemeConfig::Preset("TokyoNight".to_string()));
    assert!(config.cache_path.contains("cache"));
    assert_eq!(config.preview.head_bytes, 512 * 1024);
}

#[test]
fn defaults_without_platform_dirs() {
    let c = Config::defaults_for(Some("/home/u"), None);
    assert_eq!(c.gemini_sessions_path, "/home/u/.gemini/tmp");
    assert_eq!(c.trash_path, "/home/u/.local/share/castor/trash");
    assert_eq!(c.audit_path, "/home/u/.local/share/castor/audit");
    assert_eq!(c.cache_path, "/home/u/.cache/castor/metadata.json");
    let d = Config::defaults_for(
        None,
        Some(ProjectPaths { data_dir: "/d".to_string(), cache_dir: "/c".to_string(), config_dir: "/cfg".to_string() }),
    );
    assert_eq!(d.gemini_sessions_path, "/tmp/.gemini/tmp");
    assert_eq!(d.trash_path, "/d/trash");
    assert_eq!(d.cache_path, "/c/metadata.json");
    assert_eq!(d.preview, PreviewConfig::default());
    assert_eq!(d.preview.deep_preview_max_bytes, 64 * 1024 * 1024);
}

#[test]
fn config_file_location() {
    assert_eq!(Config::config_file_for(Some("/home/u"), None), "/home/u/.config/castor/config.json");
    assert_eq!(Config::config_file_for(None, Some("/cfg")), "/cfg/config.json");
}

#[test]
fn config_source_choice() {
    match Config::source(Some("/x/c.json"), true, "/d/config.json", true) {
        Ok(ConfigSource::File(f)) => assert_eq!(f, "/x/c.json"),
        other => panic!("unexpected {:?}", other),
    }
    match Config::source(Some("/x/c.json"), false, "/d/config.json", true) {
        Err(CastorError::Config(m)) => assert_eq!(m, "Config file not found: \"/x/c.json\""),
        other => panic!("unexpected {:?}", other),
    }
    match Config::source(None, false, "/d/config.json", true) {
        Ok(ConfigSource::File(f)) => assert_eq!(f, "/d/config.json"),
        other => panic!("unexpected {:?}", other),
    }
    assert!(matches!(Config::source(None, false, "/d/config.json", false), Ok(ConfigSource::Defaults)));
}
