use vstd::prelude::*;
use crate::tui::theme::ThemeConfig;
use crate::utils::fs::{join_path, spec_join_path};
use crate::utils::icons::IconSet;
use crate::error::CastorError;
use crate::ops::executor::{debug_path, path_debug};

verus! {

/// Limits of the conversation preview.
#[derive(Clone, Copy, Debug, PartialEq, Eq, Structural)]
pub struct PreviewConfig {
    pub head_bytes: u64,
    pub tail_bytes: u64,
    pub small_full_parse_bytes: u64,
    pub deep_preview_max_bytes: u64,
    pub deep_preview_char_budget: usize,
}

/// The default preview limits: 512 KiB head, 2 MiB tail, full parse up to 2 MiB,
/// deep preview up to 64 MiB and 120000 characters.
pub open spec fn spec_default_preview() -> PreviewConfig {
    PreviewConfig {
        head_bytes: 524288,
        tail_bytes: 2097152,
        small_full_parse_bytes: 2097152,
        deep_preview_max_bytes: 67108864,
        deep_preview_char_budget: 120000,
    }
}

impl Default for PreviewConfig {
    fn default() -> (r: PreviewConfig)
        ensures
            r == spec_default_preview(),
    {
        PreviewConfig {
            head_bytes: 512 * 1024,
            tail_bytes: 2 * 1024 * 1024,
            small_full_parse_bytes: 2 * 1024 * 1024,
            deep_preview_max_bytes: 64 * 1024 * 1024,
            deep_preview_char_budget: 120_000,
        }
    }
}

/// The platform directories of the application, as `directories::ProjectDirs`
/// reports them.
pub struct ProjectPaths {
    pub data_dir: String,
    pub cache_dir: String,
    pub config_dir: String,
}

/// The platform directories for qualifier `com`, organization `omega`,
/// application `castor`, from `directories::ProjectDirs::from`. They depend on
/// the environment, so nothing is promised of them; `None` where no home
/// directory is known.
#[verifier::external_body]
pub(crate) fn project_dirs() -> Option<ProjectPaths> {
    match directories::ProjectDirs::from("com", "omega", "castor") {
        Some(p) => Some(ProjectPaths {
            data_dir: p.data_dir().to_string_lossy().into_owned(),
            cache_dir: p.cache_dir().to_string_lossy().into_owned(),
            config_dir: p.config_dir().to_string_lossy().into_owned(),
        }),
        None => None,
    }
}

/// The settings of Castor.
#[derive(Clone, Debug)]
pub struct Config {
    pub gemini_sessions_path: String,
    pub trash_path: String,
    pub audit_path: String,
    pub cache_path: String,
    pub dry_run_by_default: bool,
    pub icon_set: IconSet,
    pub theme: ThemeConfig,
    pub preview: PreviewConfig,
}

/// The home directory used for defaults: the given one, or `/tmp`.
pub open spec fn spec_home_or_tmp(home: Option<Seq<char>>) -> Seq<char> {
    match home {
        Some(h) => h,
        None => "/tmp"@,
    }
}

/// The default paths (sessions, trash, audit, cache) for a home directory and the
/// platform directories, if known.
pub open spec fn spec_default_paths(home: Option<Seq<char>>, dirs: Option<(Seq<char>, Seq<char>)>) -> (
    Seq<char>,
    Seq<char>,
    Seq<char>,
    Seq<char>,
) {
    let h = spec_home_or_tmp(home);
    let sessions = spec_join_path(spec_join_path(h, ".gemini"@), "tmp"@);
    match dirs {
        Some((data, cache)) => (
            sessions,
            spec_join_path(data, "trash"@),
            spec_join_path(data, "audit"@),
            spec_join_path(cache, "metadata.json"@),
        ),
        None => {
            let base = spec_join_path(spec_join_path(spec_join_path(h, ".local"@), "share"@), "castor"@);
            (
                sessions,
                spec_join_path(base, "trash"@),
                spec_join_path(base, "audit"@),
                spec_join_path(spec_join_path(spec_join_path(h, ".cache"@), "castor"@), "metadata.json"@),
            )
        },
    }
}

/// The data and cache directories of known platform directories.
pub open spec fn data_and_cache(dirs: Option<ProjectPaths>) -> Option<(Seq<char>, Seq<char>)> {
    match dirs {
        Some(d) => Some((d.data_dir@, d.cache_dir@)),
        None => None,
    }
}

/// Where the configuration file is looked for.
pub open spec fn spec_config_file(home: Option<Seq<char>>, dirs: Option<Seq<char>>) -> Seq<char> {
    match dirs {
        Some(c) => spec_join_path(c, "config.json"@),
        None => spec_join_path(spec_join_path(spec_join_path(spec_home_or_tmp(home), ".config"@), "castor"@), "config.json"@),
    }
}

impl Config {
    /// The default settings for the home directory `home` (`None` where it is not
    /// set) and the platform directories `dirs`.
    pub fn defaults_for(home: Option<&str>, dirs: Option<ProjectPaths>) -> (r: Config)
        ensures
            (r.gemini_sessions_path@, r.trash_path@, r.audit_path@, r.cache_path@) == spec_default_paths(
                crate::utils::text::opt_str_view(home),
                data_and_cache(dirs),
            ),
            r.dry_run_by_default,
            r.icon_set == IconSet::NerdFont,
            r.theme matches ThemeConfig::Preset(n) && n@ == "TokyoNight"@,
            r.preview == spec_default_preview(),
    {
        let h: &str = match home {
            Some(h) => h,
            None => "/tmp",
        };
        let sessions = join_path(join_path(h, ".gemini").as_str(), "tmp");
        let (trash_path, audit_path, cache_path) = match &dirs {
            Some(d) => (
                join_path(d.data_dir.as_str(), "trash"),
                join_path(d.data_dir.as_str(), "audit"),
                join_path(d.cache_dir.as_str(), "metadata.json"),
            ),
            None => {
                let base = join_path(join_path(join_path(h, ".local").as_str(), "share").as_str(), "castor");
                (
                    join_path(base.as_str(), "trash"),
                    join_path(base.as_str(), "audit"),
                    join_path(join_path(join_path(h, ".cache").as_str(), "castor").as_str(), "metadata.json"),
                )
            },
        };
        Config {
            gemini_sessions_path: sessions,
            trash_path,
            audit_path,
            cache_path,
            dry_run_by_default: true,
            icon_set: IconSet::default(),
            theme: ThemeConfig::Preset(String::from_str("TokyoNight")),
            preview: PreviewConfig::default(),
        }
    }

    /// The default settings for the home directory `home` (`None` where it is not
    /// set), with this platform's directories.
    pub fn default_with(home: Option<&str>) -> (r: Config)
        ensures
            exists|dirs: Option<(Seq<char>, Seq<char>)>|
                (r.gemini_sessions_path@, r.trash_path@, r.audit_path@, r.cache_path@) == spec_default_paths(
                    crate::utils::text::opt_str_view(home),
                    dirs,
                ),
            r.dry_run_by_default,
            r.icon_set == IconSet::NerdFont,
            r.theme matches ThemeConfig::Preset(n) && n@ == "TokyoNight"@,
            r.preview == spec_default_preview(),
    {
        let dirs = project_dirs();
        let ghost d = data_and_cache(dirs);
        Config::defaults_for(home, dirs)
    }

    /// Where the configuration file is looked for, for the home directory `home`
    /// (`None` where it is not set) and a platform configuration directory.
    pub fn config_file_for(home: Option<&str>, config_dir: Option<&str>) -> (r: String)
        ensures
            r@ == spec_config_file(crate::utils::text::opt_str_view(home), crate::utils::text::opt_str_view(config_dir)),
    {
        match config_dir {
            Some(c) => join_path(c, "config.json"),
            None => {
                let h: &str = match home {
                    Some(h) => h,
                    None => "/tmp",
                };
                join_path(join_path(join_path(h, ".config").as_str(), "castor").as_str(), "config.json")
            },
        }
    }
}

/// Where the settings come from.
#[derive(Debug)]
pub enum ConfigSource {
    /// Read them from this file.
    File(String),
    /// Use the defaults.
    Defaults,
}

impl Config {
    /// Chooses where the settings come from: a given file, which must exist; else
    /// the default file where it exists; else the defaults.
    pub fn source(given: Option<&str>, given_exists: bool, default_file: &str, default_exists: bool) -> (r: Result<
        ConfigSource,
        CastorError,
    >)
        ensures
            match given {
                Some(p) => if given_exists {
                    r matches Ok(ConfigSource::File(f)) && f@ == p@
                } else {
                    r matches Err(CastorError::Config(m)) && m@ == "Config file not found: "@ + path_debug(p@)
                },
                None => if default_exists {
                    r matches Ok(ConfigSource::File(f)) && f@ == default_file@
                } else {
                    r matches Ok(ConfigSource::Defaults)
                },
            },
    {
        match given {
            Some(p) => {
                if given_exists {
                    Ok(ConfigSource::File(p.to_owned()))
                } else {
                    let mut m = String::from_str("Config file not found: ");
                    let d = debug_path(p);
                    m.append(d.as_str());
                    Err(CastorError::Config(m))
                }
            },
            None => {
                if default_exists {
                    Ok(ConfigSource::File(default_file.to_owned()))
                } else {
                    Ok(ConfigSource::Defaults)
                }
            },
        }
    }
}

} // verus!
