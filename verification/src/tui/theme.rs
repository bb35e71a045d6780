use vstd::prelude::*;
use crate::utils::text::{to_lowercase, lowercase, str_eq, is_ascii_text, ascii_lowered, lemma_ascii_lowered_unique};

verus! {

/// A terminal color, with the variants of `ratatui::style::Color`.
#[derive(Clone, Copy, Debug, PartialEq, Eq, Structural)]
pub enum Color {
    Reset,
    Black,
    Red,
    Green,
    Yellow,
    Blue,
    Magenta,
    Cyan,
    Gray,
    DarkGray,
    LightRed,
    LightGreen,
    LightYellow,
    LightBlue,
    LightMagenta,
    LightCyan,
    White,
    Rgb(u8, u8, u8),
    Indexed(u8),
}

/// The colors of the interface.
#[derive(Clone, Copy, Debug, PartialEq, Eq, Structural)]
pub struct Theme {
    pub border: Color,
    pub title: Color,
    pub selection_bg: Color,
    pub selection_fg: Color,
    pub folder: Color,
    pub user_msg: Color,
    pub gemini_msg: Color,
    pub key_hint: Color,
    pub key_desc: Color,
}

/// The Tokyo Night palette.
pub open spec fn spec_tokyonight() -> Theme {
    Theme {
        border: Color::Rgb(65, 72, 104),
        title: Color::Rgb(122, 162, 247),
        selection_bg: Color::Rgb(47, 51, 73),
        selection_fg: Color::Rgb(255, 158, 100),
        folder: Color::Rgb(187, 154, 247),
        user_msg: Color::Rgb(122, 162, 247),
        gemini_msg: Color::Rgb(158, 206, 106),
        key_hint: Color::Rgb(187, 154, 247),
        key_desc: Color::Rgb(86, 95, 137),
    }
}

/// The Gruvbox palette.
pub open spec fn spec_gruvbox() -> Theme {
    Theme {
        border: Color::Rgb(102, 92, 84),
        title: Color::Rgb(250, 189, 47),
        selection_bg: Color::Rgb(60, 56, 54),
        selection_fg: Color::Rgb(251, 73, 52),
        folder: Color::Rgb(131, 165, 152),
        user_msg: Color::Rgb(131, 165, 152),
        gemini_msg: Color::Rgb(184, 187, 38),
        key_hint: Color::Rgb(211, 134, 155),
        key_desc: Color::Rgb(146, 131, 116),
    }
}

/// The One Dark palette.
pub open spec fn spec_onedark() -> Theme {
    Theme {
        border: Color::Rgb(75, 82, 99),
        title: Color::Rgb(97, 175, 239),
        selection_bg: Color::Rgb(44, 50, 60),
        selection_fg: Color::Rgb(224, 108, 117),
        folder: Color::Rgb(198, 120, 221),
        user_msg: Color::Rgb(97, 175, 239),
        gemini_msg: Color::Rgb(152, 195, 121),
        key_hint: Color::Rgb(198, 120, 221),
        key_desc: Color::Rgb(92, 99, 112),
    }
}

/// The Catppuccin palette.
pub open spec fn spec_catppuccin() -> Theme {
    Theme {
        border: Color::Rgb(88, 91, 112),
        title: Color::Rgb(137, 180, 250),
        selection_bg: Color::Rgb(49, 50, 68),
        selection_fg: Color::Rgb(243, 139, 168),
        folder: Color::Rgb(203, 166, 247),
        user_msg: Color::Rgb(137, 180, 250),
        gemini_msg: Color::Rgb(166, 227, 161),
        key_hint: Color::Rgb(245, 194, 231),
        key_desc: Color::Rgb(108, 112, 134),
    }
}

/// The plain dark palette.
pub open spec fn spec_default_dark() -> Theme {
    Theme {
        border: Color::Gray,
        title: Color::Cyan,
        selection_bg: Color::DarkGray,
        selection_fg: Color::Yellow,
        folder: Color::Cyan,
        user_msg: Color::Blue,
        gemini_msg: Color::Green,
        key_hint: Color::Magenta,
        key_desc: Color::DarkGray,
    }
}

impl Theme {
    /// The Tokyo Night palette.
    pub fn tokyonight() -> (r: Theme)
        ensures
            r == spec_tokyonight(),
    {
        Theme {
            border: Color::Rgb(65, 72, 104),
            title: Color::Rgb(122, 162, 247),
            selection_bg: Color::Rgb(47, 51, 73),
            selection_fg: Color::Rgb(255, 158, 100),
            folder: Color::Rgb(187, 154, 247),
            user_msg: Color::Rgb(122, 162, 247),
            gemini_msg: Color::Rgb(158, 206, 106),
            key_hint: Color::Rgb(187, 154, 247),
            key_desc: Color::Rgb(86, 95, 137),
        }
    }

    /// The Gruvbox palette.
    pub fn gruvbox() -> (r: Theme)
        ensures
            r == spec_gruvbox(),
    {
        Theme {
            border: Color::Rgb(102, 92, 84),
            title: Color::Rgb(250, 189, 47),
            selection_bg: Color::Rgb(60, 56, 54),
            selection_fg: Color::Rgb(251, 73, 52),
            folder: Color::Rgb(131, 165, 152),
            user_msg: Color::Rgb(131, 165, 152),
            gemini_msg: Color::Rgb(184, 187, 38),
            key_hint: Color::Rgb(211, 134, 155),
            key_desc: Color::Rgb(146, 131, 116),
        }
    }

    /// The One Dark palette.
    pub fn onedark() -> (r: Theme)
        ensures
            r == spec_onedark(),
    {
        Theme {
            border: Color::Rgb(75, 82, 99),
            title: Color::Rgb(97, 175, 239),
            selection_bg: Color::Rgb(44, 50, 60),
            selection_fg: Color::Rgb(224, 108, 117),
            folder: Color::Rgb(198, 120, 221),
            user_msg: Color::Rgb(97, 175, 239),
            gemini_msg: Color::Rgb(152, 195, 121),
            key_hint: Color::Rgb(198, 120, 221),
            key_desc: Color::Rgb(92, 99, 112),
        }
    }

    /// The Catppuccin palette.
    pub fn catppuccin() -> (r: Theme)
        ensures
            r == spec_catppuccin(),
    {
        Theme {
            border: Color::Rgb(88, 91, 112),
            title: Color::Rgb(137, 180, 250),
            selection_bg: Color::Rgb(49, 50, 68),
            selection_fg: Color::Rgb(243, 139, 168),
            folder: Color::Rgb(203, 166, 247),
            user_msg: Color::Rgb(137, 180, 250),
            gemini_msg: Color::Rgb(166, 227, 161),
            key_hint: Color::Rgb(245, 194, 231),
            key_desc: Color::Rgb(108, 112, 134),
        }
    }

    /// The plain dark palette.
    pub fn default_dark() -> (r: Theme)
        ensures
            r == spec_default_dark(),
    {
        Theme {
            border: Color::Gray,
            title: Color::Cyan,
            selection_bg: Color::DarkGray,
            selection_fg: Color::Yellow,
            folder: Color::Cyan,
            user_msg: Color::Blue,
            gemini_msg: Color::Green,
            key_hint: Color::Magenta,
            key_desc: Color::DarkGray,
        }
    }
}

/// The theme setting: a preset by name, or explicit colors.
#[derive(Clone, Debug, PartialEq)]
pub enum ThemeConfig {
    Preset(String),
    Custom(Theme),
}

impl Default for ThemeConfig {
    fn default() -> (r: ThemeConfig)
        ensures
            r matches ThemeConfig::Preset(n) && n@ == "Default"@,
    {
        ThemeConfig::Preset(String::from_str("Default"))
    }
}

/// The theme of a preset name: matched without regard to case, an unknown name
/// giving the plain dark palette.
pub open spec fn spec_preset_theme(name: Seq<char>) -> Theme {
    let n = lowercase(name);
    if n == "tokyonight"@ {
        spec_tokyonight()
    } else if n == "gruvbox"@ {
        spec_gruvbox()
    } else if n == "onedark"@ {
        spec_onedark()
    } else if n == "catppuccin"@ {
        spec_catppuccin()
    } else {
        spec_default_dark()
    }
}

/// The theme a setting selects.
pub open spec fn spec_get_theme(cfg: ThemeConfig) -> Theme {
    match cfg {
        ThemeConfig::Custom(t) => t,
        ThemeConfig::Preset(name) => spec_preset_theme(name@),
    }
}

impl ThemeConfig {
    /// The theme this setting selects.
    pub fn get_theme(&self) -> (r: Theme)
        ensures
            r == spec_get_theme(*self),
            self matches ThemeConfig::Preset(n) ==> (is_ascii_text(n@) ==> r == if ascii_lowered(n@, "tokyonight"@) {
                spec_tokyonight()
            } else if ascii_lowered(n@, "gruvbox"@) {
                spec_gruvbox()
            } else if ascii_lowered(n@, "onedark"@) {
                spec_onedark()
            } else if ascii_lowered(n@, "catppuccin"@) {
                spec_catppuccin()
            } else {
                spec_default_dark()
            }),
    {
        match self {
            ThemeConfig::Custom(t) => *t,
            ThemeConfig::Preset(name) => {
                let n = to_lowercase(name.as_str());
                proof {
                    if is_ascii_text(name@) {
                        if ascii_lowered(name@, "tokyonight"@) {
                            lemma_ascii_lowered_unique(name@, n@, "tokyonight"@);
                        }
                        if ascii_lowered(name@, "gruvbox"@) {
                            lemma_ascii_lowered_unique(name@, n@, "gruvbox"@);
                        }
                        if ascii_lowered(name@, "onedark"@) {
                            lemma_ascii_lowered_unique(name@, n@, "onedark"@);
                        }
                        if ascii_lowered(name@, "catppuccin"@) {
                            lemma_ascii_lowered_unique(name@, n@, "catppuccin"@);
                        }
                    }
                }
                if str_eq(n.as_str(), "tokyonight") {
                    Theme::tokyonight()
                } else if str_eq(n.as_str(), "gruvbox") {
                    Theme::gruvbox()
                } else if str_eq(n.as_str(), "onedark") {
                    Theme::onedark()
                } else if str_eq(n.as_str(), "catppuccin") {
                    Theme::catppuccin()
                } else {
                    Theme::default_dark()
                }
            },
        }
    }
}

} // verus!
