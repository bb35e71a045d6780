use vstd::prelude::*;

verus! {

/// The glyph family the interface draws with.
#[derive(Clone, Copy, Debug, PartialEq, Eq, Structural)]
pub enum IconSet {
    NerdFont,
    Unicode,
    Emoji,
    Ascii,
}

impl Default for IconSet {
    fn default() -> (r: IconSet)
        ensures
            r == IconSet::NerdFont,
    {
        IconSet::NerdFont
    }
}

/// The glyphs of one icon set.
pub struct Icons {
    pub folder: &'static str,
    pub chat: &'static str,
    pub ok: &'static str,
    pub warn: &'static str,
    pub error: &'static str,
    pub risk: &'static str,
    pub unknown: &'static str,
}

/// The glyphs of a set: folder, chat, ok, warn, error, risk, unknown.
pub open spec fn spec_icons(set: IconSet) -> (Seq<char>, Seq<char>, Seq<char>, Seq<char>, Seq<char>, Seq<char>, Seq<char>) {
    match set {
        IconSet::NerdFont => ("󰉋"@, "󰭹"@, "󰄵"@, "󰀦"@, "󰅚"@, "󰳦"@, "󰇊"@),
        IconSet::Unicode => ("📁"@, "●"@, "✓"@, "▲"@, "✖"@, "⚠"@, "○"@),
        IconSet::Emoji => ("📂"@, "💬"@, "✅"@, "⚠️"@, "❌"@, "🛡️"@, "❓"@),
        IconSet::Ascii => ("[P]"@, "[S]"@, "OK"@, "!!"@, "XX"@, "!!"@, "??"@),
    }
}

impl Icons {
    /// The glyphs of the model of an icon set.
    pub open spec fn texts(&self) -> (Seq<char>, Seq<char>, Seq<char>, Seq<char>, Seq<char>, Seq<char>, Seq<char>) {
        (self.folder@, self.chat@, self.ok@, self.warn@, self.error@, self.risk@, self.unknown@)
    }

    /// The glyphs of `set`.
    pub fn get(set: IconSet) -> (r: Icons)
        ensures
            r.texts() == spec_icons(set),
    {
        match set {
            IconSet::NerdFont => Icons {
                folder: "󰉋",
                chat: "󰭹",
                ok: "󰄵",
                warn: "󰀦",
                error: "󰅚",
                risk: "󰳦",
                unknown: "󰇊",
            },
            IconSet::Unicode => Icons {
                folder: "📁",
                chat: "●",
                ok: "✓",
                warn: "▲",
                error: "✖",
                risk: "⚠",
                unknown: "○",
            },
            IconSet::Emoji => Icons {
                folder: "📂",
                chat: "💬",
                ok: "✅",
                warn: "⚠️",
                error: "❌",
                risk: "🛡️",
                unknown: "❓",
            },
            IconSet::Ascii => Icons {
                folder: "[P]",
                chat: "[S]",
                ok: "OK",
                warn: "!!",
                error: "XX",
                risk: "!!",
                unknown: "??",
            },
        }
    }
}

} // verus!
