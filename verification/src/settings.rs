//! The editor's settings, their defaults, and the choices offered for
//! each.

use vstd::prelude::*;

verus! {

broadcast use vstd::string::group_string_axioms;

/// The key under which the settings are stored.
pub const SETTINGS_STORAGE_KEY: &'static str = "berry-editor-settings";

/// The editor's settings.
#[derive(Debug, Clone, PartialEq, Eq)]
pub struct EditorSettings {
    pub font_size: u32,
    pub font_family: String,
    pub line_height: u32,
    pub tab_size: u32,
    pub insert_spaces: bool,
    pub word_wrap: bool,
    pub color_theme: String,
    pub icon_theme: String,
    pub ai_model: String,
    pub ai_mode: String,
    pub ai_enabled: bool,
}

impl Default for EditorSettings {
    /// 13 px JetBrains Mono on 20 px lines, tabs of 4 spaces, no wrapping,
    /// the RustRover Darcula theme with Codicons, and the AI assistant on,
    /// in code mode with Llama 4 Scout.
    fn default() -> (r: Self)
        ensures
            r.font_size == 13,
            r.font_family@ == "JetBrains Mono"@,
            r.line_height == 20,
            r.tab_size == 4,
            r.insert_spaces,
            !r.word_wrap,
            r.color_theme@ == "RustRover Darcula"@,
            r.icon_theme@ == "Codicons"@,
            r.ai_model@ == "Llama 4 Scout"@,
            r.ai_mode@ == "code"@,
            r.ai_enabled,
    {
        EditorSettings {
            font_size: 13,
            font_family: "JetBrains Mono".to_string(),
            line_height: 20,
            tab_size: 4,
            insert_spaces: true,
            word_wrap: false,
            color_theme: "RustRover Darcula".to_string(),
            icon_theme: "Codicons".to_string(),
            ai_model: "Llama 4 Scout".to_string(),
            ai_mode: "code".to_string(),
            ai_enabled: true,
        }
    }
}

/// The values of a list of strings.
pub open spec fn str_views(v: Seq<&'static str>) -> Seq<Seq<char>> {
    v.map_values(|s: &'static str| s@)
}

impl EditorSettings {
    /// The font families offered.
    pub fn available_fonts() -> (r: Vec<&'static str>)
        ensures
            str_views(r@) == seq![
                "JetBrains Mono"@, "Fira Code"@, "Source Code Pro"@, "Monaco"@, "Consolas"@, "Courier New"@,
            ],
    {
        let r = vec!["JetBrains Mono", "Fira Code", "Source Code Pro", "Monaco", "Consolas", "Courier New"];
        assert(str_views(r@) =~= seq![
            "JetBrains Mono"@, "Fira Code"@, "Source Code Pro"@, "Monaco"@, "Consolas"@, "Courier New"@,
        ]);
        r
    }

    /// The colour themes offered.
    pub fn available_themes() -> (r: Vec<&'static str>)
        ensures
            str_views(r@) == seq![
                "RustRover Darcula"@, "IntelliJ Light"@, "Monokai"@, "Solarized Dark"@, "GitHub Dark"@, "One Dark Pro"@,
            ],
    {
        let r = vec!["RustRover Darcula", "IntelliJ Light", "Monokai", "Solarized Dark", "GitHub Dark", "One Dark Pro"];
        assert(str_views(r@) =~= seq![
            "RustRover Darcula"@, "IntelliJ Light"@, "Monokai"@, "Solarized Dark"@, "GitHub Dark"@, "One Dark Pro"@,
        ]);
        r
    }

    /// The AI modes offered.
    pub fn available_modes() -> (r: Vec<&'static str>)
        ensures
            str_views(r@) == seq!["code"@, "architect"@, "help"@, "ask"@],
    {
        let r = vec!["code", "architect", "help", "ask"];
        assert(str_views(r@) =~= seq!["code"@, "architect"@, "help"@, "ask"@]);
        r
    }
}

} // verus!
