use berry_editor::blame::{decimal, format_relative_time, format_timestamp, BlameLineInfo};
use berry_editor::command_palette::{
    filter_palette_items, fuzzy_match, fuzzy_match_score, ActionType, PaletteItem,
};
use berry_editor::minimap::get_line_color;
use berry_editor::refactoring::RefactorOperation;
use berry_editor::settings::EditorSettings;
use std::time::{SystemTime, UNIX_EPOCH};

#[test]
fn fuzzy_match_substrings() {
    assert!(fuzzy_match("hello_world", "hello"));
    assert!(fuzzy_match("hello_world", "WORLD"));
    assert!(!fuzzy_match("hello_world", "hw"));
    assert!(!fuzzy_match("hello_world", "xyz"));
}

#[test]
fn test_fuzzy_match_score() {
    assert!(fuzzy_match_score("hello", "hello") > fuzzy_match_score("hello", "hel"));
    assert!(fuzzy_match_score("hello_world", "hello") > fuzzy_match_score("hello_world", "world"));
}

#[test]
fn fuzzy_scores_exact_values() {
    assert_eq!(fuzzy_match_score("Hello", "hello"), 1000);
    assert_eq!(fuzzy_match_score("hello", "hel"), 900);
    assert_eq!(fuzzy_match_score("hello_world", "world"), 500);
    assert_eq!(fuzzy_match_score("hello_world", "hw"), 100);
    assert_eq!(fuzzy_match_score("hello_world", "xyz"), 0);
}

fn palette_item(label: &str, description: Option<&str>) -> PaletteItem {
    PaletteItem {
        id: label.to_string(),
        label: label.to_string(),
        description: description.map(|d| d.to_string()),
        action_type: ActionType::EditorAction,
        icon: String::new(),
        action: label.to_string(),
    }
}

#[test]
fn test_palette_item_creation() {
    let item = PaletteItem {
        id: "test".to_string(),
        label: "Test Item".to_string(),
        description: None,
        action_type: ActionType::File,
        icon: "📄".to_string(),
        action: "test:action".to_string(),
    };
    assert_eq!(item.id, "test");
    assert_eq!(item.action_type, ActionType::File);
}

#[test]
fn palette_filtering() {
    let items = vec![
        palette_item("Git: Commit", Some("Create a new commit")),
        palette_item("File: Save", Some("Save current file")),
        palette_item("Settings", None),
    ];
    let found = filter_palette_items(items.clone(), "current");
    assert_eq!(found.len(), 1);
    assert_eq!(found[0].label, "File: Save");
    assert_eq!(filter_palette_items(items.clone(), "").len(), 3);
    assert_eq!(filter_palette_items(items, "git").len(), 1);
}

#[test]
fn minimap_colors() {
    assert_eq!(get_line_color("   // note"), "#6a9955");
    assert_eq!(get_line_color(" * doc"), "#6a9955");
    assert_eq!(get_line_color("let s = \"x\";"), "#ce9178");
    assert_eq!(get_line_color("    pub fn f() {}"), "#569cd6");
    assert_eq!(get_line_color("let x = 1;"), "#d4d4d4");
    assert_eq!(get_line_color(""), "#d4d4d4");
}

#[test]
fn refactor_labels_and_shortcuts() {
    assert_eq!(RefactorOperation::Rename.label(), "Rename");
    assert_eq!(RefactorOperation::Rename.shortcut(), "F2");
    assert_eq!(RefactorOperation::ExtractMethod.label(), "Extract Method");
    assert_eq!(RefactorOperation::ExtractMethod.shortcut(), "Ctrl+Alt+M");
    assert_eq!(RefactorOperation::ChangeSignature.shortcut(), "Ctrl+F6");
    assert_eq!(RefactorOperation::MoveSymbol.shortcut(), "F6");
}

#[test]
fn default_settings() {
    let s = EditorSettings::default();
    assert_eq!(s.font_size, 13);
    assert_eq!(s.font_family, "JetBrains Mono");
    assert_eq!(s.line_height, 20);
    assert_eq!(s.tab_size, 4);
    assert!(s.insert_spaces);
    assert!(!s.word_wrap);
    assert_eq!(s.color_theme, "RustRover Darcula");
    assert_eq!(s.icon_theme, "Codicons");
    assert_eq!(s.ai_model, "Llama 4 Scout");
    assert_eq!(s.ai_mode, "code");
    assert!(s.ai_enabled);
    assert_eq!(EditorSettings::available_fonts()[0], "JetBrains Mono");
    assert_eq!(EditorSettings::available_themes().len(), 6);
    assert_eq!(EditorSettings::available_modes(), vec!["code", "architect", "help", "ask"]);
}

#[test]
fn test_blame_line_info() {
    let info = BlameLineInfo {
        line_number: 10,
        commit_id: "abc123def456".to_string(),
        author: "Test User".to_string(),
        timestamp: 1234567890,
        content: "let x = 42;".to_string(),
    };
    assert_eq!(info.line_number, 10);
    assert_eq!(info.author, "Test User");
}

#[test]
fn test_format_relative_time() {
    let now = SystemTime::now().duration_since(UNIX_EPOCH).unwrap().as_secs() as i64;
    let recent = now - 30;
    assert_eq!(format_relative_time(recent, now), "just now");
    let minutes_ago = now - 300;
    assert_eq!(format_relative_time(minutes_ago, now), "5 minutes ago");
}

#[test]
fn relative_time_units() {
    assert_eq!(format_relative_time(0, 7200), "2 hours ago");
    assert_eq!(format_relative_time(0, 3 * 86400), "3 days ago");
    assert_eq!(format_relative_time(0, 2592000 * 2), "2 months ago");
    assert_eq!(format_relative_time(0, 31536000 * 10), "10 years ago");
    assert_eq!(format_relative_time(100, 0), "just now");
}

#[test]
fn test_format_timestamp() {
    let timestamp = 1234567890;
    let formatted = format_timestamp(timestamp);
    assert!(formatted.contains("2009"));
    assert_eq!(formatted, "2009-02-13 23:31:30 UTC");
}

#[test]
fn decimal_text() {
    assert_eq!(decimal(0), "0");
    assert_eq!(decimal(7), "7");
    assert_eq!(decimal(1234567890), "1234567890");
    assert_eq!(decimal(u64::MAX), "18446744073709551615");
}
