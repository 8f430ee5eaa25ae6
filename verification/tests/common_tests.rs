use berry_editor::canvas_renderer::{
    COLOR_BACKGROUND, COLOR_FOREGROUND, FONT_FAMILY, FONT_SIZE, LINE_HEIGHT,
};
use berry_editor::common::dialogs::validate_filename;
use berry_editor::common::event_handler::{KeyCombo, MouseButton};
use berry_editor::common::events::{matches_modifier, KeyboardEvent, PointerButton};
use berry_editor::common::keyboard::{KeyBinding, KeyboardShortcuts};
use berry_editor::common::platform::Platform;
use berry_editor::common::storage::storage_file_name;
use berry_editor::common::tauri_bridge::{is_tauri, FileEntry};
use berry_editor::common::validation::{is_valid_file_path, is_valid_identifier, is_valid_position};

fn key_event(key: &str, ctrl: bool, shift: bool, alt: bool, meta: bool) -> KeyboardEvent {
    KeyboardEvent {
        key: key.to_string(),
        code: String::new(),
        shift_key: shift,
        ctrl_key: ctrl,
        alt_key: alt,
        meta_key: meta,
        repeat: false,
    }
}

#[test]
fn test_modifier_matching() {
    assert!(matches_modifier(true, false, false, false, true, false, false, false));
    assert!(!matches_modifier(true, false, false, false, false, false, false, false));
    assert!(matches_modifier(true, true, false, false, true, true, false, false));
}

#[test]
fn test_platform_detection() {
    let platform = Platform::current(false, "linux");
    assert_eq!(platform, Platform::Desktop);
    assert_eq!(Platform::current(true, "linux"), Platform::Web);
    assert_eq!(Platform::current(false, "ios"), Platform::iOS);
    assert_eq!(Platform::current(false, "android"), Platform::Android);
}

#[test]
fn test_platform_checks() {
    let web = Platform::Web;
    assert!(web.is_web());
    assert!(!web.is_mobile());
    assert!(!web.is_desktop());

    let ios = Platform::iOS;
    assert!(ios.is_mobile());
    assert!(!ios.is_web());

    let desktop = Platform::Desktop;
    assert!(desktop.is_desktop());
    assert!(!desktop.is_mobile());
}

#[test]
fn test_platform_name() {
    assert_eq!(Platform::Web.name(), "Web");
    assert_eq!(Platform::Desktop.name(), "Desktop");
    assert_eq!(Platform::iOS.name(), "iOS");
    assert_eq!(Platform::Android.name(), "Android");
}

#[test]
fn platform_of_each_target() {
    assert_eq!(Platform::current(true, "linux"), Platform::Web);
    assert_eq!(Platform::current(false, "ios"), Platform::iOS);
    assert_eq!(Platform::current(false, "android"), Platform::Android);
    assert_eq!(Platform::current(false, "macos"), Platform::Desktop);
    assert!(Platform::Android.is_mobile());
}

#[test]
fn test_is_tauri() {
    let _is_tauri = is_tauri(false);
}

#[test]
fn is_tauri_by_target() {
    assert!(is_tauri(false));
    assert!(!is_tauri(true));
}

#[test]
fn test_file_operations_signature() {
    let _entry = FileEntry {
        name: "main.rs".to_string(),
        path: "/project/main.rs".to_string(),
        is_directory: false,
        children: None,
    };
}

#[test]
fn test_valid_file_path() {
    assert!(is_valid_file_path("/foo/bar.rs"));
    assert!(is_valid_file_path("relative/path.txt"));
    assert!(!is_valid_file_path(""));
    assert!(!is_valid_file_path("path\0with\0null"));
}

#[test]
fn test_valid_identifier() {
    assert!(is_valid_identifier("foo"));
    assert!(is_valid_identifier("_private"));
    assert!(is_valid_identifier("snake_case"));
    assert!(is_valid_identifier("camelCase"));
    assert!(is_valid_identifier("PascalCase"));
    assert!(!is_valid_identifier(""));
    assert!(!is_valid_identifier("123invalid"));
    assert!(!is_valid_identifier("invalid-name"));
    assert!(!is_valid_identifier("invalid name"));
}

#[test]
fn test_valid_position() {
    assert!(is_valid_position(1, 1));
    assert!(is_valid_position(100, 50));
    assert!(!is_valid_position(0, 1));
    assert!(!is_valid_position(1, 0));
    assert!(!is_valid_position(0, 0));
}

#[test]
fn test_color_constants() {
    assert_eq!(COLOR_BACKGROUND, "#1E1E1E");
    assert_eq!(COLOR_FOREGROUND, "#A9B7C6");
}

#[test]
fn test_font_constants() {
    assert_eq!(FONT_FAMILY, "JetBrains Mono");
    assert_eq!(f64::from(FONT_SIZE), 13.0);
    assert_eq!(f64::from(LINE_HEIGHT), 20.0);
}

#[test]
fn test_validate_filename_valid() {
    assert!(validate_filename("test.txt"));
    assert!(validate_filename("myfile.rs"));
    assert!(validate_filename("folder_name"));
    assert!(validate_filename("file-with-dash.md"));
}

#[test]
fn test_validate_filename_invalid() {
    assert!(!validate_filename(""));
    assert!(!validate_filename("   "));
    assert!(!validate_filename("file/path.txt"));
    assert!(!validate_filename("file\\path.txt"));
    assert!(!validate_filename("file:name.txt"));
    assert!(!validate_filename("file*name.txt"));
    assert!(!validate_filename("file?name.txt"));
    assert!(!validate_filename("CON"));
    assert!(!validate_filename("PRN"));
}

#[test]
fn reserved_names_ignore_case() {
    assert!(!validate_filename("con"));
    assert!(!validate_filename("Lpt9"));
    assert!(validate_filename("CON.txt"));
    assert!(!validate_filename("a|b"));
    assert!(!validate_filename("a\"b"));
}

#[test]
fn test_keybinding_new() {
    let binding = KeyBinding::new("w");
    assert_eq!(binding.key, "w");
    assert!(!binding.ctrl);
    assert!(!binding.shift);
    assert!(!binding.alt);
    assert!(!binding.meta);
}

#[test]
fn test_keybinding_with_modifiers() {
    let binding = KeyBinding::new("s").with_ctrl().with_shift();

    assert_eq!(binding.key, "s");
    assert!(binding.ctrl);
    assert!(binding.shift);
    assert!(!binding.alt);
    assert!(!binding.meta);
}

#[test]
fn test_keyboard_shortcuts_register() {
    let mut shortcuts = KeyboardShortcuts::new();
    shortcuts.register("test", KeyBinding::new("t").with_ctrl());
    assert_eq!(shortcuts.count(), 1);
}

#[test]
fn test_keyboard_shortcuts_unregister() {
    let mut shortcuts = KeyboardShortcuts::new();
    shortcuts.register("test", KeyBinding::new("t"));
    shortcuts.unregister("test");
    assert_eq!(shortcuts.count(), 0);
}

#[test]
fn test_keybinding_equality() {
    let binding1 = KeyBinding::new("a").with_ctrl();
    let binding2 = KeyBinding::new("a").with_ctrl();
    let binding3 = KeyBinding::new("b").with_ctrl();

    assert_eq!(binding1, binding2);
    assert_ne!(binding1, binding3);
}

#[test]
fn keybinding_matches_ignoring_case() {
    let binding = KeyBinding::new("S").with_ctrl();
    assert!(binding.matches(&key_event("s", true, false, false, false)));
    assert!(!binding.matches(&key_event("s", true, true, false, false)));
    assert!(!binding.matches(&key_event("d", true, false, false, false)));
}

#[test]
fn platform_modifier_by_platform() {
    let mac = KeyBinding::platform_modifier("p", true);
    assert!(mac.meta && !mac.ctrl);
    let other = KeyBinding::platform_modifier("p", false);
    assert!(other.ctrl && !other.meta);
}

#[test]
fn shortcuts_register_replaces_and_finds_first_match() {
    let mut shortcuts = KeyboardShortcuts::new();
    shortcuts.register("save", KeyBinding::new("s").with_ctrl());
    shortcuts.register("open", KeyBinding::new("o").with_ctrl());
    shortcuts.register("save", KeyBinding::new("s").with_meta());
    assert_eq!(shortcuts.count(), 2);
    assert_eq!(shortcuts.find_match(&key_event("S", false, false, false, true)), Some("save".to_string()));
    assert_eq!(shortcuts.find_match(&key_event("s", true, false, false, false)), None);
    assert_eq!(shortcuts.find_match(&key_event("o", true, false, false, false)), Some("open".to_string()));
    shortcuts.unregister("missing");
    assert_eq!(shortcuts.count(), 2);
}

#[test]
fn test_key_combo_creation() {
    let combo = KeyCombo::new("F2").with_ctrl().with_shift();
    assert_eq!(combo.key, "F2");
    assert!(combo.ctrl);
    assert!(combo.shift);
    assert!(!combo.alt);
    assert!(!combo.meta);
}

#[test]
fn key_combo_matches_exact_key() {
    let combo = KeyCombo::new("F2").with_alt().with_meta();
    assert!(combo.matches(&key_event("F2", false, false, true, true)));
    assert!(!combo.matches(&key_event("f2", false, false, true, true)));
    assert!(!combo.matches(&key_event("F2", false, false, true, false)));
}

#[test]
fn test_mouse_button_variants() {
    assert_eq!(MouseButton::Left as i32, 0);
    assert_eq!(MouseButton::Right as i32, 2);
}

#[test]
fn buttons_from_dom_numbers() {
    assert_eq!(MouseButton::from_button(0), Some(MouseButton::Left));
    assert_eq!(MouseButton::from_button(1), Some(MouseButton::Middle));
    assert_eq!(MouseButton::from_button(2), Some(MouseButton::Right));
    assert_eq!(MouseButton::from_button(3), None);
    assert_eq!(PointerButton::from_button(0), PointerButton::Primary);
    assert_eq!(PointerButton::from_button(1), PointerButton::Auxiliary);
    assert_eq!(PointerButton::from_button(2), PointerButton::Secondary);
    assert_eq!(PointerButton::from_button(-1), PointerButton::NoButton);
}

#[test]
fn storage_file_names_are_safe() {
    assert_eq!(storage_file_name("settings"), "settings.json");
    assert_eq!(storage_file_name("a/b\\c:d*e?f\"g<h>i|j"), "a_b_c_d_e_f_g_h_i_j.json");
    assert_eq!(storage_file_name(""), ".json");
}
