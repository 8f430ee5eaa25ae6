use berry_editor::common::dialogs::{create_dialog_placeholder, create_dialog_title, input_accepted, submit_filename};
use berry_editor::refactoring::refactor_menu::{refactor_params, RefactorContext, RefactorParams};
use berry_editor::refactoring::{Position as RefPosition, Range as RefRange, RefactorOperation};
use berry_editor::command_palette::palette_key;
use berry_editor::components::{debug_toggle_label, panel_icon_color, problems_text, ActivePanel};
use berry_editor::canvas_renderer::Position;
use berry_editor::common::context_menu::MenuItem;
use berry_editor::common::storage::MemoryStore;
use berry_editor::completion_widget::{
    completion_item_class, completion_key, kind_text, widget_offset, CompletionKeyAction,
};

#[test]
fn test_mock_storage_operations() {
    let mut storage = MemoryStore::new();
    storage.set_item("key1", "value1");
    assert_eq!(storage.get_item("key1"), Some("value1".to_string()));
    storage.set_item("key1", "value2");
    assert_eq!(storage.get_item("key1"), Some("value2".to_string()));
    storage.remove_item("key1");
    assert_eq!(storage.get_item("key1"), None);
    storage.set_item("a", "1");
    storage.set_item("b", "2");
    storage.set_item("c", "3");
    assert_eq!(storage.get_item("a"), Some("1".to_string()));
    assert_eq!(storage.get_item("b"), Some("2".to_string()));
    assert_eq!(storage.get_item("c"), Some("3".to_string()));
    storage.clear();
    assert_eq!(storage.get_item("a"), None);
    assert_eq!(storage.get_item("b"), None);
    assert_eq!(storage.get_item("c"), None);
}

#[test]
fn memory_store_set_then_remove_reads_as_before() {
    let mut s = MemoryStore::new();
    s.set_item("x", "1");
    s.set_item("y", "2");
    assert_eq!(s.len(), 2);
    s.remove_item("y");
    assert_eq!(s.get_item("x"), Some("1".to_string()));
    assert_eq!(s.get_item("y"), None);
    assert_eq!(s.len(), 1);
    s.remove_item("missing");
    assert_eq!(s.len(), 1);
}

#[test]
fn menu_items() {
    let item = MenuItem::new("Copy", "copy");
    assert_eq!(item.label, "Copy");
    assert_eq!(item.action, "copy");
    assert!(!item.disabled && !item.separator_after);
    let item = item.with_separator().disabled(true);
    assert!(item.separator_after);
    assert!(item.disabled);
    assert_eq!(item.label, "Copy");
}

#[test]
fn completion_keys_move_choose_and_close() {
    assert_eq!(completion_key("ArrowDown", 0, 3), CompletionKeyAction::Select(1));
    assert_eq!(completion_key("ArrowDown", 2, 3), CompletionKeyAction::Select(2));
    assert_eq!(completion_key("ArrowDown", 0, 0), CompletionKeyAction::Select(0));
    assert_eq!(completion_key("ArrowUp", 0, 3), CompletionKeyAction::Select(0));
    assert_eq!(completion_key("ArrowUp", 2, 3), CompletionKeyAction::Select(1));
    assert_eq!(completion_key("Enter", 1, 3), CompletionKeyAction::Choose(1));
    assert_eq!(completion_key("Tab", 0, 0), CompletionKeyAction::Ignore);
    assert_eq!(completion_key("Escape", 0, 3), CompletionKeyAction::Close);
    assert_eq!(completion_key("a", 0, 3), CompletionKeyAction::Ignore);
}

#[test]
fn test_kind_formatting() {
    assert_eq!(kind_text(Some(2)), "M");
    assert_eq!(kind_text(Some(3)), "F");
    assert_eq!(kind_text(Some(6)), "V");
    assert_eq!(kind_text(Some(42)), "?");
    assert_eq!(kind_text(None), "?");
    assert_eq!(completion_item_class(true), "berry-completion-item berry-completion-item-selected");
    assert_eq!(widget_offset(Position::new(2, 7)), (70, 60));
}

#[test]
fn test_debouncer_creation() {
    let debouncer = berry_editor::debounce::Debouncer::new(300);
    assert_eq!(debouncer.timeout_ms(), 300);
}

#[test]
fn test_debouncer_cancel() {
    let mut debouncer = berry_editor::debounce::Debouncer::new(300);
    assert_eq!(debouncer.debounce(7), None);
    assert_eq!(debouncer.debounce(8), Some(7));
    assert_eq!(debouncer.cancel(), Some(8));
    assert!(debouncer.pending().is_none());
    assert_eq!(debouncer.cancel(), None);
}

#[test]
fn frame_texts() {
    assert_eq!(panel_icon_color(ActivePanel::Search, ActivePanel::Search), "#FFFFFF");
    assert_eq!(panel_icon_color(ActivePanel::Search, ActivePanel::Chat), "#858585");
    assert_eq!(debug_toggle_label(true), "Hide Debug");
    assert_eq!(debug_toggle_label(false), "Show Debug");
    assert_eq!(problems_text(0), "No problems");
    assert_eq!(problems_text(12), "12 problems");
}

#[test]
fn palette_items_and_keys() {
    let files = berry_editor::command_palette::project_files();
    assert_eq!(files.len(), 4);
    let items = berry_editor::command_palette::palette_items(&files);
    assert_eq!(items.len(), 11);
    assert_eq!(items[0].id, "file:src/main.rs");
    assert_eq!(items[0].action, "open:src/main.rs");
    assert_eq!(items[3].label, "Cargo.toml");
    assert_eq!(items[4].id, "git:commit");
    assert_eq!(items[7].label, "File: Save");
    assert_eq!(items[10].action, "settings:open");
    assert_eq!(items[10].description, Some("Open settings".to_string()));
    use_palette_keys();
}

fn use_palette_keys() {

    assert_eq!(palette_key("ArrowDown", 0, 2), CompletionKeyAction::Select(1));
    assert_eq!(palette_key("Enter", 1, 2), CompletionKeyAction::Choose(1));
    assert_eq!(palette_key("Tab", 1, 2), CompletionKeyAction::Ignore);
    assert_eq!(palette_key("Escape", 1, 2), CompletionKeyAction::Close);
}

#[test]
fn dialog_decisions() {
    assert_eq!(create_dialog_title(true), "New Folder");
    assert_eq!(create_dialog_placeholder(false), "File name");
    assert_eq!(submit_filename("main.rs"), Ok(()));
    assert_eq!(submit_filename("a/b"), Err("Invalid filename".to_string()));
    assert_eq!(submit_filename("CON"), Err("Invalid filename".to_string()));
    assert!(input_accepted(" x "));
    assert!(!input_accepted("   "));
}

#[test]
fn refactor_dialog_params() {
    let at = RefPosition { line: 3, character: 4 };
    let ctx = RefactorContext { file_path: "a.rs".to_string(), position: at, selection: None };
    match refactor_params(RefactorOperation::Rename, &ctx, "new_name".to_string()) {
        RefactorParams::Rename { new_name } => assert_eq!(new_name, "new_name"),
        other => panic!("unexpected {:?}", other),
    }
    match refactor_params(RefactorOperation::ExtractMethod, &ctx, "helper".to_string()) {
        RefactorParams::ExtractMethod { method_name, range } => {
            assert_eq!(method_name, "helper");
            assert_eq!(range, RefRange { start: at, end: at });
        }
        other => panic!("unexpected {:?}", other),
    }
    assert!(matches!(refactor_params(RefactorOperation::MoveSymbol, &ctx, "x".to_string()), RefactorParams::Simple));
}

#[test]
fn test_create_mock_storage() {
    let mut storage = MemoryStore::new();
    storage.set_item("test", "value");
    assert_eq!(storage.get_item("test"), Some("value".to_string()));
}
