use berry_editor::editor_tab::{classify_key, EditorTab, KeyCommand};

fn tab(content: &str) -> EditorTab {
    EditorTab::new("main.rs".to_string(), content.to_string())
}

fn text(t: &EditorTab) -> String {
    t.buffer().to_string()
}

#[test]
fn new_tab_state() {
    let t = tab("hello");
    assert_eq!(t.cursor(), (0, 0));
    assert_eq!(t.selection(), (None, None));
    assert_eq!(t.file_path(), "main.rs");
    assert_eq!(t.highlight_language(), Some("rust"));
    assert_eq!(EditorTab::new("a.jsx".to_string(), String::new()).highlight_language(), Some("javascript"));
    assert_eq!(EditorTab::new("a.py".to_string(), String::new()).highlight_language(), Some("python"));
    assert_eq!(EditorTab::new("a.txt".to_string(), String::new()).highlight_language(), None);
    assert!(!t.buffer().is_modified());
}

#[test]
fn typing_and_backspace() {
    let mut t = tab("xy");
    t.arrow_right(false);
    t.type_text("a");
    t.type_text("b");
    assert_eq!(text(&t), "xaby");
    assert_eq!(t.cursor(), (0, 3));
    t.backspace();
    assert_eq!(text(&t), "xay");
    assert_eq!(t.cursor(), (0, 2));
}

#[test]
fn enter_and_join_lines() {
    let mut t = tab("abcd");
    t.arrow_right(false);
    t.arrow_right(false);
    t.enter();
    assert_eq!(text(&t), "ab\ncd");
    assert_eq!(t.cursor(), (1, 0));
    t.backspace();
    assert_eq!(text(&t), "abcd");
    assert_eq!(t.cursor(), (0, 2));
}

#[test]
fn delete_forward_joins_next_line() {
    let mut t = tab("ab\ncd");
    t.end(false);
    assert_eq!(t.cursor(), (0, 2));
    t.delete_forward();
    assert_eq!(text(&t), "abcd");
    t.end(false);
    t.delete_forward();
    assert_eq!(text(&t), "abcd");
}

#[test]
fn arrows_wrap_lines_and_clamp_columns() {
    let mut t = tab("long line\nab\nxyz");
    t.end(false);
    assert_eq!(t.cursor(), (0, 9));
    t.arrow_down(false);
    assert_eq!(t.cursor(), (1, 2));
    t.arrow_right(false);
    assert_eq!(t.cursor(), (2, 0));
    t.arrow_left(false);
    assert_eq!(t.cursor(), (1, 2));
    t.arrow_up(false);
    assert_eq!(t.cursor(), (0, 2));
    t.home(false);
    assert_eq!(t.cursor(), (0, 0));
    t.arrow_left(false);
    assert_eq!(t.cursor(), (0, 0));
    t.page_down(false);
    assert_eq!(t.cursor(), (2, 0));
    t.page_up(false);
    assert_eq!(t.cursor(), (0, 0));
}

#[test]
fn shift_moves_select() {
    let mut t = tab("hello world");
    t.arrow_right(true);
    t.arrow_right(true);
    assert_eq!(t.selection(), (Some((0, 0)), Some((0, 2))));
    assert_eq!(t.get_selected_text(), Some("he".to_string()));
    t.end(true);
    assert_eq!(t.get_selected_text(), Some("hello world".to_string()));
    t.arrow_left(false);
    assert_eq!(t.selection(), (None, None));
}

#[test]
fn typing_replaces_selection() {
    let mut t = tab("hello world");
    t.arrow_right(true);
    t.arrow_right(true);
    t.type_text("J");
    assert_eq!(text(&t), "Jllo world");
    assert_eq!(t.cursor(), (0, 1));
    assert_eq!(t.selection(), (None, None));
}

#[test]
fn select_all_copy_cut_paste() {
    let mut t = tab("one\ntwo");
    t.select_all();
    assert_eq!(t.selection(), (Some((0, 0)), Some((1, 3))));
    assert_eq!(t.copy_text(), Some("one\ntwo".to_string()));
    let cut = t.cut_text();
    assert_eq!(cut, Some("one\ntwo".to_string()));
    assert_eq!(text(&t), "");
    t.paste("abc");
    assert_eq!(text(&t), "abc");
    assert_eq!(t.cursor(), (0, 3));
    t.paste("");
    assert_eq!(text(&t), "abc");
}

#[test]
fn copy_and_cut_the_cursor_line() {
    let mut t = tab("first\nsecond");
    assert_eq!(t.copy_text(), Some("first\n".to_string()));
    assert_eq!(t.cut_text(), Some("first\n".to_string()));
    assert_eq!(text(&t), "second");
    assert_eq!(t.cursor(), (0, 0));
}

#[test]
fn undo_and_redo() {
    let mut t = tab("ab");
    assert!(!t.undo());
    t.type_text("x");
    t.type_text("y");
    assert_eq!(text(&t), "xyab");
    assert!(t.undo());
    assert_eq!(text(&t), "xab");
    assert_eq!(t.cursor(), (0, 1));
    assert!(t.undo());
    assert_eq!(text(&t), "ab");
    assert!(!t.undo());
    assert!(t.redo());
    assert_eq!(text(&t), "xab");
    assert!(t.redo());
    assert_eq!(text(&t), "xyab");
    assert!(!t.redo());
    t.undo();
    t.type_text("z");
    assert!(!t.redo());
}

#[test]
fn undo_history_is_bounded() {
    let mut t = tab("");
    for _ in 0..150 {
        t.type_text("a");
    }
    let mut undone = 0;
    while t.undo() {
        undone += 1;
    }
    assert_eq!(undone, 100);
    assert_eq!(text(&t).len(), 50);
}

#[test]
fn keys_to_commands() {
    assert_eq!(classify_key("z", true, false, false), KeyCommand::Undo);
    assert_eq!(classify_key("z", false, true, false), KeyCommand::Undo);
    assert_eq!(classify_key("y", true, false, false), KeyCommand::Redo);
    assert_eq!(classify_key("Z", true, false, true), KeyCommand::Redo);
    assert_eq!(classify_key("s", false, true, false), KeyCommand::Save);
    assert_eq!(classify_key("a", true, false, false), KeyCommand::SelectAll);
    assert_eq!(classify_key("c", true, false, false), KeyCommand::Copy);
    assert_eq!(classify_key("v", true, false, false), KeyCommand::Paste);
    assert_eq!(classify_key("x", true, false, false), KeyCommand::Cut);
    assert_eq!(classify_key("q", false, false, true), KeyCommand::Type);
    assert_eq!(classify_key("q", true, false, false), KeyCommand::Unhandled);
    assert_eq!(classify_key("é", false, false, false), KeyCommand::Unhandled);
    assert_eq!(classify_key("Backspace", false, false, false), KeyCommand::Backspace);
    assert_eq!(classify_key("Delete", false, false, false), KeyCommand::Delete);
    assert_eq!(classify_key("Enter", false, false, false), KeyCommand::Enter);
    assert_eq!(classify_key("Home", false, false, true), KeyCommand::Home);
    assert_eq!(classify_key("End", false, false, false), KeyCommand::End);
    assert_eq!(classify_key("PageUp", false, false, false), KeyCommand::PageUp);
    assert_eq!(classify_key("PageDown", false, false, false), KeyCommand::PageDown);
    assert_eq!(classify_key("ArrowLeft", false, false, false), KeyCommand::Left);
    assert_eq!(classify_key("ArrowRight", false, false, false), KeyCommand::Right);
    assert_eq!(classify_key("ArrowUp", false, false, false), KeyCommand::Up);
    assert_eq!(classify_key("ArrowDown", false, false, false), KeyCommand::Down);
    assert_eq!(classify_key("F5", false, false, false), KeyCommand::Unhandled);
}

#[test]
fn apply_key_outcomes() {
    let mut t = tab("code");
    let out = t.apply_key(KeyCommand::Save, "s", false, "");
    assert!(!out.redraw);
    assert_eq!(out.save, Some(("main.rs".to_string(), "code".to_string())));
    let out = t.apply_key(KeyCommand::Type, "!", false, "");
    assert!(out.redraw);
    assert_eq!(text(&t), "!code");
    let out = t.apply_key(KeyCommand::Copy, "c", false, "");
    assert!(!out.redraw);
    assert_eq!(out.clipboard, Some("!code".to_string()));
    let out = t.apply_key(KeyCommand::Undo, "z", false, "");
    assert!(out.redraw);
    assert_eq!(text(&t), "code");
    let out = t.apply_key(KeyCommand::Undo, "z", false, "");
    assert!(!out.redraw);
    let out = t.apply_key(KeyCommand::Paste, "v", false, "++");
    assert!(out.redraw);
    assert_eq!(text(&t), "++code");
    let out = t.apply_key(KeyCommand::Unhandled, "F5", false, "");
    assert!(out.redraw);
    assert_eq!(out.clipboard, None);
}

#[test]
fn mouse_selection() {
    let mut t = tab("abc\nde");
    t.place_cursor(5, 9);
    assert_eq!(t.cursor(), (1, 2));
    assert_eq!(t.selection(), (Some((1, 2)), Some((1, 2))));
    t.drag_to(0, 1);
    assert_eq!(t.cursor(), (0, 1));
    assert_eq!(t.get_selected_text(), Some("bc\nde".to_string()));
    t.end_drag();
    assert_eq!(t.selection(), (Some((1, 2)), Some((0, 1))));
    t.place_cursor(0, 0);
    t.end_drag();
    assert_eq!(t.selection(), (None, None));
}

#[test]
fn composition_inserts_at_cursor() {
    let mut t = tab("ab");
    t.arrow_right(false);
    t.commit_composition("日本");
    assert_eq!(text(&t), "a日本b");
    assert_eq!(t.cursor(), (0, 3));
    assert!(!t.undo());
}

#[test]
fn keys_are_allowed_in_an_ordinary_state() {
    let mut tab = berry_editor::editor_tab::EditorTab::new("a.rs".to_string(), "abc\ndef".to_string());
    for cmd in [
        berry_editor::editor_tab::KeyCommand::Type,
        berry_editor::editor_tab::KeyCommand::Backspace,
        berry_editor::editor_tab::KeyCommand::Delete,
        berry_editor::editor_tab::KeyCommand::Enter,
        berry_editor::editor_tab::KeyCommand::PageDown,
        berry_editor::editor_tab::KeyCommand::Copy,
        berry_editor::editor_tab::KeyCommand::Paste,
        berry_editor::editor_tab::KeyCommand::Cut,
        berry_editor::editor_tab::KeyCommand::Undo,
    ] {
        assert!(tab.key_allowed(cmd, "x\ny"));
    }
    tab.place_cursor(1, 2);
    tab.drag_to(0, 1);
    assert!(tab.key_allowed(berry_editor::editor_tab::KeyCommand::Cut, ""));
    assert!(tab.key_allowed(berry_editor::editor_tab::KeyCommand::Type, ""));
    assert!(tab.composition_allowed(""));
    assert!(tab.composition_allowed("\u{3042}"));
}

#[test]
fn cut_removes_the_whole_line_with_wide_characters() {
    let mut t = tab("héllo\nnext");
    assert_eq!(t.cut_text(), Some("héllo\n".to_string()));
    assert_eq!(text(&t), "next");
    assert_eq!(t.cursor(), (0, 0));
}

#[test]
fn paste_puts_the_cursor_at_the_end_of_the_pasted_text() {
    let mut t = tab("ab");
    t.arrow_right(false);
    t.paste("x\nyz");
    assert_eq!(text(&t), "ax\nyzb");
    assert_eq!(t.cursor(), (1, 2));
}
