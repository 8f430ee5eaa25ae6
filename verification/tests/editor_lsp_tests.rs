use berry_editor::berrycode_panel::{add_context_file, can_send, message_style, receive_reply, send_message};
use berry_editor::lsp::LspClient;
use berry_editor::editor_lsp::{
    completion_insert_text, error_warning_counts, status_text, tab_class, tab_for_path, tab_title, triggers_completion,
};
use berry_editor::hover_tooltip::{hover_blocks, HoverBlock};
use berry_editor::lsp_ui::{CompletionItem, Diagnostic, DiagnosticPosition, DiagnosticRange};

fn diag(severity: u32) -> Diagnostic {
    let p = DiagnosticPosition { line: 0, character: 0 };
    Diagnostic { range: DiagnosticRange { start: p, end: p }, severity, message: "m".to_string(), source: None }
}

#[test]
fn tabs_are_found_and_titled() {
    let paths = vec!["/a/b.rs".to_string(), "/c.rs".to_string()];
    assert_eq!(tab_for_path(&paths, "/c.rs"), Some(1));
    assert_eq!(tab_for_path(&paths, "/d.rs"), None);
    assert_eq!(tab_title("/a/b.rs"), "b.rs");
    assert_eq!(tab_title("plain.txt"), "plain.txt");
    assert_eq!(tab_title("/dir/"), "");
    assert_eq!(tab_class(true), "berry-editor-tab active");
    assert_eq!(tab_class(false), "berry-editor-tab");
}

#[test]
fn completion_triggers_and_insert_text() {
    assert!(triggers_completion(" ", true));
    assert!(!triggers_completion(" ", false));
    assert!(triggers_completion(".", false));
    assert!(!triggers_completion("a", true));
    let item = CompletionItem {
        label: "push".to_string(),
        kind: Some(2),
        detail: None,
        documentation: None,
        insert_text: Some("push(${1})".to_string()),
    };
    assert_eq!(completion_insert_text(item), "push(${1})");
    let plain = CompletionItem { label: "len".to_string(), kind: None, detail: None, documentation: None, insert_text: None };
    assert_eq!(completion_insert_text(plain), "len");
}

#[test]
fn status_line_counts() {
    let ds = vec![diag(1), diag(2), diag(2), diag(3)];
    assert_eq!(error_warning_counts(&ds), (1, 2));
    assert_eq!(status_text(Some("rust"), 1, 2), "rust | UTF-8 | 1 errors, 2 warnings");
    assert_eq!(status_text(Some("rust"), 0, 0), "rust | UTF-8");
    assert_eq!(status_text(None, 3, 0), "Ready");
}

#[test]
fn hover_text_and_code_blocks() {
    let blocks = hover_blocks("Description\n```rust\nfn main() {}\n```\nMore text");
    assert_eq!(
        blocks,
        vec![
            HoverBlock::Text("Description".to_string()),
            HoverBlock::Code("fn main() {}".to_string()),
            HoverBlock::Text("More text".to_string()),
        ]
    );
    assert_eq!(hover_blocks(""), vec![]);
    assert_eq!(hover_blocks("a\n   \nb"), vec![HoverBlock::Text("a".to_string()), HoverBlock::Text("b".to_string())]);
    assert_eq!(hover_blocks("```\nx\ny\n```"), vec![HoverBlock::Code("x\ny".to_string())]);
    assert_eq!(hover_blocks("```rust x\ny```"), vec![HoverBlock::Code("y".to_string())]);
}

#[test]
fn chat_messages_and_context() {
    let mut msgs = Vec::new();
    assert!(!send_message(&mut msgs, "   "));
    assert!(msgs.is_empty());
    assert!(send_message(&mut msgs, "hi"));
    receive_reply(&mut msgs, Ok("hello".to_string()));
    receive_reply(&mut msgs, Err("timeout".to_string()));
    assert_eq!(msgs.len(), 3);
    assert_eq!(msgs[0].role, "user");
    assert_eq!(msgs[1].content, "hello");
    assert_eq!(msgs[2].role, "assistant");
    assert_eq!(msgs[2].content, "Error: timeout");
    assert_eq!(message_style(&msgs[0]), ("#2B2D30", "#365880", "You"));
    assert_eq!(message_style(&msgs[1]), ("#1E1F22", "#4A7A3C", "BerryCode"));
    let mut files = vec!["a.rs".to_string()];
    add_context_file(&mut files, "a.rs".to_string());
    add_context_file(&mut files, "b.rs".to_string());
    assert_eq!(files, vec!["a.rs".to_string(), "b.rs".to_string()]);
    assert!(can_send("x", false));
    assert!(!can_send("x", true));
    assert!(!can_send(" \t", false));
}

#[test]
fn lsp_client_starts_for_its_language() {
    let client = LspClient::new("rust");
    assert_eq!(client.language(), "rust");
    assert!(client.server_url().is_none());
    assert_eq!(client.initialization_result(Ok(true)), Ok(()));
    assert_eq!(client.initialization_result(Ok(false)), Err("LSP initialization failed for rust".to_string()));
    assert_eq!(client.initialization_result(Err("boom".to_string())), Err("LSP initialization error: boom".to_string()));
}
