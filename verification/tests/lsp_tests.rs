use berry_editor::diagnostics_panel::{diagnostics_summary, diagnostic_class, location_text, severity_style};
use berry_editor::lsp::{CompletionItem, Position};
use berry_editor::lsp_ui::{Diagnostic, DiagnosticPosition, DiagnosticRange};
use berry_editor::lsp_client::features::{
    filter_completions, get_word_at_position, is_word_char, should_trigger_completion,
    sort_completions_by_relevance,
};
use berry_editor::lsp_client::LspClientWasm;
use berry_editor::lsp_ui::detect_language;

fn item(label: &str) -> CompletionItem {
    CompletionItem { label: label.to_string(), kind: Some(3), detail: None, documentation: None, insert_text: None }
}

#[test]
fn test_should_trigger_completion() {
    assert!(should_trigger_completion("foo", '.'));
    assert!(should_trigger_completion("foo", ':'));
    assert!(should_trigger_completion("ab", 'c'));
    assert!(!should_trigger_completion("a", 'b'));
}

#[test]
fn trigger_counts_bytes() {
    assert!(should_trigger_completion("é", 'x'));
    assert!(!should_trigger_completion("", 'x'));
}

#[test]
fn test_filter_completions() {
    let items = vec![item("println"), item("print"), item("format")];
    let filtered = filter_completions(items, "print");
    assert_eq!(filtered.len(), 2);
    assert!(filtered.iter().any(|i| i.label == "println"));
    assert!(filtered.iter().any(|i| i.label == "print"));
}

#[test]
fn filter_uses_insert_text_and_case() {
    let mut with_insert = item("x");
    with_insert.insert_text = Some("PrintLine".to_string());
    let items = vec![item("Format"), with_insert, item("other")];
    let filtered = filter_completions(items, "PRINT");
    assert_eq!(filtered.len(), 1);
    assert_eq!(filtered[0].label, "x");
    let all = filter_completions(vec![item("a"), item("b")], "");
    assert_eq!(all.len(), 2);
}

#[test]
fn test_sort_completions_by_relevance() {
    let items = vec![item("println"), item("print"), item("format")];
    let sorted = sort_completions_by_relevance(items, "print");
    assert_eq!(sorted[0].label, "print");
    assert_eq!(sorted[1].label, "println");
}

#[test]
fn sort_orders_groups_then_labels() {
    let items = vec![item("zeta"), item("Printer"), item("alpha"), item("print"), item("PRINT"), item("prints")];
    let sorted = sort_completions_by_relevance(items, "Print");
    let labels: Vec<&str> = sorted.iter().map(|i| i.label.as_str()).collect();
    assert_eq!(labels, vec!["PRINT", "print", "Printer", "prints", "alpha", "zeta"]);
}

#[test]
fn test_get_word_at_position() {
    let text = "fn main() { println!(\"Hello\"); }";
    let pos = Position { line: 0, character: 15 };
    let word = get_word_at_position(text, pos);
    assert_eq!(word, Some("println".to_string()));
}

#[test]
fn word_at_position_edges() {
    let text = "let a_b = 1;\nsecond line";
    assert_eq!(get_word_at_position(text, Position { line: 0, character: 4 }), Some("a_b".to_string()));
    assert_eq!(get_word_at_position(text, Position { line: 0, character: 3 }), Some("let".to_string()));
    assert_eq!(get_word_at_position(text, Position { line: 0, character: 8 }), None);
    assert_eq!(get_word_at_position(text, Position { line: 1, character: 0 }), Some("second".to_string()));
    assert_eq!(get_word_at_position(text, Position { line: 1, character: 99 }), None);
    assert_eq!(get_word_at_position(text, Position { line: 5, character: 0 }), None);
}

#[test]
fn test_is_word_char() {
    assert!(is_word_char('a'));
    assert!(is_word_char('Z'));
    assert!(is_word_char('0'));
    assert!(is_word_char('_'));
    assert!(!is_word_char('.'));
    assert!(!is_word_char(' '));
}

#[test]
fn test_lsp_client_creation() {
    let client = LspClientWasm::new("rust");
    assert_eq!(client.language(), "rust");
    assert!(!client.is_initialized());
}

#[test]
fn lsp_client_session_states() {
    let mut client = LspClientWasm::new("python");
    assert_eq!(client.ensure_initialized(), Err("LSP not initialized".to_string()));
    assert!(!client.needs_shutdown());
    client.mark_initialized();
    assert_eq!(client.ensure_initialized(), Ok(()));
    assert!(client.needs_shutdown());
    client.mark_shut_down();
    assert!(!client.is_initialized());
    assert_eq!(client.language(), "python");
}

fn diag(line: u32, severity: u32, message: &str) -> Diagnostic {
    Diagnostic {
        range: DiagnosticRange {
            start: DiagnosticPosition { line, character: 0 },
            end: DiagnosticPosition { line, character: 5 },
        },
        severity,
        message: message.to_string(),
        source: None,
    }
}

#[test]
fn test_diagnostics_summary() {
    let diagnostics = vec![diag(0, 1, "Error 1"), diag(1, 2, "Warning 1"), diag(2, 3, "Info 1")];
    let (errors, warnings, info) = diagnostics_summary(&diagnostics);
    assert_eq!(errors, 1);
    assert_eq!(warnings, 1);
    assert_eq!(info, 1);
}

#[test]
fn test_empty_diagnostics() {
    let (errors, warnings, info) = diagnostics_summary(&[]);
    assert_eq!(errors, 0);
    assert_eq!(warnings, 0);
    assert_eq!(info, 0);
}

#[test]
fn summary_of_hints_and_unknown_severity() {
    let diagnostics = vec![diag(0, 4, "hint"), diag(0, 0, "none"), diag(0, 1, "e"), diag(0, 1, "e2")];
    assert_eq!(diagnostics_summary(&diagnostics), (2, 0, 1));
}

#[test]
fn languages_by_extension() {
    assert_eq!(detect_language("src/main.rs"), "rust");
    assert_eq!(detect_language("app.tsx"), "typescript");
    assert_eq!(detect_language("app.ts"), "typescript");
    assert_eq!(detect_language("index.js"), "javascript");
    assert_eq!(detect_language("view.jsx"), "javascript");
    assert_eq!(detect_language("tool.py"), "python");
    assert_eq!(detect_language("README.md"), "rust");
}

#[test]
fn diagnostic_display() {
    assert_eq!(severity_style(1), ("error", "E"));
    assert_eq!(severity_style(2), ("warning", "W"));
    assert_eq!(severity_style(3), ("info", "I"));
    assert_eq!(severity_style(4), ("hint", "H"));
    assert_eq!(diagnostic_class(2), "berry-diagnostic berry-diagnostic-warning");
    let d = diag(9, 1, "bad");
    assert_eq!(location_text(&d), "[10:1]");
}
