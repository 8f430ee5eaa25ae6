use berry_editor::canvas_renderer::{Position, Range};
use berry_editor::lsp_ui::{
    definition_location, reference_positions, CompletionItem, DiagnosticPosition, HoverInfo, LspIntegration,
};

#[test]
fn test_lsp_integration_creation() {
    let lsp = LspIntegration::new();
    assert_eq!(lsp.file_path(), "");
    assert_eq!(lsp.completions().len(), 0);
    assert_eq!(lsp.language(), "rust");
}

#[test]
fn lsp_set_file_path_switches_language() {
    let mut lsp = LspIntegration::new();
    lsp.set_file_path("/path/to/file.rs".to_string());
    assert_eq!(lsp.file_path(), "/path/to/file.rs");
    lsp.set_file_path("/web/app.tsx".to_string());
    assert_eq!(lsp.language(), "typescript");
}

#[test]
fn test_goto_definition_requires_initialization() {
    let lsp = LspIntegration::new();
    let position = Position::new(10, 5);
    assert_eq!(lsp.file_path(), "", "File path should be empty initially");
    assert!(!lsp.is_initialized(), "LSP should not be initialized");
    let err = lsp.definition_request(position).unwrap_err();
    assert_eq!(err, "LSP not initialized for file: (no file). Please wait for file to load completely.");
}

#[test]
fn test_file_path_must_be_set_before_goto_definition() {
    let mut lsp = LspIntegration::new();
    assert!(lsp.file_path().is_empty(), "File path must be empty initially");
    lsp.set_file_path("/test/file.rs".to_string());
    assert_eq!(lsp.file_path(), "/test/file.rs");
    let err = lsp.definition_request(Position::new(1, 1)).unwrap_err();
    assert_eq!(err, "LSP not initialized for file: /test/file.rs. Please wait for file to load completely.");
}

#[test]
fn requests_once_initialized() {
    let mut lsp = LspIntegration::new();
    assert!(lsp.position_request(Position::new(3, 4)).is_none());
    assert!(lsp.diagnostics_request().is_none());
    lsp.initialized("/a.py".to_string(), "python".to_string());
    let q = lsp.position_request(Position::new(3, 4)).unwrap();
    assert_eq!(q.language, "python");
    assert_eq!(q.file_path, "/a.py");
    assert_eq!((q.line, q.character), (3, 4));
    let d = lsp.definition_request(Position::new(7, 2)).unwrap();
    assert_eq!((d.line, d.character), (7, 2));
    assert_eq!(lsp.diagnostics_request(), Some(("python".to_string(), "/a.py".to_string())));
}

#[test]
fn answers_are_kept() {
    let mut lsp = LspIntegration::default();
    lsp.completions_received(vec![CompletionItem {
        label: "foo".to_string(),
        kind: Some(3),
        detail: None,
        documentation: None,
        insert_text: None,
    }]);
    lsp.hover_received(Some(HoverInfo { contents: "fn foo()".to_string(), range: None }));
    lsp.diagnostics_received(vec![]);
    assert_eq!(lsp.completions()[0].label, "foo");
    assert_eq!(lsp.hover_info().as_ref().unwrap().contents, "fn foo()");
    assert_eq!(lsp.diagnostics().len(), 0);
}

#[test]
fn definition_locations_and_references() {
    let loc = definition_location("file:///src/main.rs".to_string(), 12, 4);
    assert_eq!(loc.uri, "/src/main.rs");
    assert_eq!((loc.line, loc.column), (12, 4));
    let plain = definition_location("/x.rs".to_string(), 0, 0);
    assert_eq!(plain.uri, "/x.rs");
    let refs = reference_positions(&vec![
        DiagnosticPosition { line: 1, character: 2 },
        DiagnosticPosition { line: 5, character: 0 },
    ]);
    assert_eq!(refs, vec![Position::new(1, 2), Position::new(5, 0)]);
}

#[test]
fn positions_and_ranges() {
    let p = Position::new(2, 3);
    assert_eq!(p.line, 2);
    assert_eq!(p.column, 3);
    let r = Range::new(p, Position::new(4, 0));
    assert_eq!(r.start, p);
    assert_eq!(r.end.line, 4);
}
