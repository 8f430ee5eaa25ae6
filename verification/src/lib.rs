//! BerryEditor core: the text buffer and its edits, cursors and search, the
//! open-file tabs with undo and redo, and the decisions of the editor's
//! panels (language server, debugger, git, file tree, palette, chat), each
//! operation stated by a contract and proved.

pub mod berrycode_panel;
pub mod blame;
pub mod buffer;
pub mod canvas_renderer;
pub mod command_palette;
pub mod common;
pub mod completion_widget;
pub mod components;
pub mod cursor;
pub mod database;
pub mod debounce;
pub mod debugger;
pub mod diagnostics_panel;
pub mod editor_lsp;
pub mod editor_tab;
pub mod file_tree;
pub mod git;
pub mod git_ui;
pub mod highlight_job;
pub mod hover_tooltip;
pub mod lsp;
pub mod lsp_client;
pub mod lsp_ui;
pub mod minimap;
pub mod refactoring;
pub mod search;
pub mod search_panel;
pub mod settings;
pub mod text;
