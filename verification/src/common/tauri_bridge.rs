//! The data exchanged with the desktop host: directory entries, git
//! status, completion items and search results.

use vstd::prelude::*;

verus! {

/// A file or directory, with its children when it is a directory that was
/// read.
#[derive(Debug)]
pub struct FileEntry {
    pub name: String,
    pub path: String,
    pub is_directory: bool,
    pub children: Option<Vec<FileEntry>>,
}

/// The files of a repository, by the state git reports for them.
#[derive(Debug, Clone)]
pub struct GitStatus {
    pub modified: Vec<String>,
    pub added: Vec<String>,
    pub deleted: Vec<String>,
    pub untracked: Vec<String>,
}

/// A completion offered by a language server.
#[derive(Debug, Clone)]
pub struct CompletionItem {
    pub label: String,
    pub kind: u32,
    pub detail: Option<String>,
}

/// A line of a file that matches a search.
#[derive(Debug, Clone)]
pub struct SearchResult {
    pub file_path: String,
    pub line_number: usize,
    pub line_content: String,
    pub match_start: usize,
    pub match_end: usize,
}

/// Whether the editor runs inside the desktop host: native builds always
/// do; WebAssembly builds run in a plain browser.
pub fn is_tauri(wasm32: bool) -> (r: bool)
    ensures
        r == !wasm32,
{
    !wasm32
}

} // verus!
