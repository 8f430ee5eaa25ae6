//! The editor's language-server integration: the file and language it
//! serves, whether the server is ready, the requests it makes, and what it
//! keeps of the answers. The requests are sent by the host; this decides
//! whether one is made and what it asks, and records the answer.

use vstd::prelude::*;
use crate::canvas_renderer::Position;
use crate::text::{append, chars_of, ends_with, ends_with_chars, starts_with, starts_with_chars, string_from_chars};

verus! {

broadcast use vstd::string::group_string_axioms;

/// A place in a file, as go-to-definition reports it.
#[derive(Debug, Clone)]
pub struct LocationInfo {
    /// The file's path.
    pub uri: String,
    pub line: usize,
    pub column: usize,
}

/// The language of a file by its extension: Rust for `.rs`, TypeScript
/// for `.ts` and `.tsx`, JavaScript for `.js` and `.jsx`, Python for `.py`,
/// and Rust for anything else.
pub open spec fn language_of(path: Seq<char>) -> Seq<char> {
    if ends_with(path, ".rs"@) {
        "rust"@
    } else if ends_with(path, ".ts"@) || ends_with(path, ".tsx"@) {
        "typescript"@
    } else if ends_with(path, ".js"@) || ends_with(path, ".jsx"@) {
        "javascript"@
    } else if ends_with(path, ".py"@) {
        "python"@
    } else {
        "rust"@
    }
}

fn has_suffix(path: &[char], suffix: &str) -> (r: bool)
    ensures
        r == ends_with(path@, suffix@),
{
    let s = chars_of(suffix);
    ends_with_chars(path, s.as_slice())
}

/// The language server to use for a file.
pub fn detect_language(file_path: &str) -> (r: String)
    ensures
        r@ == language_of(file_path@),
{
    let p = chars_of(file_path);
    if has_suffix(p.as_slice(), ".rs") {
        "rust".to_string()
    } else if has_suffix(p.as_slice(), ".ts") || has_suffix(p.as_slice(), ".tsx") {
        "typescript".to_string()
    } else if has_suffix(p.as_slice(), ".js") || has_suffix(p.as_slice(), ".jsx") {
        "javascript".to_string()
    } else if has_suffix(p.as_slice(), ".py") {
        "python".to_string()
    } else {
        "rust".to_string()
    }
}

/// A completion the language server offers.
#[derive(Debug, Clone)]
pub struct CompletionItem {
    pub label: String,
    pub kind: Option<u32>,
    pub detail: Option<String>,
    pub documentation: Option<String>,
    pub insert_text: Option<String>,
}

/// A place in a file, as diagnostics give it.
#[derive(Debug, Clone, Copy, PartialEq, Eq)]
pub struct DiagnosticPosition {
    pub line: u32,
    pub character: u32,
}

/// A stretch of a file, as diagnostics give it.
#[derive(Debug, Clone, Copy, PartialEq, Eq)]
pub struct DiagnosticRange {
    pub start: DiagnosticPosition,
    pub end: DiagnosticPosition,
}

/// A problem the language server reports.
#[derive(Debug, Clone)]
pub struct Diagnostic {
    pub range: DiagnosticRange,
    pub severity: u32,
    pub message: String,
    pub source: Option<String>,
}

/// What the language server says of the symbol under the cursor.
#[derive(Debug, Clone)]
pub struct HoverInfo {
    pub contents: String,
    pub range: Option<DiagnosticRange>,
}

/// A request about a place in the current file: the language, the file,
/// the line and the character.
#[derive(Debug, Clone)]
pub struct LspRequest {
    pub language: String,
    pub file_path: String,
    pub line: u32,
    pub character: u32,
}

/// The integration's state: the current file and its language, whether
/// the server is ready, and the completions, diagnostics and hover text
/// last received.
pub struct LspIntegration {
    file_path: String,
    language: String,
    initialized: bool,
    completion_cache: Vec<CompletionItem>,
    diagnostics: Vec<Diagnostic>,
    hover_info: Option<HoverInfo>,
}

/// The error of go-to-definition before the server is ready.
pub open spec fn not_initialized_error(file_path: Seq<char>) -> Seq<char> {
    "LSP not initialized for file: "@ + (if file_path.len() == 0 { "(no file)"@ } else { file_path })
        + ". Please wait for file to load completely."@
}

/// A location's file: its URI without a leading `file://`.
pub open spec fn uri_path(uri: Seq<char>) -> Seq<char> {
    if starts_with(uri, "file://"@) {
        uri.skip(7)
    } else {
        uri
    }
}

impl LspIntegration {
    pub closed spec fn spec_file_path(&self) -> Seq<char> {
        self.file_path@
    }

    pub closed spec fn spec_language(&self) -> Seq<char> {
        self.language@
    }

    pub closed spec fn spec_initialized(&self) -> bool {
        self.initialized
    }

    pub closed spec fn spec_completions(&self) -> Seq<CompletionItem> {
        self.completion_cache@
    }

    pub closed spec fn spec_diagnostics(&self) -> Seq<Diagnostic> {
        self.diagnostics@
    }

    pub closed spec fn spec_hover(&self) -> Option<HoverInfo> {
        self.hover_info
    }

    /// No file, Rust, not ready, nothing received.
    pub fn new() -> (r: Self)
        ensures
            r.spec_file_path() == Seq::<char>::empty(),
            r.spec_language() == "rust"@,
            !r.spec_initialized(),
            r.spec_completions().len() == 0,
            r.spec_diagnostics().len() == 0,
            r.spec_hover() is None,
    {
        Self {
            file_path: String::new(),
            language: "rust".to_string(),
            initialized: false,
            completion_cache: Vec::new(),
            diagnostics: Vec::new(),
            hover_info: None,
        }
    }

    /// The current file.
    pub fn file_path(&self) -> (r: &str)
        ensures
            r@ == self.spec_file_path(),
    {
        self.file_path.as_str()
    }

    /// The current language.
    pub fn language(&self) -> (r: &str)
        ensures
            r@ == self.spec_language(),
    {
        self.language.as_str()
    }

    /// Whether the server is ready.
    pub fn is_initialized(&self) -> (r: bool)
        ensures
            r == self.spec_initialized(),
    {
        self.initialized
    }

    /// Switches to the file `path`, and to its language.
    pub fn set_file_path(&mut self, path: String)
        ensures
            final(self).spec_file_path() == path@,
            final(self).spec_language() == language_of(path@),
            final(self).spec_initialized() == old(self).spec_initialized(),
            final(self).spec_completions() == old(self).spec_completions(),
            final(self).spec_diagnostics() == old(self).spec_diagnostics(),
            final(self).spec_hover() == old(self).spec_hover(),
    {
        let language = detect_language(path.as_str());
        self.file_path = path;
        self.language = language;
    }

    /// Records that the server started for `file_path` in `language`: it
    /// is ready.
    pub fn initialized(&mut self, file_path: String, language: String)
        ensures
            final(self).spec_file_path() == file_path@,
            final(self).spec_language() == language@,
            final(self).spec_initialized(),
            final(self).spec_completions() == old(self).spec_completions(),
            final(self).spec_diagnostics() == old(self).spec_diagnostics(),
            final(self).spec_hover() == old(self).spec_hover(),
    {
        self.language = language;
        self.file_path = file_path;
        self.initialized = true;
    }

    /// The request about `position` in the current file; none before the
    /// server is ready (the answer is then empty without asking).
    pub fn position_request(&self, position: Position) -> (r: Option<LspRequest>)
        ensures
            !self.spec_initialized() ==> r is None,
            self.spec_initialized() ==> (r matches Some(q) && q.language@ == self.spec_language()
                && q.file_path@ == self.spec_file_path() && q.line == position.line as u32
                && q.character == position.column as u32),
    {
        if !self.initialized {
            return None;
        }
        Some(LspRequest {
            language: self.language.clone(),
            file_path: self.file_path.clone(),
            line: position.line as u32,
            character: position.column as u32,
        })
    }

    /// The request for the current file's diagnostics (language and file);
    /// none before the server is ready.
    pub fn diagnostics_request(&self) -> (r: Option<(String, String)>)
        ensures
            !self.spec_initialized() ==> r is None,
            self.spec_initialized() ==> (r matches Some(q) && q.0@ == self.spec_language()
                && q.1@ == self.spec_file_path()),
    {
        if !self.initialized {
            return None;
        }
        Some((self.language.clone(), self.file_path.clone()))
    }

    /// The go-to-definition request about `position`; before the server is
    /// ready, the error that says so.
    pub fn definition_request(&self, position: Position) -> (r: Result<LspRequest, String>)
        ensures
            !self.spec_initialized() ==> (r matches Err(e) && e@ == not_initialized_error(self.spec_file_path())),
            self.spec_initialized() ==> (r matches Ok(q) && q.language@ == self.spec_language()
                && q.file_path@ == self.spec_file_path() && q.line == position.line as u32
                && q.character == position.column as u32),
    {
        if !self.initialized {
            let shown = if self.file_path.as_str().is_empty() { "(no file)" } else { self.file_path.as_str() };
            let e = append(append("LSP not initialized for file: ".to_string(), shown), ". Please wait for file to load completely.");
            return Err(e);
        }
        match self.position_request(position) {
            Some(q) => Ok(q),
            None => Err(String::new()),
        }
    }

    /// Records the completions received.
    pub fn completions_received(&mut self, items: Vec<CompletionItem>)
        ensures
            final(self).spec_completions() == items@,
            final(self).spec_file_path() == old(self).spec_file_path(),
            final(self).spec_language() == old(self).spec_language(),
            final(self).spec_initialized() == old(self).spec_initialized(),
            final(self).spec_diagnostics() == old(self).spec_diagnostics(),
            final(self).spec_hover() == old(self).spec_hover(),
    {
        self.completion_cache = items;
    }

    /// Records the hover text received.
    pub fn hover_received(&mut self, info: Option<HoverInfo>)
        ensures
            final(self).spec_hover() == info,
            final(self).spec_file_path() == old(self).spec_file_path(),
            final(self).spec_language() == old(self).spec_language(),
            final(self).spec_initialized() == old(self).spec_initialized(),
            final(self).spec_completions() == old(self).spec_completions(),
            final(self).spec_diagnostics() == old(self).spec_diagnostics(),
    {
        self.hover_info = info;
    }

    /// Records the diagnostics received.
    pub fn diagnostics_received(&mut self, diagnostics: Vec<Diagnostic>)
        ensures
            final(self).spec_diagnostics() == diagnostics@,
            final(self).spec_file_path() == old(self).spec_file_path(),
            final(self).spec_language() == old(self).spec_language(),
            final(self).spec_initialized() == old(self).spec_initialized(),
            final(self).spec_completions() == old(self).spec_completions(),
            final(self).spec_hover() == old(self).spec_hover(),
    {
        self.diagnostics = diagnostics;
    }

    /// The completions last received.
    pub fn completions(&self) -> (r: &Vec<CompletionItem>)
        ensures
            r@ == self.spec_completions(),
    {
        &self.completion_cache
    }

    /// The diagnostics last received.
    pub fn diagnostics(&self) -> (r: &Vec<Diagnostic>)
        ensures
            r@ == self.spec_diagnostics(),
    {
        &self.diagnostics
    }

    /// The hover text last received.
    pub fn hover_info(&self) -> (r: &Option<HoverInfo>)
        ensures
            *r == self.spec_hover(),
    {
        &self.hover_info
    }
}

impl Default for LspIntegration {
    /// The same as `new`.
    fn default() -> (r: Self)
        ensures
            r.spec_file_path() == Seq::<char>::empty(),
            r.spec_language() == "rust"@,
            !r.spec_initialized(),
    {
        Self::new()
    }
}

/// Where a definition is, from the server's answer: the URI's path without
/// `file://`, and the start of its range.
pub fn definition_location(uri: String, line: u32, character: u32) -> (r: LocationInfo)
    ensures
        r.uri@ == uri_path(uri@),
        r.line == line as usize,
        r.column == character as usize,
{
    let cs = chars_of(uri.as_str());
    let prefix = chars_of("file://");
    proof {
        reveal_strlit("file://");
    }
    let path = if starts_with_chars(cs.as_slice(), prefix.as_slice()) {
        let mut out: Vec<char> = Vec::new();
        let mut i: usize = 7;
        while i < cs.len()
            invariant
                7 <= i <= cs@.len(),
                out@ == cs@.subrange(7, i as int),
            decreases cs@.len() - i,
        {
            out.push(cs[i]);
            i += 1;
            assert(out@ =~= cs@.subrange(7, i as int));
        }
        assert(cs@.subrange(7, cs@.len() as int) =~= cs@.skip(7));
        string_from_chars(out.as_slice())
    } else {
        uri
    };
    LocationInfo { uri: path, line: line as usize, column: character as usize }
}

/// The places of the references the server found.
pub fn reference_positions(locations: &Vec<DiagnosticPosition>) -> (r: Vec<Position>)
    ensures
        r@.len() == locations@.len(),
        forall|i: int| 0 <= i < r@.len() ==> (#[trigger] r@[i]).line == locations@[i].line as usize
            && r@[i].column == locations@[i].character as usize,
{
    let mut r: Vec<Position> = Vec::new();
    let mut i: usize = 0;
    while i < locations.len()
        invariant
            i <= locations@.len(),
            r@.len() == i,
            forall|k: int| 0 <= k < i ==> (#[trigger] r@[k]).line == locations@[k].line as usize
                && r@[k].column == locations@[k].character as usize,
        decreases locations@.len() - i,
    {
        r.push(Position::new(locations[i].line as usize, locations[i].character as usize));
        i += 1;
    }
    r
}

} // verus!
