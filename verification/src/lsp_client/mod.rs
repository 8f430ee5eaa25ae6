//! The client side of a language server session: which language it serves
//! and whether the server was initialized, plus helpers for completion and
//! hover.

pub mod features;

use vstd::prelude::*;
use crate::lsp::Range;

verus! {

broadcast use vstd::string::group_string_axioms;

/// A language server session for one language.
pub struct LspClientWasm {
    language: String,
    initialized: bool,
}

/// The error a request made before initialization gets.
pub open spec fn not_initialized_message() -> Seq<char> {
    "LSP not initialized"@
}

impl LspClientWasm {
    /// The language served.
    pub closed spec fn spec_language(&self) -> Seq<char> {
        self.language@
    }

    /// Whether the server was initialized and not shut down since.
    pub closed spec fn spec_initialized(&self) -> bool {
        self.initialized
    }

    /// A session for `language`, not initialized yet.
    pub fn new(language: &str) -> (r: Self)
        ensures
            r.spec_language() == language@,
            !r.spec_initialized(),
    {
        Self { language: language.to_string(), initialized: false }
    }

    /// The language served.
    pub fn language(&self) -> (r: &str)
        ensures
            r@ == self.spec_language(),
    {
        self.language.as_str()
    }

    /// Whether the server was initialized.
    pub fn is_initialized(&self) -> (r: bool)
        ensures
            r == self.spec_initialized(),
    {
        self.initialized
    }

    /// Whether a request may go to the server: an error unless it was
    /// initialized.
    pub fn ensure_initialized(&self) -> (r: Result<(), String>)
        ensures
            self.spec_initialized() ==> r is Ok,
            !self.spec_initialized() ==> (r matches Err(m) && m@ == not_initialized_message()),
    {
        if self.initialized {
            Ok(())
        } else {
            Err("LSP not initialized".to_string())
        }
    }

    /// Records that the server answered the initialization.
    pub fn mark_initialized(&mut self)
        ensures
            final(self).spec_initialized(),
            final(self).spec_language() == old(self).spec_language(),
    {
        self.initialized = true;
    }

    /// Whether shutting down needs the server: only when it was
    /// initialized.
    pub fn needs_shutdown(&self) -> (r: bool)
        ensures
            r == self.spec_initialized(),
    {
        self.initialized
    }

    /// Records that the server was shut down.
    pub fn mark_shut_down(&mut self)
        ensures
            !final(self).spec_initialized(),
            final(self).spec_language() == old(self).spec_language(),
    {
        self.initialized = false;
    }
}

/// What the server says of the symbol under the cursor.
#[derive(Debug, Clone)]
pub struct HoverInfo {
    pub contents: String,
    pub range: Option<Range>,
}

} // verus!
