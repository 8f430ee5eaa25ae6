//! The Language Server Protocol values the editor exchanges: positions,
//! ranges, locations, completion items and diagnostics; and the client
//! that starts a server for a language.

use crate::text::append;
use vstd::prelude::*;

verus! {

/// A position in a document: a line and a character, both from 0.
#[derive(Debug, Clone, Copy, PartialEq, Eq)]
pub struct Position {
    pub line: u32,
    pub character: u32,
}

/// A range of a document, from `start` to `end`.
#[derive(Debug, Clone, Copy, PartialEq, Eq)]
pub struct Range {
    pub start: Position,
    pub end: Position,
}

/// A range of some document.
#[derive(Debug, Clone)]
pub struct Location {
    pub uri: String,
    pub range: Range,
}

/// A completion offered by the language server.
#[derive(Debug, Clone)]
pub struct CompletionItem {
    pub label: String,
    pub kind: Option<u32>,
    pub detail: Option<String>,
    pub documentation: Option<String>,
    pub insert_text: Option<String>,
}

/// A problem the language server reports: 1 is an error, 2 a warning, 3
/// and above information and hints.
#[derive(Debug, Clone)]
pub struct Diagnostic {
    pub range: Range,
    pub severity: u32,
    pub message: String,
    pub source: Option<String>,
}

/// A language-server client for one language.
pub struct LspClient {
    language: String,
    server_url: Option<String>,
}

impl LspClient {
    /// A client for `language`, not connected to any server address.
    pub fn new(language: &str) -> (r: Self)
        ensures
            r.spec_language() == language@,
            r.spec_server_url() is None,
    {
        Self { language: language.to_string(), server_url: None }
    }

    pub closed spec fn spec_language(&self) -> Seq<char> {
        self.language@
    }

    pub closed spec fn spec_server_url(&self) -> Option<Seq<char>> {
        match self.server_url {
            Some(u) => Some(u@),
            None => None,
        }
    }

    /// The client's language.
    pub fn language(&self) -> (r: &str)
        ensures
            r@ == self.spec_language(),
    {
        self.language.as_str()
    }

    /// The server's address, if one was given.
    pub fn server_url(&self) -> (r: Option<&str>)
        ensures
            match self.spec_server_url() {
                Some(u) => r matches Some(s) && s@ == u,
                None => r is None,
            },
    {
        match &self.server_url {
            Some(u) => Some(u.as_str()),
            None => None,
        }
    }

    /// What starting the server came to, from its reply: `true` is success;
    /// `false` that it failed for this language; an error that the reply
    /// could not be had.
    pub fn initialization_result(&self, reply: Result<bool, String>) -> (r: Result<(), String>)
        ensures
            match reply {
                Ok(true) => r is Ok,
                Ok(false) => r matches Err(e) && e@ == "LSP initialization failed for "@ + self.spec_language(),
                Err(m) => r matches Err(e) && e@ == "LSP initialization error: "@ + m@,
            },
    {
        match reply {
            Ok(true) => Ok(()),
            Ok(false) => Err(append("LSP initialization failed for ".to_string(), self.language.as_str())),
            Err(m) => Err(append("LSP initialization error: ".to_string(), m.as_str())),
        }
    }
}

} // verus!
