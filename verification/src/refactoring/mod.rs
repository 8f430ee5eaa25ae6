//! Refactoring operations, the edits they produce, and what the refactor
//! dialog asks of each.

use vstd::prelude::*;
use std::collections::HashMap;

pub mod refactor_menu;

verus! {

/// A position in a file: a line and a character, both from 0.
#[derive(Debug, Clone, Copy, PartialEq, Eq, Structural)]
pub struct Position {
    pub line: u32,
    pub character: u32,
}

/// A range of a file.
#[derive(Debug, Clone, Copy, PartialEq, Eq, Structural)]
pub struct Range {
    pub start: Position,
    pub end: Position,
}

/// Replacing a range of a file with new text.
#[derive(Debug, Clone)]
pub struct TextEdit {
    pub range: Range,
    pub new_text: String,
}

/// The edits of each file that a refactoring changes.
#[derive(Debug, Clone)]
pub struct WorkspaceEdit {
    pub changes: HashMap<String, Vec<TextEdit>>,
}

/// A refactoring the editor offers.
#[derive(Debug, Clone, Copy, PartialEq, Eq, Structural)]
pub enum RefactorOperation {
    Rename,
    ExtractMethod,
    InlineVariable,
    OptimizeImports,
    MoveSymbol,
    ChangeSignature,
}

/// The menu label of each operation.
pub open spec fn operation_label(op: RefactorOperation) -> Seq<char> {
    match op {
        RefactorOperation::Rename => "Rename"@,
        RefactorOperation::ExtractMethod => "Extract Method"@,
        RefactorOperation::InlineVariable => "Inline Variable"@,
        RefactorOperation::OptimizeImports => "Optimize Imports"@,
        RefactorOperation::MoveSymbol => "Move Symbol"@,
        RefactorOperation::ChangeSignature => "Change Signature"@,
    }
}

/// The keyboard shortcut of each operation.
pub open spec fn operation_shortcut(op: RefactorOperation) -> Seq<char> {
    match op {
        RefactorOperation::Rename => "F2"@,
        RefactorOperation::ExtractMethod => "Ctrl+Alt+M"@,
        RefactorOperation::InlineVariable => "Ctrl+Alt+N"@,
        RefactorOperation::OptimizeImports => "Ctrl+Alt+O"@,
        RefactorOperation::MoveSymbol => "F6"@,
        RefactorOperation::ChangeSignature => "Ctrl+F6"@,
    }
}

impl RefactorOperation {
    /// The operation's menu label.
    pub fn label(&self) -> (r: &'static str)
        ensures
            r@ == operation_label(*self),
    {
        match self {
            Self::Rename => "Rename",
            Self::ExtractMethod => "Extract Method",
            Self::InlineVariable => "Inline Variable",
            Self::OptimizeImports => "Optimize Imports",
            Self::MoveSymbol => "Move Symbol",
            Self::ChangeSignature => "Change Signature",
        }
    }

    /// The operation's keyboard shortcut.
    pub fn shortcut(&self) -> (r: &'static str)
        ensures
            r@ == operation_shortcut(*self),
    {
        match self {
            Self::Rename => "F2",
            Self::ExtractMethod => "Ctrl+Alt+M",
            Self::InlineVariable => "Ctrl+Alt+N",
            Self::OptimizeImports => "Ctrl+Alt+O",
            Self::MoveSymbol => "F6",
            Self::ChangeSignature => "Ctrl+F6",
        }
    }
}

} // verus!
