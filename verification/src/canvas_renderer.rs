//! The look of the editor canvas: the Darcula colour scheme and the font;
//! the places and stretches of a document, and the coloured spans of a
//! highlighted line.

use vstd::prelude::*;

verus! {

pub const COLOR_BACKGROUND: &'static str = "#1E1E1E";
pub const COLOR_FOREGROUND: &'static str = "#A9B7C6";
pub const COLOR_CURSOR: &'static str = "#FFFFFF";
pub const COLOR_SELECTION: &'static str = "#214283";
pub const COLOR_GUTTER_BG: &'static str = "#313335";
pub const COLOR_GUTTER_FG: &'static str = "#606366";
pub const COLOR_LINE_HIGHLIGHT: &'static str = "#323232";

pub const FONT_FAMILY: &'static str = "JetBrains Mono";

/// The font size, in pixels.
pub const FONT_SIZE: u32 = 13;

/// The height of a line, in pixels.
pub const LINE_HEIGHT: u32 = 20;

/// The characters `[start, end)` of a line, drawn in `color`.
#[derive(Debug, Clone, PartialEq, Eq)]
pub struct SyntaxToken {
    pub start: usize,
    pub end: usize,
    pub color: String,
}

/// A place in a document: a line and a column.
#[derive(Debug, Clone, Copy, PartialEq, Eq, Structural)]
pub struct Position {
    pub line: usize,
    pub column: usize,
}

impl Position {
    /// The place at `line`, `column`.
    pub fn new(line: usize, column: usize) -> (r: Self)
        ensures
            r.line == line,
            r.column == column,
    {
        Self { line, column }
    }
}

/// A stretch of a document, from `start` to `end`.
#[derive(Debug, Clone, Copy, PartialEq, Eq, Structural)]
pub struct Range {
    pub start: Position,
    pub end: Position,
}

impl Range {
    /// The stretch from `start` to `end`.
    pub fn new(start: Position, end: Position) -> (r: Self)
        ensures
            r.start == start,
            r.end == end,
    {
        Self { start, end }
    }
}

} // verus!
