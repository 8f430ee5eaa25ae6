//! The diff of a file as the diff view shows it: side by side, where the
//! old column leaves out added lines and the new column removed ones, or
//! unified.

use crate::blame::{decimal, decimal_text};
use crate::text::append;
use vstd::prelude::*;

verus! {

/// A line of a diff: `+` added, `-` removed, anything else context; its
/// numbers in the old and the new file.
#[derive(Debug, Clone)]
pub struct DiffLine {
    pub origin: char,
    pub content: String,
    pub old_lineno: Option<u32>,
    pub new_lineno: Option<u32>,
}

/// A hunk of a diff: where it starts and how many lines it spans in each
/// file, its header, and its lines.
#[derive(Debug, Clone)]
pub struct DiffHunk {
    pub old_start: u32,
    pub old_lines: u32,
    pub new_start: u32,
    pub new_lines: u32,
    pub header: String,
    pub lines: Vec<DiffLine>,
}

/// The diff of one file.
#[derive(Debug, Clone)]
pub struct FileDiff {
    pub old_path: Option<String>,
    pub new_path: Option<String>,
    pub status: String,
    pub hunks: Vec<DiffHunk>,
}

/// How a diff is laid out.
#[derive(Debug, Clone, Copy, PartialEq, Eq, Structural)]
pub enum DiffViewMode {
    SideBySide,
    Unified,
}

/// The two columns of the side-by-side layout.
#[derive(Debug, Clone, Copy, PartialEq, Eq, Structural)]
pub enum DiffColumn {
    Old,
    New,
}

/// The origin a column leaves out: the old column added lines, the new
/// column removed ones.
pub open spec fn hidden_origin(column: DiffColumn) -> char {
    match column {
        DiffColumn::Old => '+',
        DiffColumn::New => '-',
    }
}

/// Whether a line of this origin shows in the column.
pub open spec fn shows_in(origin: char, column: DiffColumn) -> bool {
    origin != hidden_origin(column)
}

/// The kind of line the unified layout shows: `added`, `removed` or
/// `context`.
pub open spec fn unified_suffix(origin: char) -> Seq<char> {
    if origin == '+' {
        "added"@
    } else if origin == '-' {
        "removed"@
    } else {
        "context"@
    }
}

/// The kind of line a column shows: what it keeps of its own side
/// (`removed` in the old column, `added` in the new one), else `context`.
pub open spec fn column_suffix(origin: char, column: DiffColumn) -> Seq<char> {
    match column {
        DiffColumn::Old => if origin == '-' { "removed"@ } else { "context"@ },
        DiffColumn::New => if origin == '+' { "added"@ } else { "context"@ },
    }
}

/// The kind of a line in the unified layout.
pub fn unified_class_suffix(origin: char) -> (r: &'static str)
    ensures
        r@ == unified_suffix(origin),
{
    if origin == '+' {
        "added"
    } else if origin == '-' {
        "removed"
    } else {
        "context"
    }
}

/// The kind of a line in a column of the side-by-side layout.
pub fn column_class_suffix(origin: char, column: DiffColumn) -> (r: &'static str)
    ensures
        r@ == column_suffix(origin, column),
{
    match column {
        DiffColumn::Old => if origin == '-' { "removed" } else { "context" },
        DiffColumn::New => if origin == '+' { "added" } else { "context" },
    }
}

/// The style class of a diff line of the given kind.
pub fn line_class(suffix: &str) -> (r: String)
    ensures
        r@ == "berry-diff-line berry-diff-line-"@ + suffix@,
{
    append("berry-diff-line berry-diff-line-".to_string(), suffix)
}

/// A line number as shown: its digits, or nothing.
pub fn lineno_text(n: Option<u32>) -> (r: String)
    ensures
        match n {
            Some(k) => r@ == decimal_text(k as nat),
            None => r@ == Seq::<char>::empty(),
        },
{
    match n {
        Some(k) => decimal(k as u64),
        None => String::new(),
    }
}

/// The indices of the lines a column shows, in order.
pub fn column_lines(lines: &Vec<DiffLine>, column: DiffColumn) -> (r: Vec<usize>)
    ensures
        forall|a: int, b: int| 0 <= a < b < r@.len() ==> r@[a] < r@[b],
        forall|k: int| 0 <= k < r@.len() ==> r@[k] < lines@.len() && shows_in(lines@[r@[k] as int].origin, column),
        forall|i: int| 0 <= i < lines@.len() && shows_in(#[trigger] lines@[i].origin, column) ==> r@.contains(i as usize),
{
    let hidden = match column {
        DiffColumn::Old => '+',
        DiffColumn::New => '-',
    };
    let mut r: Vec<usize> = Vec::new();
    let mut i: usize = 0;
    while i < lines.len()
        invariant
            i <= lines@.len(),
            hidden == hidden_origin(column),
            forall|a: int, b: int| 0 <= a < b < r@.len() ==> r@[a] < r@[b],
            forall|k: int| 0 <= k < r@.len() ==> r@[k] < i && shows_in(lines@[r@[k] as int].origin, column),
            forall|j: int| 0 <= j < i && shows_in(#[trigger] lines@[j].origin, column) ==> r@.contains(j as usize),
        decreases lines@.len() - i,
    {
        if lines[i].origin != hidden {
            let ghost r0 = r@;
            r.push(i);
            proof {
                assert forall|j: int| 0 <= j < i + 1 && shows_in(#[trigger] lines@[j].origin, column) implies r@.contains(j as usize) by {
                    if j < i {
                        let k = choose|k: int| 0 <= k < r0.len() && r0[k] == j as usize;
                        assert(r@[k] == j as usize);
                    } else {
                        assert(r@[r@.len() - 1] == j as usize);
                    }
                }
            }
        } else {
            proof {
                assert forall|j: int| 0 <= j < i + 1 && shows_in(#[trigger] lines@[j].origin, column) implies r@.contains(j as usize) by {
                    if j == i {
                        assert(!shows_in(lines@[j].origin, column));
                    }
                }
            }
        }
        i += 1;
    }
    r
}

/// Every line of a diff shows in at least one column of the side-by-side
/// layout: an added line in the new one only, a removed line in the old
/// one only, a context line in both.
pub proof fn lemma_every_line_shown(origin: char)
    ensures
        shows_in(origin, DiffColumn::Old) || shows_in(origin, DiffColumn::New),
        origin == '+' ==> !shows_in(origin, DiffColumn::Old) && shows_in(origin, DiffColumn::New),
        origin == '-' ==> shows_in(origin, DiffColumn::Old) && !shows_in(origin, DiffColumn::New),
        origin != '+' && origin != '-' ==> shows_in(origin, DiffColumn::Old) && shows_in(origin, DiffColumn::New),
        shows_in(origin, DiffColumn::Old) && shows_in(origin, DiffColumn::New)
            ==> column_suffix(origin, DiffColumn::Old) == "context"@ && column_suffix(origin, DiffColumn::New) == "context"@,
{
}

} // verus!
