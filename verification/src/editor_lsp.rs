//! The decisions of the editor panel that works with the language server:
//! which tab a file opens in, how tabs are titled, when completion is
//! asked for, what a chosen completion inserts, and the status line.

use crate::blame::{decimal, decimal_text};
use crate::lsp_ui::{CompletionItem, Diagnostic};
use crate::text::{append, chars_of, spec_split, split_on, str_eq, string_from_chars};
use vstd::prelude::*;

verus! {

/// The index of the first tab open on `path`, if any.
pub fn tab_for_path(paths: &Vec<String>, path: &str) -> (r: Option<usize>)
    ensures
        match r {
            Some(i) => i < paths@.len() && paths@[i as int]@ == path@
                && forall|j: int| 0 <= j < i ==> (#[trigger] paths@[j])@ != path@,
            None => forall|j: int| 0 <= j < paths@.len() ==> (#[trigger] paths@[j])@ != path@,
        },
{
    let mut i: usize = 0;
    while i < paths.len()
        invariant
            i <= paths@.len(),
            forall|j: int| 0 <= j < i ==> (#[trigger] paths@[j])@ != path@,
        decreases paths@.len() - i,
    {
        if str_eq(paths[i].as_str(), path) {
            return Some(i);
        }
        i += 1;
    }
    None
}

/// A tab's title: the last piece of its path after a `/`.
pub fn tab_title(path: &str) -> (r: String)
    ensures
        r@ == spec_split(path@, '/').last(),
{
    let cs = chars_of(path);
    let parts = split_on(cs.as_slice(), '/');
    let n = parts.len();
    proof {
        lemma_pieces_nonempty(Seq::empty(), path@, '/');
    }
    string_from_chars(parts[n - 1].as_slice())
}

/// Splitting never gives no piece.
proof fn lemma_pieces_nonempty(cur: Seq<char>, rest: Seq<char>, sep: char)
    ensures
        crate::text::pieces_from(cur, rest, sep).len() > 0,
    decreases rest.len(),
{
    if rest.len() > 0 {
        if rest[0] == sep {
            lemma_pieces_nonempty(Seq::empty(), rest.drop_first(), sep);
        } else {
            lemma_pieces_nonempty(cur.push(rest[0]), rest.drop_first(), sep);
        }
    }
}

/// The style class of a tab.
pub fn tab_class(is_active: bool) -> (r: &'static str)
    ensures
        is_active ==> r@ == "berry-editor-tab active"@,
        !is_active ==> r@ == "berry-editor-tab"@,
{
    if is_active {
        "berry-editor-tab active"
    } else {
        "berry-editor-tab"
    }
}

/// Whether a key asks for completions: Ctrl and Space, or a `.`.
pub fn triggers_completion(key: &str, ctrl: bool) -> (r: bool)
    ensures
        r == ((key@ == " "@ && ctrl) || key@ == "."@),
{
    (str_eq(key, " ") && ctrl) || str_eq(key, ".")
}

/// The text a chosen completion inserts: its insert text, else its label.
pub fn completion_insert_text(item: CompletionItem) -> (r: String)
    ensures
        match item.insert_text {
            Some(t) => r@ == t@,
            None => r@ == item.label@,
        },
{
    match item.insert_text {
        Some(t) => t,
        None => item.label,
    }
}

/// The number of diagnostics of `ds` with severity `severity`.
pub open spec fn count_severity(ds: Seq<Diagnostic>, severity: u32) -> nat
    decreases ds.len(),
{
    if ds.len() == 0 {
        0
    } else {
        count_severity(ds.drop_last(), severity) + if ds.last().severity == severity { 1nat } else { 0nat }
    }
}

/// The errors (severity 1) and warnings (severity 2) among diagnostics.
pub fn error_warning_counts(ds: &Vec<Diagnostic>) -> (r: (usize, usize))
    ensures
        r.0 == count_severity(ds@, 1),
        r.1 == count_severity(ds@, 2),
{
    let mut errors: usize = 0;
    let mut warnings: usize = 0;
    let mut i: usize = 0;
    while i < ds.len()
        invariant
            i <= ds@.len(),
            errors == count_severity(ds@.take(i as int), 1),
            warnings == count_severity(ds@.take(i as int), 2),
            errors <= i,
            warnings <= i,
        decreases ds@.len() - i,
    {
        assert(ds@.take(i + 1).drop_last() =~= ds@.take(i as int));
        if ds[i].severity == 1 {
            errors += 1;
        } else if ds[i].severity == 2 {
            warnings += 1;
        }
        i += 1;
    }
    assert(ds@.take(ds@.len() as int) =~= ds@);
    (errors, warnings)
}

/// The status line of an open file in `lang`: the language and the
/// encoding, and the counts when there are errors or warnings.
pub open spec fn status_line(lang: Seq<char>, errors: nat, warnings: nat) -> Seq<char> {
    if errors > 0 || warnings > 0 {
        lang + " | UTF-8 | "@ + decimal_text(errors) + " errors, "@ + decimal_text(warnings) + " warnings"@
    } else {
        lang + " | UTF-8"@
    }
}

/// The status line: `Ready` with no file open.
pub fn status_text(lang: Option<&str>, errors: usize, warnings: usize) -> (r: String)
    ensures
        match lang {
            Some(l) => r@ == status_line(l@, errors as nat, warnings as nat),
            None => r@ == "Ready"@,
        },
{
    match lang {
        Some(l) => {
            if errors > 0 || warnings > 0 {
                let s = append(l.to_string(), " | UTF-8 | ");
                let s = append(s, decimal(errors as u64).as_str());
                let s = append(s, " errors, ");
                let s = append(s, decimal(warnings as u64).as_str());
                append(s, " warnings")
            } else {
                append(l.to_string(), " | UTF-8")
            }
        },
        None => "Ready".to_string(),
    }
}

} // verus!
