//! The colour of a line in the minimap, guessed from how it starts.

use vstd::prelude::*;
use crate::text::{chars_of, starts_with, starts_with_chars, trim_start, trim_start_exec};

verus! {

broadcast use vstd::string::group_string_axioms;

/// Whether a (trimmed) line starts with one of the keywords that open a
/// Rust item.
pub open spec fn starts_with_keyword(t: Seq<char>) -> bool {
    starts_with(t, "fn "@) || starts_with(t, "pub "@) || starts_with(t, "use "@) || starts_with(t, "impl "@)
        || starts_with(t, "struct "@) || starts_with(t, "enum "@) || starts_with(t, "trait "@)
}

/// The minimap colour of a line, by its text without leading white space:
/// green for a comment, orange for a line with a quote, blue for one that
/// opens an item, grey otherwise.
pub open spec fn line_color(line: Seq<char>) -> Seq<char> {
    let t = trim_start(line);
    if starts_with(t, "//"@) || starts_with(t, "/*"@) || starts_with(t, "*"@) {
        "#6a9955"@
    } else if t.contains('"') || t.contains('\'') {
        "#ce9178"@
    } else if starts_with_keyword(t) {
        "#569cd6"@
    } else {
        "#d4d4d4"@
    }
}

fn has_prefix(t: &[char], prefix: &str) -> (r: bool)
    ensures
        r == starts_with(t@, prefix@),
{
    let p = chars_of(prefix);
    starts_with_chars(t, p.as_slice())
}

fn holds_char(t: &[char], c: char) -> (r: bool)
    ensures
        r == t@.contains(c),
{
    let mut i: usize = 0;
    while i < t.len()
        invariant
            i <= t@.len(),
            forall|j: int| 0 <= j < i ==> t@[j] != c,
        decreases t@.len() - i,
    {
        if t[i] == c {
            assert(t@[i as int] == c);
            return true;
        }
        i += 1;
    }
    false
}

/// The minimap colour of a line.
pub fn get_line_color(line: &str) -> (r: &'static str)
    ensures
        r@ == line_color(line@),
{
    let lc = chars_of(line);
    let t = trim_start_exec(lc.as_slice());
    let ts = t.as_slice();
    if has_prefix(ts, "//") || has_prefix(ts, "/*") || has_prefix(ts, "*") {
        return "#6a9955";
    }
    if holds_char(ts, '"') || holds_char(ts, '\'') {
        return "#ce9178";
    }
    if has_prefix(ts, "fn ") || has_prefix(ts, "pub ") || has_prefix(ts, "use ") || has_prefix(ts, "impl ")
        || has_prefix(ts, "struct ") || has_prefix(ts, "enum ") || has_prefix(ts, "trait ") {
        return "#569cd6";
    }
    "#d4d4d4"
}

} // verus!
