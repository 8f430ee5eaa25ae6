//! How the variables panel lays out a variable: its indentation, its
//! expansion arrow and its type.

use crate::text::append;
use vstd::prelude::*;

verus! {

/// The pixels a variable at nesting level `level` is indented by.
pub fn indent_px(level: usize) -> (r: usize)
    requires
        level * 20 <= usize::MAX,
    ensures
        r == level * 20,
{
    level * 20
}

/// The arrow before a variable: down when expanded, right when it can be,
/// a space when it has no fields.
pub fn expand_arrow(has_children: bool, expanded: bool) -> (r: &'static str)
    ensures
        !has_children ==> r@ == " "@,
        has_children && expanded ==> r@ == "\u{25BC}"@,
        has_children && !expanded ==> r@ == "\u{25B6}"@,
{
    if has_children {
        if expanded {
            "\u{25BC}"
        } else {
            "\u{25B6}"
        }
    } else {
        " "
    }
}

/// The type shown after a variable's value: ` (T)`.
pub fn type_suffix(value_type: &str) -> (r: String)
    ensures
        r@ == " ("@ + value_type@ + ")"@,
{
    append(append(" (".to_string(), value_type), ")")
}

} // verus!
