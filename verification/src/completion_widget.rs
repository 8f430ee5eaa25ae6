//! The completion list's decisions: how keys move the selection, choose an
//! item or close the list, how an item's kind is shown, and where the list
//! stands.

use crate::canvas_renderer::Position;
use crate::text::str_eq;
use vstd::prelude::*;

verus! {

/// What a key does to the completion list.
#[derive(Debug, Clone, Copy, PartialEq, Eq, Structural)]
pub enum CompletionKeyAction {
    /// The selection moves to this index.
    Select(usize),
    /// The item at this index is chosen.
    Choose(usize),
    /// The list closes.
    Close,
    /// Nothing happens.
    Ignore,
}

/// What `key` does with `selected` the selected index among `count`
/// items: Down moves one on (no further than the last item), Up one back
/// (no further than the first), Enter and Tab choose the selected item when
/// there is one, Escape closes the list.
pub open spec fn key_action(key: Seq<char>, selected: usize, count: usize) -> CompletionKeyAction {
    if key == "ArrowDown"@ {
        let last: int = if count == 0 { 0 } else { count - 1 };
        CompletionKeyAction::Select(if selected + 1 <= last { (selected + 1) as usize } else { last as usize })
    } else if key == "ArrowUp"@ {
        CompletionKeyAction::Select(if selected == 0 { 0usize } else { (selected - 1) as usize })
    } else if key == "Enter"@ || key == "Tab"@ {
        if selected < count { CompletionKeyAction::Choose(selected) } else { CompletionKeyAction::Ignore }
    } else if key == "Escape"@ {
        CompletionKeyAction::Close
    } else {
        CompletionKeyAction::Ignore
    }
}

/// What a key does to the completion list.
pub fn completion_key(key: &str, selected: usize, count: usize) -> (r: CompletionKeyAction)
    ensures
        r == key_action(key@, selected, count),
{
    if str_eq(key, "ArrowDown") {
        let last = if count == 0 { 0 } else { count - 1 };
        CompletionKeyAction::Select(if selected < last { selected + 1 } else { last })
    } else if str_eq(key, "ArrowUp") {
        CompletionKeyAction::Select(if selected == 0 { 0 } else { selected - 1 })
    } else if str_eq(key, "Enter") || str_eq(key, "Tab") {
        if selected < count {
            CompletionKeyAction::Choose(selected)
        } else {
            CompletionKeyAction::Ignore
        }
    } else if str_eq(key, "Escape") {
        CompletionKeyAction::Close
    } else {
        CompletionKeyAction::Ignore
    }
}

/// The selection stays on an item: from an index on an item (or the first
/// place of an empty list), every key leaves it on an item (or there), and
/// only an item on the list is chosen.
pub proof fn lemma_selection_stays_in_list(key: Seq<char>, selected: usize, count: usize)
    requires
        selected < count || selected == 0,
    ensures
        key_action(key, selected, count) matches CompletionKeyAction::Select(i) ==> (i < count || i == 0),
        key_action(key, selected, count) matches CompletionKeyAction::Choose(i) ==> i < count,
{
}

/// The letter shown for a completion kind: T text, M method or module, F
/// function or field, C constructor or class, V variable, I interface, and
/// `?` otherwise.
pub open spec fn kind_letter(kind: Option<u32>) -> Seq<char> {
    match kind {
        Some(1) => "T"@,
        Some(2) => "M"@,
        Some(3) => "F"@,
        Some(4) => "C"@,
        Some(5) => "F"@,
        Some(6) => "V"@,
        Some(7) => "C"@,
        Some(8) => "I"@,
        Some(9) => "M"@,
        _ => "?"@,
    }
}

/// The letter shown for an item's kind.
pub fn kind_text(kind: Option<u32>) -> (r: &'static str)
    ensures
        r@ == kind_letter(kind),
{
    match kind {
        Some(1) => "T",
        Some(2) => "M",
        Some(3) => "F",
        Some(4) => "C",
        Some(5) => "F",
        Some(6) => "V",
        Some(7) => "C",
        Some(8) => "I",
        Some(9) => "M",
        _ => "?",
    }
}

/// The style class of an item.
pub fn completion_item_class(selected: bool) -> (r: &'static str)
    ensures
        selected ==> r@ == "berry-completion-item berry-completion-item-selected"@,
        !selected ==> r@ == "berry-completion-item"@,
{
    if selected {
        "berry-completion-item berry-completion-item-selected"
    } else {
        "berry-completion-item"
    }
}

/// Where the list stands, in pixels from the text's corner: ten per
/// column across, twenty per line down and one line more.
pub fn widget_offset(position: Position) -> (r: (usize, usize))
    requires
        position.column * 10 <= usize::MAX,
        position.line * 20 + 20 <= usize::MAX,
    ensures
        r.0 == position.column * 10,
        r.1 == position.line * 20 + 20,
{
    (position.column * 10, position.line * 20 + 20)
}

} // verus!
