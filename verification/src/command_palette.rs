//! The command palette: its items, which of them fit the typed query and
//! how well, and how keys move through them.

use vstd::prelude::*;
use crate::completion_widget::CompletionKeyAction;
use crate::text::{
    append, chars_eq, chars_of, contains_chars, contains_seq, spec_to_lowercase, starts_with,
    starts_with_chars, str_eq, to_lowercase,
};

verus! {

broadcast use vstd::string::group_string_axioms;

/// The kind of thing a palette item does.
#[derive(Debug, Clone, Copy, PartialEq, Eq, Structural)]
pub enum ActionType {
    File,
    GitAction,
    EditorAction,
    Settings,
    Symbol,
}

/// An entry of the palette.
#[derive(Debug, Clone)]
pub struct PaletteItem {
    pub id: String,
    pub label: String,
    pub description: Option<String>,
    pub action_type: ActionType,
    pub icon: String,
    pub action: String,
}

/// Whether `pattern` occurs in `text`, ignoring case.
pub open spec fn fuzzy_matches(text: Seq<char>, pattern: Seq<char>) -> bool {
    contains_seq(spec_to_lowercase(text), spec_to_lowercase(pattern))
}

/// Whether `pattern` occurs in `text`, ignoring case.
pub fn fuzzy_match(text: &str, pattern: &str) -> (r: bool)
    ensures
        r == fuzzy_matches(text@, pattern@),
{
    let t = to_lowercase(text);
    let p = to_lowercase(pattern);
    let tc = chars_of(t.as_str());
    let pc = chars_of(p.as_str());
    contains_chars(tc.as_slice(), pc.as_slice())
}

/// How many characters of `p`, from `k` on, a greedy left-to-right scan of
/// `t` finds in order.
pub open spec fn greedy_found(t: Seq<char>, p: Seq<char>, k: int) -> int
    decreases t.len(),
{
    if t.len() == 0 {
        k
    } else {
        let k2 = greedy_found(t.drop_last(), p, k);
        if k2 < p.len() && t.last() == p[k2] {
            k2 + 1
        } else {
            k2
        }
    }
}

/// The score of `text` for `pattern`, both taken in lower case: 1000 when
/// equal, 900 when `text` starts with `pattern`, 500 when it contains it,
/// 100 when it holds its characters in order, else 0.
pub open spec fn match_score(text: Seq<char>, pattern: Seq<char>) -> i32 {
    let t = spec_to_lowercase(text);
    let p = spec_to_lowercase(pattern);
    if t == p {
        1000
    } else if starts_with(t, p) {
        900
    } else if contains_seq(t, p) {
        500
    } else if greedy_found(t, p, 0) == p.len() {
        100
    } else {
        0
    }
}

/// How well `text` matches `pattern`.
pub fn fuzzy_match_score(text: &str, pattern: &str) -> (r: i32)
    ensures
        r == match_score(text@, pattern@),
{
    let t = to_lowercase(text);
    let p = to_lowercase(pattern);
    let tc = chars_of(t.as_str());
    let pc = chars_of(p.as_str());
    if chars_eq(tc.as_slice(), pc.as_slice()) {
        return 1000;
    }
    if starts_with_chars(tc.as_slice(), pc.as_slice()) {
        return 900;
    }
    if contains_chars(tc.as_slice(), pc.as_slice()) {
        return 500;
    }
    let mut pattern_idx: usize = 0;
    let mut i: usize = 0;
    assert(tc@.take(0) =~= Seq::<char>::empty());
    while i < tc.len()
        invariant
            i <= tc@.len(),
            pattern_idx <= pc@.len(),
            pattern_idx == greedy_found(tc@.take(i as int), pc@, 0),
        decreases tc@.len() - i,
    {
        assert(tc@.take(i + 1).drop_last() =~= tc@.take(i as int));
        if pattern_idx < pc.len() && tc[i] == pc[pattern_idx] {
            pattern_idx += 1;
        }
        i += 1;
    }
    assert(tc@.take(tc@.len() as int) =~= tc@);
    if pattern_idx == pc.len() {
        100
    } else {
        0
    }
}

/// Whether an item fits a query: its label or its description matches it.
pub open spec fn item_fits(item: PaletteItem, query: Seq<char>) -> bool {
    fuzzy_matches(item.label@, query) || match item.description {
        Some(d) => fuzzy_matches(d@, query),
        None => false,
    }
}

/// The items that fit a query, in order.
pub open spec fn fitting_items(items: Seq<PaletteItem>, query: Seq<char>) -> Seq<PaletteItem>
    decreases items.len(),
{
    if items.len() == 0 {
        Seq::empty()
    } else {
        let rest = fitting_items(items.drop_last(), query);
        if item_fits(items.last(), query) {
            rest.push(items.last())
        } else {
            rest
        }
    }
}

/// The items to show for a query: all of them for an empty query, else
/// those whose label or description matches it, in order.
pub fn filter_palette_items(items: Vec<PaletteItem>, query: &str) -> (r: Vec<PaletteItem>)
    ensures
        query@.len() == 0 ==> r@ == items@,
        query@.len() > 0 ==> r@ == fitting_items(items@, query@),
{
    if query.is_empty() {
        return items;
    }
    let ghost all = items@;
    let mut out: Vec<PaletteItem> = Vec::new();
    for item in it: items
        invariant
            it.seq() == all,
            out@ == fitting_items(all.take(it.index() as int), query@),
    {
        let ghost idx = it.index();
        let mut fits = fuzzy_match(item.label.as_str(), query);
        if !fits {
            match &item.description {
                Some(d) => {
                    fits = fuzzy_match(d.as_str(), query);
                },
                None => {},
            }
        }
        assert(all.take(idx + 1).drop_last() =~= all.take(idx));
        assert(all.take(idx + 1).last() == item);
        if fits {
            out.push(item);
        }
    }
    assert(all.take(all.len() as int) =~= all);
    out
}

/// An exact match scores above every other: a text matches itself with
/// the highest score, and no other text scores that much unless it is the
/// pattern up to case.
pub proof fn lemma_exact_match_scores_highest(text: Seq<char>, pattern: Seq<char>)
    ensures
        match_score(text, text) == 1000,
        match_score(text, pattern) <= 1000,
        match_score(text, pattern) == 1000 <==> spec_to_lowercase(text) == spec_to_lowercase(pattern),
{
}

/// The project files the palette offers while the host gives no listing.
pub fn project_files() -> (r: Vec<String>)
    ensures
        r@.len() == 4,
        r@[0]@ == "src/main.rs"@,
        r@[1]@ == "src/editor.rs"@,
        r@[2]@ == "src/file_tree.rs"@,
        r@[3]@ == "Cargo.toml"@,
{
    vec!["src/main.rs".to_string(), "src/editor.rs".to_string(), "src/file_tree.rs".to_string(), "Cargo.toml".to_string()]
}

/// A palette item as values: id, label, description, kind, icon and
/// action.
pub open spec fn item_view(i: PaletteItem) -> (Seq<char>, Seq<char>, Option<Seq<char>>, ActionType, Seq<char>, Seq<char>) {
    (i.id@, i.label@, match i.description {
        Some(d) => Some(d@),
        None => None,
    }, i.action_type, i.icon@, i.action@)
}

/// The item that opens file `f`.
pub open spec fn file_item(f: Seq<char>) -> (Seq<char>, Seq<char>, Option<Seq<char>>, ActionType, Seq<char>, Seq<char>) {
    ("file:"@ + f, f, None, ActionType::File, "\u{1F4C4}"@, "open:"@ + f)
}

/// The palette's fixed items, after the files: three git actions, three
/// editor actions and the settings.
pub open spec fn fixed_items() -> Seq<(Seq<char>, Seq<char>, Option<Seq<char>>, ActionType, Seq<char>, Seq<char>)> {
    seq![
        ("git:commit"@, "Git: Commit"@, Some("Create a new commit"@), ActionType::GitAction, "\u{1F527}"@, "git:commit"@),
        ("git:push"@, "Git: Push"@, Some("Push to remote"@), ActionType::GitAction, "\u{1F527}"@, "git:push"@),
        ("git:pull"@, "Git: Pull"@, Some("Pull from remote"@), ActionType::GitAction, "\u{1F527}"@, "git:pull"@),
        ("editor:save"@, "File: Save"@, Some("Save current file"@), ActionType::EditorAction, "\u{1F4BE}"@, "editor:save"@),
        ("editor:close"@, "File: Close"@, Some("Close current file"@), ActionType::EditorAction, "\u{274C}"@, "editor:close"@),
        ("editor:format"@, "Format Document"@, Some("Format the current file"@), ActionType::EditorAction, "\u{2728}"@, "editor:format"@),
        ("settings:open"@, "Settings"@, Some("Open settings"@), ActionType::Settings, "\u{2699}\u{FE0F}"@, "settings:open"@),
    ]
}

fn action_item(id: &str, label: &str, description: &str, action_type: ActionType, icon: &str) -> (r: PaletteItem)
    ensures
        item_view(r) == (id@, label@, Some(description@), action_type, icon@, id@),
{
    PaletteItem {
        id: id.to_string(),
        label: label.to_string(),
        description: Some(description.to_string()),
        action_type,
        icon: icon.to_string(),
        action: id.to_string(),
    }
}

/// The palette's items: one per project file, in order, then the fixed
/// items.
pub fn palette_items(files: &Vec<String>) -> (r: Vec<PaletteItem>)
    ensures
        r@.len() == files@.len() + 7,
        forall|i: int| 0 <= i < files@.len() ==> item_view(#[trigger] r@[i]) == file_item(files@[i]@),
        forall|k: int| 0 <= k < 7 ==> item_view(#[trigger] r@[files@.len() + k]) == fixed_items()[k],
{
    let mut items: Vec<PaletteItem> = Vec::new();
    let mut i: usize = 0;
    while i < files.len()
        invariant
            i <= files@.len(),
            items@.len() == i,
            forall|j: int| 0 <= j < i ==> item_view(#[trigger] items@[j]) == file_item(files@[j]@),
        decreases files@.len() - i,
    {
        let f = files[i].as_str();
        items.push(PaletteItem {
            id: append("file:".to_string(), f),
            label: f.to_string(),
            description: None,
            action_type: ActionType::File,
            icon: "\u{1F4C4}".to_string(),
            action: append("open:".to_string(), f),
        });
        i += 1;
    }
    let n = items.len();
    items.push(action_item("git:commit", "Git: Commit", "Create a new commit", ActionType::GitAction, "\u{1F527}"));
    items.push(action_item("git:push", "Git: Push", "Push to remote", ActionType::GitAction, "\u{1F527}"));
    items.push(action_item("git:pull", "Git: Pull", "Pull from remote", ActionType::GitAction, "\u{1F527}"));
    items.push(action_item("editor:save", "File: Save", "Save current file", ActionType::EditorAction, "\u{1F4BE}"));
    items.push(action_item("editor:close", "File: Close", "Close current file", ActionType::EditorAction, "\u{274C}"));
    items.push(action_item("editor:format", "Format Document", "Format the current file", ActionType::EditorAction, "\u{2728}"));
    items.push(action_item("settings:open", "Settings", "Open settings", ActionType::Settings, "\u{2699}\u{FE0F}"));
    assert forall|k: int| 0 <= k < 7 implies item_view(#[trigger] items@[n + k]) == fixed_items()[k] by {}
    items
}

/// What a key does in the palette with `selected` the selected index
/// among `count` items: Down and Up move (within the list), Enter chooses
/// the selected item when there is one, Escape closes the palette.
pub open spec fn palette_key_action(key: Seq<char>, selected: usize, count: usize) -> CompletionKeyAction {
    if key == "ArrowDown"@ {
        let last: int = if count == 0 { 0 } else { count - 1 };
        CompletionKeyAction::Select(if selected + 1 <= last { (selected + 1) as usize } else { last as usize })
    } else if key == "ArrowUp"@ {
        CompletionKeyAction::Select(if selected == 0 { 0usize } else { (selected - 1) as usize })
    } else if key == "Enter"@ {
        if selected < count { CompletionKeyAction::Choose(selected) } else { CompletionKeyAction::Ignore }
    } else if key == "Escape"@ {
        CompletionKeyAction::Close
    } else {
        CompletionKeyAction::Ignore
    }
}

/// What a key does in the palette.
pub fn palette_key(key: &str, selected: usize, count: usize) -> (r: CompletionKeyAction)
    ensures
        r == palette_key_action(key@, selected, count),
{
    if str_eq(key, "ArrowDown") {
        let last = if count == 0 { 0 } else { count - 1 };
        CompletionKeyAction::Select(if selected < last { selected + 1 } else { last })
    } else if str_eq(key, "ArrowUp") {
        CompletionKeyAction::Select(if selected == 0 { 0 } else { selected - 1 })
    } else if str_eq(key, "Enter") {
        if selected < count {
            CompletionKeyAction::Choose(selected)
        } else {
            CompletionKeyAction::Ignore
        }
    } else if str_eq(key, "Escape") {
        CompletionKeyAction::Close
    } else {
        CompletionKeyAction::Ignore
    }
}

} // verus!
