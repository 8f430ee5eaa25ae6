//! An open file in the editor: its buffer, the cursor, the selection, and
//! the undo and redo histories.
//!
//! Positions are a line and a character column, both from 0; a position
//! stands for the character at the start of its line plus its column.

use vstd::prelude::*;
use crate::buffer::{
    after_insert, after_remove, line_count, line_start, line_text, removes_something, BufferView, TextBuffer,
    breaks_before, clamp, lemma_line_of_index, lemma_line_span, lemma_line_text_len, break_ends_at,
};
use vstd::utf8::encode_utf8;
use crate::text::{chars_of, ends_with, ends_with_chars, str_eq};

verus! {

broadcast use vstd::string::group_string_axioms;

/// The most states the undo history keeps.
pub const MAX_UNDO: usize = 100;

/// A state to go back to: the buffer and the cursor.
pub struct EditorSnapshot {
    pub buffer: TextBuffer,
    pub cursor_line: usize,
    pub cursor_col: usize,
}

/// A snapshot as a value.
pub struct SnapshotView {
    pub buffer: BufferView,
    pub cursor_line: usize,
    pub cursor_col: usize,
}

impl View for EditorSnapshot {
    type V = SnapshotView;

    open spec fn view(&self) -> SnapshotView {
        SnapshotView { buffer: self.buffer@, cursor_line: self.cursor_line, cursor_col: self.cursor_col }
    }
}

/// The values of a history.
pub open spec fn snapshot_views(s: Seq<EditorSnapshot>) -> Seq<SnapshotView> {
    s.map_values(|x: EditorSnapshot| x@)
}

/// A history with a state pushed, dropping the oldest beyond the limit.
pub open spec fn pushed_capped(s: Seq<SnapshotView>, x: SnapshotView) -> Seq<SnapshotView> {
    let t = s.push(x);
    if t.len() > MAX_UNDO {
        t.drop_first()
    } else {
        t
    }
}

/// The undo and redo histories, with the state between them.
pub struct History {
    pub current: SnapshotView,
    pub undo: Seq<SnapshotView>,
    pub redo: Seq<SnapshotView>,
}

/// The histories after recording the current state: it is pushed for undo
/// (dropping the oldest beyond the limit) and nothing is left to redo.
pub open spec fn saved(h: History) -> History {
    History { current: h.current, undo: pushed_capped(h.undo, h.current), redo: Seq::empty() }
}

/// The histories after an undo: the last recorded state becomes current,
/// and the current one can be redone. Nothing changes with nothing to
/// undo.
pub open spec fn undone(h: History) -> History {
    if h.undo.len() == 0 {
        h
    } else {
        History { current: h.undo.last(), undo: h.undo.drop_last(), redo: h.redo.push(h.current) }
    }
}

/// The histories after a redo, the mirror of an undo.
pub open spec fn redone(h: History) -> History {
    if h.redo.len() == 0 {
        h
    } else {
        History { current: h.redo.last(), redo: h.redo.drop_last(), undo: h.undo.push(h.current) }
    }
}

/// Undoing and then redoing gives back the same state and histories.
pub proof fn lemma_undo_then_redo(h: History)
    requires
        h.undo.len() > 0,
    ensures
        redone(undone(h)) == h,
{
    assert(undone(h).redo.drop_last() =~= h.redo);
    assert(h.undo.drop_last().push(h.undo.last()) =~= h.undo);
}

/// Redoing and then undoing gives back the same state and histories.
pub proof fn lemma_redo_then_undo(h: History)
    requires
        h.redo.len() > 0,
    ensures
        undone(redone(h)) == h,
{
    assert(redone(h).undo.drop_last() =~= h.undo);
    assert(h.redo.drop_last().push(h.redo.last()) =~= h.redo);
}

/// Undoing right after recording a state goes back to that state, and
/// leaves the undo history as it was unless the oldest state had to be
/// dropped.
pub proof fn lemma_save_then_undo(h: History)
    ensures
        undone(saved(h)).current == h.current,
        h.undo.len() < MAX_UNDO ==> undone(saved(h)).undo == h.undo,
        undone(saved(h)).redo == seq![h.current],
{
    assert(h.undo.push(h.current).drop_last() =~= h.undo);
    assert(Seq::<SnapshotView>::empty().push(h.current) =~= seq![h.current]);
    if h.undo.len() >= MAX_UNDO {
        let t = h.undo.push(h.current);
        assert(t.drop_first().last() == h.current);
    }
}

/// The histories never hold more than the limit between them: recording,
/// undoing and redoing all keep that bound.
pub proof fn lemma_history_bound(h: History)
    requires
        h.undo.len() + h.redo.len() <= MAX_UNDO,
    ensures
        saved(h).undo.len() + saved(h).redo.len() <= MAX_UNDO,
        undone(h).undo.len() + undone(h).redo.len() <= MAX_UNDO,
        redone(h).undo.len() + redone(h).redo.len() <= MAX_UNDO,
{
}

/// The language to highlight a file in, by its extension: Rust for `.rs`,
/// JavaScript for `.js` and `.jsx`, Python for `.py`, none otherwise.
pub open spec fn highlight_language_of(path: Seq<char>) -> Option<Seq<char>> {
    if ends_with(path, ".rs"@) {
        Some("rust"@)
    } else if ends_with(path, ".js"@) || ends_with(path, ".jsx"@) {
        Some("javascript"@)
    } else if ends_with(path, ".py"@) {
        Some("python"@)
    } else {
        None
    }
}

/// A selection's ends in reading order.
pub open spec fn ordered(a: (usize, usize), b: (usize, usize)) -> ((usize, usize), (usize, usize)) {
    if a.0 < b.0 || (a.0 == b.0 && a.1 <= b.1) {
        (a, b)
    } else {
        (b, a)
    }
}

/// The character index of a position in a text.
pub open spec fn char_index_of(t: Seq<char>, p: (usize, usize)) -> int {
    line_start(t, p.0 as int) + p.1
}

/// Whether a position can be turned into a character index: its line is
/// at most one past the last, and the index fits in `usize`.
pub open spec fn position_ok(t: Seq<char>, p: (usize, usize)) -> bool {
    p.0 <= line_count(t) && char_index_of(t, p) <= usize::MAX
}

/// An open file.
pub struct EditorTab {
    file_path: String,
    buffer: TextBuffer,
    cursor_line: usize,
    cursor_col: usize,
    selection_start: Option<(usize, usize)>,
    selection_end: Option<(usize, usize)>,
    undo_stack: Vec<EditorSnapshot>,
    redo_stack: Vec<EditorSnapshot>,
    highlight_language: Option<String>,
}

impl EditorTab {
    pub closed spec fn spec_file_path(&self) -> Seq<char> {
        self.file_path@
    }

    pub closed spec fn spec_buffer(&self) -> BufferView {
        self.buffer@
    }

    /// The cursor: a line and a column.
    pub closed spec fn spec_cursor(&self) -> (usize, usize) {
        (self.cursor_line, self.cursor_col)
    }

    pub closed spec fn spec_selection_start(&self) -> Option<(usize, usize)> {
        self.selection_start
    }

    pub closed spec fn spec_selection_end(&self) -> Option<(usize, usize)> {
        self.selection_end
    }

    /// The states undo goes back to, the latest last.
    pub closed spec fn spec_undo(&self) -> Seq<SnapshotView> {
        snapshot_views(self.undo_stack@)
    }

    /// The states redo goes forward to, the latest last.
    pub closed spec fn spec_redo(&self) -> Seq<SnapshotView> {
        snapshot_views(self.redo_stack@)
    }

    pub closed spec fn spec_highlight_language(&self) -> Option<Seq<char>> {
        match self.highlight_language {
            Some(l) => Some(l@),
            None => None,
        }
    }

    /// The buffer, cursor and selection.
    pub open spec fn edit_state(&self) -> EditState {
        EditState {
            buffer: self.spec_buffer(),
            cursor: self.spec_cursor(),
            sel_start: self.spec_selection_start(),
            sel_end: self.spec_selection_end(),
        }
    }

    /// The current state and the histories.
    pub open spec fn history(&self) -> History {
        History { current: self.current(), undo: self.spec_undo(), redo: self.spec_redo() }
    }

    /// The current state, as a snapshot.
    pub open spec fn current(&self) -> SnapshotView {
        SnapshotView { buffer: self.spec_buffer(), cursor_line: self.spec_cursor().0, cursor_col: self.spec_cursor().1 }
    }

    /// Whether both ends of a selection are set.
    pub open spec fn spec_has_selection(&self) -> bool {
        self.spec_selection_start() is Some && self.spec_selection_end() is Some
    }

    /// The selection's ends in reading order (when there is a selection).
    pub open spec fn selection_range(&self) -> ((usize, usize), (usize, usize)) {
        ordered(self.spec_selection_start()->0, self.spec_selection_end()->0)
    }

    /// Whether the selection's ends can be turned into character indices.
    pub open spec fn selection_ok(&self) -> bool {
        self.spec_has_selection() ==> {
            let (s, e) = self.selection_range();
            position_ok(self.spec_buffer().text, s) && position_ok(self.spec_buffer().text, e)
        }
    }

    /// A tab holding `content` for `file_path`: the cursor at the start,
    /// no selection, no history.
    pub fn new(file_path: String, content: String) -> (r: Self)
        ensures
            r.spec_file_path() == file_path@,
            r.spec_buffer() == TextBuffer::from_str_view(content@),
            r.spec_cursor() == (0usize, 0usize),
            r.spec_selection_start() is None,
            r.spec_selection_end() is None,
            r.spec_undo() == Seq::<SnapshotView>::empty(),
            r.spec_redo() == Seq::<SnapshotView>::empty(),
            r.spec_highlight_language() == highlight_language_of(file_path@),
    {
        let p = chars_of(file_path.as_str());
        let highlight_language = if has_suffix(p.as_slice(), ".rs") {
            Some("rust".to_string())
        } else if has_suffix(p.as_slice(), ".js") || has_suffix(p.as_slice(), ".jsx") {
            Some("javascript".to_string())
        } else if has_suffix(p.as_slice(), ".py") {
            Some("python".to_string())
        } else {
            None
        };
        let r = Self {
            file_path,
            buffer: TextBuffer::from_str(content.as_str()),
            cursor_line: 0,
            cursor_col: 0,
            selection_start: None,
            selection_end: None,
            undo_stack: Vec::new(),
            redo_stack: Vec::new(),
            highlight_language,
        };
        assert(r.spec_undo() =~= Seq::<SnapshotView>::empty());
        assert(r.spec_redo() =~= Seq::<SnapshotView>::empty());
        r
    }

    fn snapshot(&self) -> (r: EditorSnapshot)
        ensures
            r@ == self.current(),
    {
        EditorSnapshot { buffer: self.buffer.duplicate(), cursor_line: self.cursor_line, cursor_col: self.cursor_col }
    }

    /// Records the current state for undo, dropping the oldest beyond the
    /// limit; a new edit forgets what could be redone.
    pub fn save_undo_state(&mut self)
        ensures
            final(self).history() == saved(old(self).history()),
            final(self).spec_selection_start() == old(self).spec_selection_start(),
            final(self).spec_selection_end() == old(self).spec_selection_end(),
            final(self).spec_file_path() == old(self).spec_file_path(),
            final(self).spec_highlight_language() == old(self).spec_highlight_language(),
    {
        let snap = self.snapshot();
        let ghost u0 = self.spec_undo();
        self.undo_stack.push(snap);
        assert(self.spec_undo() =~= u0.push(old(self).current()));
        if self.undo_stack.len() > MAX_UNDO {
            let ghost u1 = self.undo_stack@;
            let _ = self.undo_stack.remove(0);
            assert(self.spec_undo() =~= snapshot_views(u1).drop_first());
        }
        self.redo_stack.clear();
        assert(self.spec_redo() =~= Seq::<SnapshotView>::empty());
    }

    /// Goes back to the last recorded state, keeping the current one for
    /// redo, and clears the selection; false, changing nothing, when there
    /// is nothing to undo.
    pub fn undo(&mut self) -> (r: bool)
        ensures
            final(self).history() == undone(old(self).history()),
            r == (old(self).spec_undo().len() > 0),
            !r ==> final(self).spec_selection_start() == old(self).spec_selection_start()
                && final(self).spec_selection_end() == old(self).spec_selection_end(),
            r ==> final(self).spec_selection_start() is None && final(self).spec_selection_end() is None,
            final(self).spec_file_path() == old(self).spec_file_path(),
            final(self).spec_highlight_language() == old(self).spec_highlight_language(),
    {
        let ghost u0 = self.undo_stack@;
        match self.undo_stack.pop() {
            Some(snapshot) => {
                let ghost r0 = self.spec_redo();
                let redo_snapshot = self.snapshot();
                self.redo_stack.push(redo_snapshot);
                assert(self.spec_redo() =~= r0.push(old(self).current()));
                self.buffer = snapshot.buffer;
                self.cursor_line = snapshot.cursor_line;
                self.cursor_col = snapshot.cursor_col;
                self.clear_selection();
                assert(self.spec_undo() =~= snapshot_views(u0).drop_last());
                true
            },
            None => false,
        }
    }

    /// Goes forward to the last undone state, keeping the current one for
    /// undo, and clears the selection; false, changing nothing, when there
    /// is nothing to redo.
    pub fn redo(&mut self) -> (r: bool)
        ensures
            final(self).history() == redone(old(self).history()),
            r == (old(self).spec_redo().len() > 0),
            !r ==> final(self).spec_selection_start() == old(self).spec_selection_start()
                && final(self).spec_selection_end() == old(self).spec_selection_end(),
            r ==> final(self).spec_selection_start() is None && final(self).spec_selection_end() is None,
            final(self).spec_file_path() == old(self).spec_file_path(),
            final(self).spec_highlight_language() == old(self).spec_highlight_language(),
    {
        let ghost r0 = self.redo_stack@;
        match self.redo_stack.pop() {
            Some(snapshot) => {
                let ghost u0 = self.spec_undo();
                let undo_snapshot = self.snapshot();
                self.undo_stack.push(undo_snapshot);
                assert(self.spec_undo() =~= u0.push(old(self).current()));
                self.buffer = snapshot.buffer;
                self.cursor_line = snapshot.cursor_line;
                self.cursor_col = snapshot.cursor_col;
                self.clear_selection();
                assert(self.spec_redo() =~= snapshot_views(r0).drop_last());
                true
            },
            None => false,
        }
    }

    /// Whether both ends of the selection are set.
    pub fn has_selection(&self) -> (r: bool)
        ensures
            r == self.spec_has_selection(),
    {
        self.selection_start.is_some() && self.selection_end.is_some()
    }

    /// Forgets the selection.
    pub fn clear_selection(&mut self)
        ensures
            final(self).spec_selection_start() is None,
            final(self).spec_selection_end() is None,
            final(self).current() == old(self).current(),
            final(self).spec_undo() == old(self).spec_undo(),
            final(self).spec_redo() == old(self).spec_redo(),
            final(self).spec_file_path() == old(self).spec_file_path(),
            final(self).spec_highlight_language() == old(self).spec_highlight_language(),
    {
        self.selection_start = None;
        self.selection_end = None;
    }

    /// The character index of a position of the buffer.
    fn index_of_position(&self, p: (usize, usize)) -> (r: usize)
        requires
            position_ok(self.spec_buffer().text, p),
        ensures
            r == char_index_of(self.spec_buffer().text, p),
    {
        self.buffer.line_to_char(p.0) + p.1
    }

    /// The selected text, if there is a selection and its range lies in
    /// the text.
    pub fn get_selected_text(&self) -> (r: Option<String>)
        requires
            self.selection_ok(),
        ensures
            !self.spec_has_selection() ==> r is None,
            self.spec_has_selection() ==> ({
                let t = self.spec_buffer().text;
                let (s, e) = self.selection_range();
                let a = char_index_of(t, s);
                let b = char_index_of(t, e);
                if a <= b <= t.len() {
                    r matches Some(x) && x@ == t.subrange(a, b)
                } else {
                    r is None
                }
            }),
    {
        if !self.has_selection() {
            return None;
        }
        let (s, e) = self.selection_bounds();
        let start_char = self.index_of_position(s);
        let end_char = self.index_of_position(e);
        self.buffer.slice(start_char, end_char)
    }

    fn selection_bounds(&self) -> (r: ((usize, usize), (usize, usize)))
        requires
            self.spec_has_selection(),
        ensures
            r == self.selection_range(),
    {
        let a = self.selection_start.unwrap();
        let b = self.selection_end.unwrap();
        if a.0 < b.0 || (a.0 == b.0 && a.1 <= b.1) {
            (a, b)
        } else {
            (b, a)
        }
    }

    /// Removes the selected text, moves the cursor to where it started, and
    /// clears the selection; does nothing without a selection.
    pub fn delete_selection(&mut self)
        requires
            sel_delete_ok(old(self).edit_state()),
        ensures
            final(self).edit_state() == sel_deleted(old(self).edit_state()),
            final(self).spec_undo() == old(self).spec_undo(),
            final(self).spec_redo() == old(self).spec_redo(),
            final(self).spec_file_path() == old(self).spec_file_path(),
            final(self).spec_highlight_language() == old(self).spec_highlight_language(),
    {
        if !self.has_selection() {
            return;
        }
        let (s, e) = self.selection_bounds();
        let start_char = self.index_of_position(s);
        let end_char = self.index_of_position(e);
        self.buffer.remove(start_char, end_char);
        self.cursor_line = s.0;
        self.cursor_col = s.1;
        self.clear_selection();
    }
}

// ---------------------------------------------------------------------
// Editing by key
// ---------------------------------------------------------------------

/// The editing state of a tab: its buffer, cursor and selection ends.
pub struct EditState {
    pub buffer: BufferView,
    pub cursor: (usize, usize),
    pub sel_start: Option<(usize, usize)>,
    pub sel_end: Option<(usize, usize)>,
}

/// Whether both ends of the selection are set.
pub open spec fn has_sel(st: EditState) -> bool {
    st.sel_start is Some && st.sel_end is Some
}

/// The selection's ends in reading order.
pub open spec fn sel_bounds(st: EditState) -> ((usize, usize), (usize, usize)) {
    ordered(st.sel_start->0, st.sel_end->0)
}

/// The character index of the cursor.
pub open spec fn cursor_index(st: EditState) -> int {
    char_index_of(st.buffer.text, st.cursor)
}

/// Whether the selection's ends can be turned into character indices.
pub open spec fn sel_ok(st: EditState) -> bool {
    has_sel(st) ==> position_ok(st.buffer.text, sel_bounds(st).0) && position_ok(st.buffer.text, sel_bounds(st).1)
}

/// A line without the line feeds at its end.
pub open spec fn without_trailing_lf(s: Seq<char>) -> Seq<char>
    decreases s.len(),
{
    if s.len() > 0 && s.last() == '\n' {
        without_trailing_lf(s.drop_last())
    } else {
        s
    }
}

/// The number of characters of line `l` before its line feed; 0 for a
/// line the text does not have.
pub open spec fn visible_len(t: Seq<char>, l: int) -> nat {
    if 0 <= l < line_count(t) {
        without_trailing_lf(line_text(t, l)).len()
    } else {
        0
    }
}

/// The state after removing the selected text: the cursor goes where the
/// selection started, and the selection is cleared. Unchanged without a
/// selection.
pub open spec fn sel_deleted(st: EditState) -> EditState {
    if !has_sel(st) {
        st
    } else {
        let (s, e) = sel_bounds(st);
        let t = st.buffer.text;
        EditState {
            buffer: after_remove(st.buffer, char_index_of(t, s), char_index_of(t, e)),
            cursor: s,
            sel_start: None,
            sel_end: None,
        }
    }
}

/// Whether removing the selection stays within bounds.
pub open spec fn sel_delete_ok(st: EditState) -> bool {
    has_sel(st) ==> {
        let (s, e) = sel_bounds(st);
        let t = st.buffer.text;
        &&& sel_ok(st)
        &&& removes_something(st.buffer, char_index_of(t, s), char_index_of(t, e)) ==> st.buffer.version < u64::MAX
    }
}

/// The state after inserting `k` at the cursor, the selection removed
/// first: the cursor moves one column on.
pub open spec fn typed(st: EditState, k: Seq<char>) -> EditState {
    let d = sel_deleted(st);
    EditState { buffer: after_insert(d.buffer, cursor_index(d), k), cursor: (d.cursor.0, (d.cursor.1 + 1) as usize), ..d }
}

/// Whether inserting at the cursor (the selection removed first), and
/// moving the cursor `advance` columns on, stays within bounds.
pub open spec fn insert_ok(st: EditState, advance: int) -> bool {
    let d = sel_deleted(st);
    &&& sel_delete_ok(st)
    &&& position_ok(d.buffer.text, d.cursor)
    &&& d.buffer.version < u64::MAX
    &&& d.cursor.1 + advance <= usize::MAX
}

/// The state after Enter: a line feed inserted at the cursor (the
/// selection removed first), and the cursor at the start of the next line.
pub open spec fn entered(st: EditState) -> EditState {
    let d = sel_deleted(st);
    EditState { buffer: after_insert(d.buffer, cursor_index(d), seq!['\n']), cursor: ((d.cursor.0 + 1) as usize, 0usize), ..d }
}

/// The state after Backspace: the selection removed; else the character
/// before the cursor on its line; else, at the start of a line, the line
/// break before it, the cursor going to the end of the previous line.
pub open spec fn backspaced(st: EditState) -> EditState {
    let t = st.buffer.text;
    let (l, c) = st.cursor;
    if has_sel(st) {
        sel_deleted(st)
    } else if c > 0 {
        let i = cursor_index(st) - 1;
        EditState { buffer: after_remove(st.buffer, i, i + 1), cursor: (l, (c - 1) as usize), ..st }
    } else if l > 0 {
        let i = line_start(t, l as int) - 1;
        EditState {
            buffer: after_remove(st.buffer, i, i + 1),
            cursor: ((l - 1) as usize, visible_len(t, l - 1) as usize),
            ..st
        }
    } else {
        st
    }
}

/// Whether Backspace stays within bounds.
pub open spec fn backspace_ok(st: EditState) -> bool {
    let t = st.buffer.text;
    let (l, c) = st.cursor;
    if has_sel(st) {
        sel_delete_ok(st)
    } else if c > 0 {
        let i = cursor_index(st) - 1;
        position_ok(t, st.cursor) && (removes_something(st.buffer, i, i + 1) ==> st.buffer.version < u64::MAX)
    } else if l > 0 {
        let i = line_start(t, l as int) - 1;
        &&& l <= line_count(t)
        &&& line_start(t, l as int) >= 1
        &&& removes_something(st.buffer, i, i + 1) ==> st.buffer.version < u64::MAX
    } else {
        true
    }
}

/// Whether Delete removes a character: the cursor is before the end of its
/// line, or its line is not the last.
pub open spec fn delete_forward_removes(st: EditState) -> bool {
    let t = st.buffer.text;
    st.cursor.1 < visible_len(t, st.cursor.0 as int) || st.cursor.0 < line_count(t) - 1
}

/// The state after Delete: the selection removed; else the character at
/// the cursor, when the cursor is before the end of its line or its line
/// is not the last.
pub open spec fn deleted_forward(st: EditState) -> EditState {
    if has_sel(st) {
        sel_deleted(st)
    } else if delete_forward_removes(st) {
        let i = cursor_index(st);
        EditState { buffer: after_remove(st.buffer, i, i + 1), ..st }
    } else {
        st
    }
}

/// Whether Delete stays within bounds.
pub open spec fn delete_forward_ok(st: EditState) -> bool {
    let i = cursor_index(st);
    if has_sel(st) {
        sel_delete_ok(st)
    } else if delete_forward_removes(st) {
        &&& position_ok(st.buffer.text, st.cursor)
        &&& i + 1 <= usize::MAX
        &&& removes_something(st.buffer, i, i + 1) ==> st.buffer.version < u64::MAX
    } else {
        true
    }
}

/// The state after moving the cursor to `c`: with Shift, the selection
/// extends from where it started (or from the old cursor) to `c`; without,
/// the selection is cleared.
pub open spec fn moved_to(st: EditState, c: (usize, usize), shift: bool) -> EditState {
    if shift {
        EditState {
            cursor: c,
            sel_start: if has_sel(st) { st.sel_start } else { Some(st.cursor) },
            sel_end: Some(c),
            ..st
        }
    } else {
        EditState { cursor: c, sel_start: None, sel_end: None, ..st }
    }
}

/// The smaller of two columns.
pub open spec fn min_col(a: usize, b: nat) -> usize {
    if a <= b {
        a
    } else {
        b as usize
    }
}

/// Where Left moves the cursor: one column back, or to the end of the
/// previous line from the start of a line.
pub open spec fn left_of(t: Seq<char>, p: (usize, usize)) -> (usize, usize) {
    if p.1 > 0 {
        (p.0, (p.1 - 1) as usize)
    } else if p.0 > 0 {
        ((p.0 - 1) as usize, visible_len(t, p.0 - 1) as usize)
    } else {
        p
    }
}

/// Where Right moves the cursor: one column on, or to the start of the
/// next line from the end of a line that is not the last.
pub open spec fn right_of(t: Seq<char>, p: (usize, usize)) -> (usize, usize) {
    if p.1 < visible_len(t, p.0 as int) {
        (p.0, (p.1 + 1) as usize)
    } else if p.0 < line_count(t) - 1 {
        ((p.0 + 1) as usize, 0usize)
    } else {
        p
    }
}

/// Where Up moves the cursor: one line up, no further than that line's
/// end.
pub open spec fn up_of(t: Seq<char>, p: (usize, usize)) -> (usize, usize) {
    if p.0 > 0 {
        ((p.0 - 1) as usize, min_col(p.1, visible_len(t, p.0 - 1)))
    } else {
        p
    }
}

/// Where Down moves the cursor: one line down, unless on the last line,
/// no further than that line's end.
pub open spec fn down_of(t: Seq<char>, p: (usize, usize)) -> (usize, usize) {
    if p.0 < line_count(t) - 1 {
        ((p.0 + 1) as usize, min_col(p.1, visible_len(t, p.0 + 1)))
    } else {
        p
    }
}

/// The lines a page holds.
pub const PAGE_LINES: usize = 20;

/// Where Page Up moves the cursor: a page up (to the first line at most),
/// no further than that line's end.
pub open spec fn page_up_of(t: Seq<char>, p: (usize, usize)) -> (usize, usize) {
    let l = if p.0 >= PAGE_LINES { (p.0 - PAGE_LINES) as usize } else { 0usize };
    (l, min_col(p.1, visible_len(t, l as int)))
}

/// Where Page Down moves the cursor: a page down (to the last line at
/// most), no further than that line's end.
pub open spec fn page_down_of(t: Seq<char>, p: (usize, usize)) -> (usize, usize) {
    let last = line_count(t) - 1;
    let l = if p.0 + PAGE_LINES <= last { (p.0 + PAGE_LINES) as usize } else { last as usize };
    (l, min_col(p.1, visible_len(t, l as int)))
}

/// The state after Page Up or Page Down moves the cursor to `c`: without
/// Shift the selection is cleared; with it, left as it is.
pub open spec fn paged_to(st: EditState, c: (usize, usize), shift: bool) -> EditState {
    if shift {
        EditState { cursor: c, ..st }
    } else {
        EditState { cursor: c, sel_start: None, sel_end: None, ..st }
    }
}

/// The state after selecting everything: from the start to the end of the
/// last line; the cursor stays.
pub open spec fn all_selected(st: EditState) -> EditState {
    let t = st.buffer.text;
    let last = (line_count(t) - 1) as usize;
    EditState { sel_start: Some((0usize, 0usize)), sel_end: Some((last, visible_len(t, last as int) as usize)), ..st }
}

/// The selected text, when there is a selection whose range lies in the
/// text.
pub open spec fn selected_text(st: EditState) -> Option<Seq<char>> {
    let t = st.buffer.text;
    if !has_sel(st) {
        None
    } else {
        let a = char_index_of(t, sel_bounds(st).0);
        let b = char_index_of(t, sel_bounds(st).1);
        if a <= b <= t.len() {
            Some(t.subrange(a, b))
        } else {
            None
        }
    }
}

/// What Copy puts on the clipboard: the selected text, or else the whole
/// cursor line with its break.
pub open spec fn copied(st: EditState) -> Option<Seq<char>> {
    let t = st.buffer.text;
    match selected_text(st) {
        Some(x) => Some(x),
        None => if st.cursor.0 < line_count(t) {
            Some(line_text(t, st.cursor.0 as int))
        } else {
            None
        },
    }
}

/// The line and column of the character index `k` of a text.
pub open spec fn position_of(t: Seq<char>, k: int) -> (usize, usize) {
    let l = breaks_before(t, k);
    (l as usize, (k - line_start(t, l as int)) as usize)
}

/// The state after pasting `clip`: inserted at the cursor (the selection
/// removed first), the cursor going to the end of the pasted text;
/// unchanged for an empty clip.
pub open spec fn pasted(st: EditState, clip: Seq<char>) -> EditState {
    if clip.len() == 0 {
        st
    } else {
        let d = sel_deleted(st);
        let b = after_insert(d.buffer, cursor_index(d), clip);
        EditState {
            buffer: b,
            cursor: position_of(b.text, clamp(cursor_index(d), d.buffer.text.len() as int) + clip.len()),
            ..d
        }
    }
}

/// The state after Cut: the selected text removed as Delete removes it;
/// or else the whole cursor line removed, with its line break, the cursor
/// going to the start of the line.
pub open spec fn cut_state(st: EditState) -> EditState {
    let t = st.buffer.text;
    let l = st.cursor.0;
    if selected_text(st) is Some {
        sel_deleted(st)
    } else if l < line_count(t) {
        let s = line_start(t, l as int);
        let e = s + line_text(t, l as int).len();
        EditState { buffer: after_remove(st.buffer, s, e), cursor: (l, 0usize), ..st }
    } else {
        st
    }
}

/// Whether Cut stays within bounds.
pub open spec fn cut_ok(st: EditState) -> bool {
    let t = st.buffer.text;
    let l = st.cursor.0;
    &&& sel_ok(st)
    &&& if selected_text(st) is Some {
        sel_delete_ok(st)
    } else if l < line_count(t) {
        let s = line_start(t, l as int);
        let e = s + line_text(t, l as int).len();
        &&& e <= usize::MAX
        &&& removes_something(st.buffer, s, e) ==> st.buffer.version < u64::MAX
    } else {
        true
    }
}

/// Whether everything but the buffer, cursor and selection is as before.
pub open spec fn same_file(a: &EditorTab, b: &EditorTab) -> bool {
    a.spec_file_path() == b.spec_file_path() && a.spec_highlight_language() == b.spec_highlight_language()
}

/// Whether the histories are as before.
pub open spec fn same_history(a: &EditorTab, b: &EditorTab) -> bool {
    a.spec_undo() == b.spec_undo() && a.spec_redo() == b.spec_redo()
}

/// Whether `b` recorded the state of `a` for undo before editing.
pub open spec fn recorded(a: &EditorTab, b: &EditorTab) -> bool {
    b.spec_undo() == saved(a.history()).undo && b.spec_redo() == Seq::<SnapshotView>::empty()
}

impl EditorTab {
    /// The number of characters of line `l` before its line feed.
    fn visible_line_len(&self, l: usize) -> (r: usize)
        ensures
            r == visible_len(self.spec_buffer().text, l as int),
    {
        match self.buffer.line(l) {
            Some(line) => {
                let cs = chars_of(line.as_str());
                let mut n = cs.len();
                assert(cs@.take(n as int) =~= cs@);
                while n > 0 && cs[n - 1] == '\n'
                    invariant
                        n <= cs@.len(),
                        without_trailing_lf(cs@) == without_trailing_lf(cs@.take(n as int)),
                    decreases n,
                {
                    assert(cs@.take(n as int).drop_last() =~= cs@.take(n - 1));
                    n -= 1;
                }
                proof {
                    if n > 0 {
                        assert(cs@.take(n as int).last() == cs@[n - 1]);
                    }
                }
                n
            },
            None => 0,
        }
    }

    /// The character index of the cursor.
    fn cursor_char(&self) -> (r: usize)
        requires
            position_ok(self.spec_buffer().text, self.spec_cursor()),
        ensures
            r == cursor_index(self.edit_state()),
    {
        self.index_of_position((self.cursor_line, self.cursor_col))
    }

    /// Types `k` at the cursor, replacing the selection, and moves the
    /// cursor one column on.
    pub fn type_text(&mut self, k: &str)
        requires
            insert_ok(old(self).edit_state(), 1),
        ensures
            final(self).edit_state() == typed(old(self).edit_state(), k@),
            recorded(old(self), final(self)),
            same_file(old(self), final(self)),
    {
        self.save_undo_state();
        if self.has_selection() {
            self.delete_selection();
        }
        let char_idx = self.cursor_char();
        self.buffer.insert(char_idx, k);
        self.cursor_col = self.cursor_col + 1;
    }

    /// Backspace: removes the selection, or the character before the
    /// cursor, or the line break before the cursor line.
    pub fn backspace(&mut self)
        requires
            backspace_ok(old(self).edit_state()),
        ensures
            final(self).edit_state() == backspaced(old(self).edit_state()),
            recorded(old(self), final(self)),
            same_file(old(self), final(self)),
    {
        self.save_undo_state();
        if self.has_selection() {
            self.delete_selection();
        } else if self.cursor_col > 0 {
            proof {
                crate::buffer::lemma_line_start_bounds(self.spec_buffer().text, self.cursor_line as int);
            }
            let char_idx = self.cursor_char() - 1;
            self.buffer.remove(char_idx, char_idx + 1);
            self.cursor_col = self.cursor_col - 1;
        } else if self.cursor_line > 0 {
            let prev_line_len = self.visible_line_len(self.cursor_line - 1);
            let char_idx = self.buffer.line_to_char(self.cursor_line) - 1;
            self.buffer.remove(char_idx, char_idx + 1);
            self.cursor_line = self.cursor_line - 1;
            self.cursor_col = prev_line_len;
        }
    }

    /// Delete: removes the selection, or the character at the cursor unless
    /// the cursor is at the end of the last line.
    pub fn delete_forward(&mut self)
        requires
            delete_forward_ok(old(self).edit_state()),
        ensures
            final(self).edit_state() == deleted_forward(old(self).edit_state()),
            recorded(old(self), final(self)),
            same_file(old(self), final(self)),
    {
        self.save_undo_state();
        if self.has_selection() {
            self.delete_selection();
        } else {
            let line_len = self.visible_line_len(self.cursor_line);
            if self.cursor_col < line_len || self.cursor_line < self.buffer.len_lines() - 1 {
                let char_idx = self.cursor_char();
                self.buffer.remove(char_idx, char_idx + 1);
            }
        }
    }

    /// Enter: replaces the selection by a line break and moves the cursor
    /// to the start of the new line.
    pub fn enter(&mut self)
        requires
            insert_ok(old(self).edit_state(), 0),
            sel_deleted(old(self).edit_state()).cursor.0 + 1 <= usize::MAX,
        ensures
            final(self).edit_state() == entered(old(self).edit_state()),
            recorded(old(self), final(self)),
            same_file(old(self), final(self)),
    {
        self.save_undo_state();
        if self.has_selection() {
            self.delete_selection();
        }
        let char_idx = self.cursor_char();
        proof {
            reveal_strlit("\n");
            assert("\n"@ =~= seq!['\n']);
        }
        self.buffer.insert(char_idx, "\n");
        self.cursor_line = self.cursor_line + 1;
        self.cursor_col = 0;
    }

    /// Moves the cursor to `c`, extending the selection with Shift and
    /// clearing it without.
    fn move_cursor(&mut self, c: (usize, usize), shift: bool)
        ensures
            final(self).edit_state() == moved_to(old(self).edit_state(), c, shift),
            same_history(old(self), final(self)),
            same_file(old(self), final(self)),
    {
        if shift {
            if !self.has_selection() {
                self.selection_start = Some((self.cursor_line, self.cursor_col));
            }
            self.cursor_line = c.0;
            self.cursor_col = c.1;
            self.selection_end = Some(c);
        } else {
            self.clear_selection();
            self.cursor_line = c.0;
            self.cursor_col = c.1;
        }
    }

    /// Home: to the start of the cursor line.
    pub fn home(&mut self, shift: bool)
        ensures
            final(self).edit_state() == moved_to(old(self).edit_state(), (old(self).spec_cursor().0, 0usize), shift),
            same_history(old(self), final(self)),
            same_file(old(self), final(self)),
    {
        let c = (self.cursor_line, 0);
        self.move_cursor(c, shift);
    }

    /// End: to the end of the cursor line, before its line feed.
    pub fn end(&mut self, shift: bool)
        ensures
            final(self).edit_state() == moved_to(
                old(self).edit_state(),
                (old(self).spec_cursor().0, visible_len(old(self).spec_buffer().text, old(self).spec_cursor().0 as int) as usize),
                shift,
            ),
            same_history(old(self), final(self)),
            same_file(old(self), final(self)),
    {
        let line_len = self.visible_line_len(self.cursor_line);
        let c = (self.cursor_line, line_len);
        self.move_cursor(c, shift);
    }

    /// Left: one column back, or to the end of the previous line.
    pub fn arrow_left(&mut self, shift: bool)
        ensures
            final(self).edit_state() == moved_to(old(self).edit_state(), left_of(old(self).spec_buffer().text, old(self).spec_cursor()), shift),
            same_history(old(self), final(self)),
            same_file(old(self), final(self)),
    {
        let c = if self.cursor_col > 0 {
            (self.cursor_line, self.cursor_col - 1)
        } else if self.cursor_line > 0 {
            (self.cursor_line - 1, self.visible_line_len(self.cursor_line - 1))
        } else {
            (self.cursor_line, self.cursor_col)
        };
        self.move_cursor(c, shift);
    }

    /// Right: one column on, or to the start of the next line.
    pub fn arrow_right(&mut self, shift: bool)
        ensures
            final(self).edit_state() == moved_to(old(self).edit_state(), right_of(old(self).spec_buffer().text, old(self).spec_cursor()), shift),
            same_history(old(self), final(self)),
            same_file(old(self), final(self)),
    {
        let line_len = self.visible_line_len(self.cursor_line);
        let c = if self.cursor_col < line_len {
            (self.cursor_line, self.cursor_col + 1)
        } else if self.cursor_line < self.buffer.len_lines() - 1 {
            (self.cursor_line + 1, 0)
        } else {
            (self.cursor_line, self.cursor_col)
        };
        self.move_cursor(c, shift);
    }

    /// Up: one line up, no further than its end.
    pub fn arrow_up(&mut self, shift: bool)
        ensures
            final(self).edit_state() == moved_to(old(self).edit_state(), up_of(old(self).spec_buffer().text, old(self).spec_cursor()), shift),
            same_history(old(self), final(self)),
            same_file(old(self), final(self)),
    {
        let c = if self.cursor_line > 0 {
            let line_len = self.visible_line_len(self.cursor_line - 1);
            (self.cursor_line - 1, if self.cursor_col <= line_len { self.cursor_col } else { line_len })
        } else {
            (self.cursor_line, self.cursor_col)
        };
        self.move_cursor(c, shift);
    }

    /// Down: one line down, no further than its end.
    pub fn arrow_down(&mut self, shift: bool)
        ensures
            final(self).edit_state() == moved_to(old(self).edit_state(), down_of(old(self).spec_buffer().text, old(self).spec_cursor()), shift),
            same_history(old(self), final(self)),
            same_file(old(self), final(self)),
    {
        let c = if self.cursor_line < self.buffer.len_lines() - 1 {
            let line_len = self.visible_line_len(self.cursor_line + 1);
            (self.cursor_line + 1, if self.cursor_col <= line_len { self.cursor_col } else { line_len })
        } else {
            (self.cursor_line, self.cursor_col)
        };
        self.move_cursor(c, shift);
    }

    /// Page Up: a page up, no further than that line's end; the selection
    /// is cleared without Shift.
    pub fn page_up(&mut self, shift: bool)
        ensures
            final(self).edit_state() == paged_to(old(self).edit_state(), page_up_of(old(self).spec_buffer().text, old(self).spec_cursor()), shift),
            same_history(old(self), final(self)),
            same_file(old(self), final(self)),
    {
        let l = self.cursor_line.saturating_sub(PAGE_LINES);
        let line_len = self.visible_line_len(l);
        self.cursor_line = l;
        self.cursor_col = if self.cursor_col <= line_len { self.cursor_col } else { line_len };
        if !shift {
            self.clear_selection();
        }
    }

    /// Page Down: a page down, no further than the last line and than that
    /// line's end; the selection is cleared without Shift.
    pub fn page_down(&mut self, shift: bool)
        requires
            old(self).spec_cursor().0 + PAGE_LINES <= usize::MAX,
        ensures
            final(self).edit_state() == paged_to(old(self).edit_state(), page_down_of(old(self).spec_buffer().text, old(self).spec_cursor()), shift),
            same_history(old(self), final(self)),
            same_file(old(self), final(self)),
    {
        let last = self.buffer.len_lines() - 1;
        let l = if self.cursor_line + PAGE_LINES <= last { self.cursor_line + PAGE_LINES } else { last };
        let line_len = self.visible_line_len(l);
        self.cursor_line = l;
        self.cursor_col = if self.cursor_col <= line_len { self.cursor_col } else { line_len };
        if !shift {
            self.clear_selection();
        }
    }

    /// Selects everything, up to the end of the last line.
    pub fn select_all(&mut self)
        ensures
            final(self).edit_state() == all_selected(old(self).edit_state()),
            same_history(old(self), final(self)),
            same_file(old(self), final(self)),
    {
        let last_line = self.buffer.len_lines() - 1;
        let last_col = self.visible_line_len(last_line);
        self.selection_start = Some((0, 0));
        self.selection_end = Some((last_line, last_col));
    }

    /// What Copy takes: the selected text, or else the cursor line.
    pub fn copy_text(&self) -> (r: Option<String>)
        requires
            sel_ok(self.edit_state()),
        ensures
            match copied(self.edit_state()) {
                Some(x) => r matches Some(c) && c@ == x,
                None => r is None,
            },
    {
        match self.get_selected_text() {
            Some(x) => Some(x),
            None => self.buffer.line(self.cursor_line),
        }
    }

    /// Paste: replaces the selection by `text` and moves the cursor to the
    /// end of the pasted text; nothing for an empty text.
    pub fn paste(&mut self, text: &str)
        requires
            text@.len() > 0 ==> insert_ok(old(self).edit_state(), text@.len() as int),
        ensures
            final(self).edit_state() == pasted(old(self).edit_state(), text@),
            text@.len() == 0 ==> same_history(old(self), final(self)),
            text@.len() > 0 ==> recorded(old(self), final(self)),
            same_file(old(self), final(self)),
    {
        if text.is_empty() {
            return;
        }
        self.save_undo_state();
        if self.has_selection() {
            self.delete_selection();
        }
        let char_idx = self.cursor_char();
        let old_len = self.buffer.len_chars();
        self.buffer.insert(char_idx, text);
        let n = chars_of(text).len();
        let at = if char_idx < old_len { char_idx } else { old_len };
        let total = self.buffer.len_chars();
        assert(total == old_len + n);
        let k = at + n;
        let line = self.buffer.char_to_line(k);
        proof {
            lemma_line_of_index(self.buffer.spec_text(), k as int);
        }
        let ls = self.buffer.line_to_char(line);
        self.cursor_line = line;
        self.cursor_col = k - ls;
    }

    /// Cut: removes the selected text, or else the cursor line, and gives
    /// back what was removed.
    pub fn cut_text(&mut self) -> (r: Option<String>)
        requires
            cut_ok(old(self).edit_state()),
        ensures
            final(self).edit_state() == cut_state(old(self).edit_state()),
            match copied(old(self).edit_state()) {
                Some(x) => r matches Some(c) && c@ == x,
                None => r is None,
            },
            recorded(old(self), final(self)),
            same_file(old(self), final(self)),
    {
        self.save_undo_state();
        match self.get_selected_text() {
            Some(x) => {
                self.delete_selection();
                Some(x)
            },
            None => match self.buffer.line(self.cursor_line) {
                Some(line) => {
                    let line_start = self.buffer.line_to_char(self.cursor_line);
                    let line_end = line_start + line.as_str().unicode_len();
                    self.buffer.remove(line_start, line_end);
                    self.cursor_col = 0;
                    Some(line)
                },
                None => None,
            },
        }
    }
}

// ---------------------------------------------------------------------
// Keys
// ---------------------------------------------------------------------

/// What a key press asks of the editor.
#[derive(Debug, Clone, Copy, PartialEq, Eq)]
pub enum KeyCommand {
    Undo,
    Redo,
    Save,
    SelectAll,
    Copy,
    Paste,
    Cut,
    Type,
    Backspace,
    Delete,
    Enter,
    Home,
    End,
    PageUp,
    PageDown,
    Left,
    Right,
    Up,
    Down,
    Unhandled,
}

/// The command of a key, given the modifiers held: with Ctrl or Cmd, `z`
/// undoes, `y` (or Shift and `Z`) redoes, `s` saves, `a` selects all, `c`
/// copies, `v` pastes and `x` cuts; otherwise a one-byte key is typed
/// (without Ctrl or Cmd), and the named editing and moving keys do what
/// they say.
pub open spec fn key_command(key: Seq<char>, ctrl: bool, meta: bool, shift: bool) -> KeyCommand {
    let cmd = ctrl || meta;
    if cmd && key == "z"@ {
        KeyCommand::Undo
    } else if (cmd && key == "y"@) || (cmd && shift && key == "Z"@) {
        KeyCommand::Redo
    } else if cmd && key == "s"@ {
        KeyCommand::Save
    } else if cmd && key == "a"@ {
        KeyCommand::SelectAll
    } else if cmd && key == "c"@ {
        KeyCommand::Copy
    } else if cmd && key == "v"@ {
        KeyCommand::Paste
    } else if cmd && key == "x"@ {
        KeyCommand::Cut
    } else if (encode_utf8(key).len() as usize) == 1 && !ctrl && !meta {
        KeyCommand::Type
    } else if key == "Backspace"@ {
        KeyCommand::Backspace
    } else if key == "Delete"@ {
        KeyCommand::Delete
    } else if key == "Enter"@ {
        KeyCommand::Enter
    } else if key == "Home"@ {
        KeyCommand::Home
    } else if key == "End"@ {
        KeyCommand::End
    } else if key == "PageUp"@ {
        KeyCommand::PageUp
    } else if key == "PageDown"@ {
        KeyCommand::PageDown
    } else if key == "ArrowLeft"@ {
        KeyCommand::Left
    } else if key == "ArrowRight"@ {
        KeyCommand::Right
    } else if key == "ArrowUp"@ {
        KeyCommand::Up
    } else if key == "ArrowDown"@ {
        KeyCommand::Down
    } else {
        KeyCommand::Unhandled
    }
}

/// The command of a key press.
pub fn classify_key(key: &str, ctrl: bool, meta: bool, shift: bool) -> (r: KeyCommand)
    ensures
        r == key_command(key@, ctrl, meta, shift),
{
    let cmd = ctrl || meta;
    if cmd && str_eq(key, "z") {
        KeyCommand::Undo
    } else if (cmd && str_eq(key, "y")) || (cmd && shift && str_eq(key, "Z")) {
        KeyCommand::Redo
    } else if cmd && str_eq(key, "s") {
        KeyCommand::Save
    } else if cmd && str_eq(key, "a") {
        KeyCommand::SelectAll
    } else if cmd && str_eq(key, "c") {
        KeyCommand::Copy
    } else if cmd && str_eq(key, "v") {
        KeyCommand::Paste
    } else if cmd && str_eq(key, "x") {
        KeyCommand::Cut
    } else if key.len() == 1 && !ctrl && !meta {
        KeyCommand::Type
    } else if str_eq(key, "Backspace") {
        KeyCommand::Backspace
    } else if str_eq(key, "Delete") {
        KeyCommand::Delete
    } else if str_eq(key, "Enter") {
        KeyCommand::Enter
    } else if str_eq(key, "Home") {
        KeyCommand::Home
    } else if str_eq(key, "End") {
        KeyCommand::End
    } else if str_eq(key, "PageUp") {
        KeyCommand::PageUp
    } else if str_eq(key, "PageDown") {
        KeyCommand::PageDown
    } else if str_eq(key, "ArrowLeft") {
        KeyCommand::Left
    } else if str_eq(key, "ArrowRight") {
        KeyCommand::Right
    } else if str_eq(key, "ArrowUp") {
        KeyCommand::Up
    } else if str_eq(key, "ArrowDown") {
        KeyCommand::Down
    } else {
        KeyCommand::Unhandled
    }
}

/// The editing state after a command other than undo and redo.
pub open spec fn command_state(st: EditState, cmd: KeyCommand, shift: bool, key: Seq<char>, clip: Seq<char>) -> EditState {
    let t = st.buffer.text;
    let p = st.cursor;
    match cmd {
        KeyCommand::Type => typed(st, key),
        KeyCommand::Backspace => backspaced(st),
        KeyCommand::Delete => deleted_forward(st),
        KeyCommand::Enter => entered(st),
        KeyCommand::Home => moved_to(st, (p.0, 0usize), shift),
        KeyCommand::End => moved_to(st, (p.0, visible_len(t, p.0 as int) as usize), shift),
        KeyCommand::PageUp => paged_to(st, page_up_of(t, p), shift),
        KeyCommand::PageDown => paged_to(st, page_down_of(t, p), shift),
        KeyCommand::Left => moved_to(st, left_of(t, p), shift),
        KeyCommand::Right => moved_to(st, right_of(t, p), shift),
        KeyCommand::Up => moved_to(st, up_of(t, p), shift),
        KeyCommand::Down => moved_to(st, down_of(t, p), shift),
        KeyCommand::SelectAll => all_selected(st),
        KeyCommand::Paste => pasted(st, clip),
        KeyCommand::Cut => cut_state(st),
        _ => st,
    }
}

/// Whether a command records the state for undo first.
pub open spec fn records_undo(cmd: KeyCommand, clip: Seq<char>) -> bool {
    match cmd {
        KeyCommand::Type | KeyCommand::Backspace | KeyCommand::Delete | KeyCommand::Enter | KeyCommand::Cut => true,
        KeyCommand::Paste => clip.len() > 0,
        _ => false,
    }
}

/// Whether a command stays within bounds.
pub open spec fn command_ok(st: EditState, cmd: KeyCommand, clip: Seq<char>) -> bool {
    match cmd {
        KeyCommand::Type => insert_ok(st, 1),
        KeyCommand::Backspace => backspace_ok(st),
        KeyCommand::Delete => delete_forward_ok(st),
        KeyCommand::Enter => insert_ok(st, 0) && sel_deleted(st).cursor.0 + 1 <= usize::MAX,
        KeyCommand::PageDown => st.cursor.0 + PAGE_LINES <= usize::MAX,
        KeyCommand::Copy => sel_ok(st),
        KeyCommand::Paste => clip.len() > 0 ==> insert_ok(st, clip.len() as int),
        KeyCommand::Cut => cut_ok(st),
        _ => true,
    }
}

/// What the editor must do after a key: redraw, put text on the clipboard,
/// or save a file (its path and text).
#[derive(Debug, Clone, PartialEq, Eq)]
pub struct KeyOutcome {
    pub redraw: bool,
    pub clipboard: Option<String>,
    pub save: Option<(String, String)>,
}

impl EditorTab {
    /// Carries out a key command; `key` is the key typed (for `Type`) and
    /// `clipboard` the text to paste (for `Paste`).
    pub fn apply_key(&mut self, cmd: KeyCommand, key: &str, shift: bool, clipboard: &str) -> (r: KeyOutcome)
        requires
            command_ok(old(self).edit_state(), cmd, clipboard@),
        ensures
            same_file(old(self), final(self)),
            cmd == KeyCommand::Undo ==> final(self).history() == undone(old(self).history())
                && r.redraw == (old(self).spec_undo().len() > 0),
            cmd == KeyCommand::Redo ==> final(self).history() == redone(old(self).history())
                && r.redraw == (old(self).spec_redo().len() > 0),
            (cmd == KeyCommand::Undo && old(self).spec_undo().len() > 0) || (cmd == KeyCommand::Redo && old(self).spec_redo().len() > 0)
                ==> final(self).spec_selection_start() is None && final(self).spec_selection_end() is None,
            (cmd == KeyCommand::Undo && old(self).spec_undo().len() == 0) || (cmd == KeyCommand::Redo && old(self).spec_redo().len() == 0)
                ==> final(self).edit_state() == old(self).edit_state(),
            cmd != KeyCommand::Undo && cmd != KeyCommand::Redo ==> ({
                &&& final(self).edit_state() == command_state(old(self).edit_state(), cmd, shift, key@, clipboard@)
                &&& records_undo(cmd, clipboard@) ==> recorded(old(self), final(self))
                &&& !records_undo(cmd, clipboard@) ==> same_history(old(self), final(self))
                &&& r.redraw == (cmd != KeyCommand::Save && cmd != KeyCommand::Copy)
            }),
            cmd == KeyCommand::Copy || cmd == KeyCommand::Cut ==> match copied(old(self).edit_state()) {
                Some(x) => r.clipboard matches Some(c) && c@ == x,
                None => r.clipboard is None,
            },
            cmd != KeyCommand::Copy && cmd != KeyCommand::Cut ==> r.clipboard is None,
            cmd == KeyCommand::Save ==> (r.save matches Some(f) && f.0@ == old(self).spec_file_path()
                && f.1@ == old(self).spec_buffer().text),
            cmd != KeyCommand::Save ==> r.save is None,
    {
        match cmd {
            KeyCommand::Undo => {
                let done = self.undo();
                KeyOutcome { redraw: done, clipboard: None, save: None }
            },
            KeyCommand::Redo => {
                let done = self.redo();
                KeyOutcome { redraw: done, clipboard: None, save: None }
            },
            KeyCommand::Save => {
                let path = self.file_path.clone();
                let content = self.buffer.to_string();
                KeyOutcome { redraw: false, clipboard: None, save: Some((path, content)) }
            },
            KeyCommand::SelectAll => {
                self.select_all();
                KeyOutcome { redraw: true, clipboard: None, save: None }
            },
            KeyCommand::Copy => {
                let c = self.copy_text();
                KeyOutcome { redraw: false, clipboard: c, save: None }
            },
            KeyCommand::Paste => {
                self.paste(clipboard);
                KeyOutcome { redraw: true, clipboard: None, save: None }
            },
            KeyCommand::Cut => {
                let c = self.cut_text();
                KeyOutcome { redraw: true, clipboard: c, save: None }
            },
            KeyCommand::Type => {
                self.type_text(key);
                KeyOutcome { redraw: true, clipboard: None, save: None }
            },
            KeyCommand::Backspace => {
                self.backspace();
                KeyOutcome { redraw: true, clipboard: None, save: None }
            },
            KeyCommand::Delete => {
                self.delete_forward();
                KeyOutcome { redraw: true, clipboard: None, save: None }
            },
            KeyCommand::Enter => {
                self.enter();
                KeyOutcome { redraw: true, clipboard: None, save: None }
            },
            KeyCommand::Home => {
                self.home(shift);
                KeyOutcome { redraw: true, clipboard: None, save: None }
            },
            KeyCommand::End => {
                self.end(shift);
                KeyOutcome { redraw: true, clipboard: None, save: None }
            },
            KeyCommand::PageUp => {
                self.page_up(shift);
                KeyOutcome { redraw: true, clipboard: None, save: None }
            },
            KeyCommand::PageDown => {
                self.page_down(shift);
                KeyOutcome { redraw: true, clipboard: None, save: None }
            },
            KeyCommand::Left => {
                self.arrow_left(shift);
                KeyOutcome { redraw: true, clipboard: None, save: None }
            },
            KeyCommand::Right => {
                self.arrow_right(shift);
                KeyOutcome { redraw: true, clipboard: None, save: None }
            },
            KeyCommand::Up => {
                self.arrow_up(shift);
                KeyOutcome { redraw: true, clipboard: None, save: None }
            },
            KeyCommand::Down => {
                self.arrow_down(shift);
                KeyOutcome { redraw: true, clipboard: None, save: None }
            },
            KeyCommand::Unhandled => KeyOutcome { redraw: true, clipboard: None, save: None },
        }
    }
}

// ---------------------------------------------------------------------
// Whether a key command can be carried out
// ---------------------------------------------------------------------

/// Whether position `p` can be turned into a character index of `b`.
fn position_fits(b: &TextBuffer, p: (usize, usize)) -> (r: bool)
    ensures
        r == position_ok(b@.text, p),
{
    if p.0 > b.len_lines() {
        return false;
    }
    let s = b.line_to_char(p.0);
    p.1 <= usize::MAX - s
}

/// Whether removing `[start, end)` from `b` would remove something.
fn removes_any(b: &TextBuffer, start: usize, end: usize) -> (r: bool)
    ensures
        r == removes_something(b@, start as int, end as int),
{
    let n = b.len_chars();
    let s = if start < n { start } else { n };
    let e = if end < n { end } else { n };
    s < e
}

impl EditorTab {
    /// The selection's ends in reading order, if there is a selection.
    fn ordered_selection(&self) -> (r: Option<((usize, usize), (usize, usize))>)
        ensures
            match r {
                Some(b) => has_sel(self.edit_state()) && b == sel_bounds(self.edit_state()),
                None => !has_sel(self.edit_state()),
            },
    {
        if self.has_selection() {
            Some(self.selection_bounds())
        } else {
            None
        }
    }

    /// Whether the selection's ends can be turned into character indices.
    fn sel_fits(&self) -> (r: bool)
        ensures
            r == sel_ok(self.edit_state()),
    {
        match self.ordered_selection() {
            Some((s, e)) => position_fits(&self.buffer, s) && position_fits(&self.buffer, e),
            None => true,
        }
    }

    /// Whether removing the selection stays within bounds.
    fn sel_delete_fits(&self) -> (r: bool)
        ensures
            r == sel_delete_ok(self.edit_state()),
    {
        match self.ordered_selection() {
            Some((s, e)) => {
                if !(position_fits(&self.buffer, s) && position_fits(&self.buffer, e)) {
                    return false;
                }
                let a = self.index_of_position(s);
                let b = self.index_of_position(e);
                !removes_any(&self.buffer, a, b) || self.buffer.version() < u64::MAX
            },
            None => true,
        }
    }

    /// Whether inserting at the cursor (the selection removed first) and
    /// moving `advance` columns on stays within bounds.
    fn insert_fits(&self, advance: usize) -> (r: bool)
        ensures
            r == insert_ok(self.edit_state(), advance as int),
    {
        if !self.sel_delete_fits() {
            return false;
        }
        match self.ordered_selection() {
            Some((s, e)) => {
                let a = self.index_of_position(s);
                let b = self.index_of_position(e);
                let mut after = self.buffer.duplicate();
                after.remove(a, b);
                position_fits(&after, s) && after.version() < u64::MAX && advance <= usize::MAX - s.1
            },
            None => {
                let c = (self.cursor_line, self.cursor_col);
                position_fits(&self.buffer, c) && self.buffer.version() < u64::MAX
                    && advance <= usize::MAX - self.cursor_col
            },
        }
    }

    /// Whether Backspace stays within bounds.
    fn backspace_fits(&self) -> (r: bool)
        ensures
            r == backspace_ok(self.edit_state()),
    {
        if self.has_selection() {
            return self.sel_delete_fits();
        }
        let (l, c) = (self.cursor_line, self.cursor_col);
        if c > 0 {
            if !position_fits(&self.buffer, (l, c)) {
                return false;
            }
            proof {
                crate::buffer::lemma_line_start_bounds(self.spec_buffer().text, l as int);
            }
            let i = self.index_of_position((l, c)) - 1;
            !removes_any(&self.buffer, i, i + 1) || self.buffer.version() < u64::MAX
        } else if l > 0 {
            if l > self.buffer.len_lines() {
                return false;
            }
            let s = self.buffer.line_to_char(l);
            if s < 1 {
                return false;
            }
            !removes_any(&self.buffer, s - 1, s) || self.buffer.version() < u64::MAX
        } else {
            true
        }
    }

    /// Whether Delete stays within bounds.
    fn delete_forward_fits(&self) -> (r: bool)
        ensures
            r == delete_forward_ok(self.edit_state()),
    {
        if self.has_selection() {
            return self.sel_delete_fits();
        }
        let (l, c) = (self.cursor_line, self.cursor_col);
        let n = self.buffer.len_lines();
        let removes = c < self.visible_line_len(l) || (n >= 1 && l < n - 1);
        if !removes {
            return true;
        }
        if !position_fits(&self.buffer, (l, c)) {
            return false;
        }
        let i = self.index_of_position((l, c));
        if i == usize::MAX {
            return false;
        }
        !removes_any(&self.buffer, i, i + 1) || self.buffer.version() < u64::MAX
    }

    /// Whether Cut stays within bounds.
    fn cut_fits(&self) -> (r: bool)
        ensures
            r == cut_ok(self.edit_state()),
    {
        if !self.sel_fits() {
            return false;
        }
        match self.ordered_selection() {
            Some((s, e)) => {
                let a = self.index_of_position(s);
                let b = self.index_of_position(e);
                if a <= b && b <= self.buffer.len_chars() {
                    return self.sel_delete_fits();
                }
            },
            None => {},
        }
        let l = self.cursor_line;
        match self.buffer.line(l) {
            Some(line) => {
                let s = self.buffer.line_to_char(l);
                let len = line.as_str().unicode_len();
                if len > usize::MAX - s {
                    return false;
                }
                !removes_any(&self.buffer, s, s + len) || self.buffer.version() < u64::MAX
            },
            None => true,
        }
    }

    /// Whether `apply_key` can carry out `cmd` here (with `clipboard` the
    /// text a paste inserts): its positions can be turned into character
    /// indices, and counts stay within their integers.
    pub fn key_allowed(&self, cmd: KeyCommand, clipboard: &str) -> (r: bool)
        ensures
            r == command_ok(self.edit_state(), cmd, clipboard@),
    {
        match cmd {
            KeyCommand::Type => self.insert_fits(1),
            KeyCommand::Backspace => self.backspace_fits(),
            KeyCommand::Delete => self.delete_forward_fits(),
            KeyCommand::Enter => {
                if !self.insert_fits(0) {
                    return false;
                }
                let line = match self.ordered_selection() {
                    Some((s, _)) => s.0,
                    None => self.cursor_line,
                };
                line < usize::MAX
            },
            KeyCommand::PageDown => self.cursor_line <= usize::MAX - PAGE_LINES,
            KeyCommand::Copy => self.sel_fits(),
            KeyCommand::Paste => {
                let n = chars_of(clipboard).len();
                n == 0 || self.insert_fits(n)
            },
            KeyCommand::Cut => self.cut_fits(),
            _ => true,
        }
    }

    /// Whether `commit_composition` can insert `data` here.
    pub fn composition_allowed(&self, data: &str) -> (r: bool)
        ensures
            r == (data@.len() > 0 ==> ({
                let st = self.edit_state();
                &&& position_ok(st.buffer.text, st.cursor)
                &&& st.buffer.version < u64::MAX
                &&& st.cursor.1 + data@.len() <= usize::MAX
            })),
    {
        let n = chars_of(data).len();
        if n == 0 {
            return true;
        }
        position_fits(&self.buffer, (self.cursor_line, self.cursor_col)) && self.buffer.version() < u64::MAX
            && n <= usize::MAX - self.cursor_col
    }
}

/// The position a click at line `line`, column `col` lands on: the line
/// kept within the text, the column within that line.
pub open spec fn clicked_position(t: Seq<char>, line: usize, col: usize) -> (usize, usize) {
    let last = (line_count(t) - 1) as usize;
    let l = if line <= last { line } else { last };
    (l, min_col(col, visible_len(t, l as int)))
}

impl EditorTab {
    /// The file's path.
    pub fn file_path(&self) -> (r: &str)
        ensures
            r@ == self.spec_file_path(),
    {
        self.file_path.as_str()
    }

    /// The buffer.
    pub fn buffer(&self) -> (r: &TextBuffer)
        ensures
            r@ == self.spec_buffer(),
    {
        &self.buffer
    }

    /// The cursor: a line and a column.
    pub fn cursor(&self) -> (r: (usize, usize))
        ensures
            r == self.spec_cursor(),
    {
        (self.cursor_line, self.cursor_col)
    }

    /// The selection's ends, where it started and where it ends now.
    pub fn selection(&self) -> (r: (Option<(usize, usize)>, Option<(usize, usize)>))
        ensures
            r == (self.spec_selection_start(), self.spec_selection_end()),
    {
        (self.selection_start, self.selection_end)
    }

    /// The language the file is highlighted in, if any.
    pub fn highlight_language(&self) -> (r: Option<&str>)
        ensures
            match self.spec_highlight_language() {
                Some(l) => r matches Some(x) && x@ == l,
                None => r is None,
            },
    {
        match &self.highlight_language {
            Some(l) => Some(l.as_str()),
            None => None,
        }
    }

    /// Inserts the text an input method composed at the cursor and moves
    /// the cursor past it; nothing for an empty text. (The selection is
    /// kept, and nothing is recorded for undo.)
    pub fn commit_composition(&mut self, data: &str)
        requires
            data@.len() > 0 ==> ({
                let st = old(self).edit_state();
                &&& position_ok(st.buffer.text, st.cursor)
                &&& st.buffer.version < u64::MAX
                &&& st.cursor.1 + data@.len() <= usize::MAX
            }),
        ensures
            data@.len() == 0 ==> final(self).edit_state() == old(self).edit_state(),
            data@.len() > 0 ==> ({
                let st = old(self).edit_state();
                final(self).edit_state() == EditState {
                    buffer: crate::buffer::after_insert(st.buffer, cursor_index(st), data@),
                    cursor: (st.cursor.0, (st.cursor.1 + data@.len()) as usize),
                    ..st
                }
            }),
            same_history(old(self), final(self)),
            same_file(old(self), final(self)),
    {
        if data.is_empty() {
            return;
        }
        let char_idx = self.cursor_char();
        self.buffer.insert(char_idx, data);
        let n = chars_of(data).len();
        self.cursor_col = self.cursor_col + n;
    }

    /// A mouse press at line `line`, column `col`: the cursor goes there
    /// (kept within the text) and a selection starts and ends there.
    pub fn place_cursor(&mut self, line: usize, col: usize)
        ensures
            ({
                let p = clicked_position(old(self).spec_buffer().text, line, col);
                final(self).edit_state() == EditState {
                    cursor: p,
                    sel_start: Some(p),
                    sel_end: Some(p),
                    ..old(self).edit_state()
                }
            }),
            same_history(old(self), final(self)),
            same_file(old(self), final(self)),
    {
        let p = self.clicked(line, col);
        self.cursor_line = p.0;
        self.cursor_col = p.1;
        self.selection_start = Some(p);
        self.selection_end = Some(p);
    }

    /// A drag to line `line`, column `col`: the cursor and the selection's
    /// end go there (kept within the text).
    pub fn drag_to(&mut self, line: usize, col: usize)
        ensures
            ({
                let p = clicked_position(old(self).spec_buffer().text, line, col);
                final(self).edit_state() == EditState { cursor: p, sel_end: Some(p), ..old(self).edit_state() }
            }),
            same_history(old(self), final(self)),
            same_file(old(self), final(self)),
    {
        let p = self.clicked(line, col);
        self.cursor_line = p.0;
        self.cursor_col = p.1;
        self.selection_end = Some(p);
    }

    /// The end of a drag: a selection that starts where it ends is
    /// cleared.
    pub fn end_drag(&mut self)
        ensures
            ({
                let st = old(self).edit_state();
                if has_sel(st) && st.sel_start == st.sel_end {
                    final(self).edit_state() == EditState { sel_start: None, sel_end: None, ..st }
                } else {
                    final(self).edit_state() == st
                }
            }),
            same_history(old(self), final(self)),
            same_file(old(self), final(self)),
    {
        match (self.selection_start, self.selection_end) {
            (Some(a), Some(b)) => {
                if a.0 == b.0 && a.1 == b.1 {
                    self.clear_selection();
                }
            },
            _ => {},
        }
    }

    fn clicked(&self, line: usize, col: usize) -> (r: (usize, usize))
        ensures
            r == clicked_position(self.spec_buffer().text, line, col),
    {
        let last = self.buffer.len_lines() - 1;
        let l = if line <= last { line } else { last };
        let line_len = self.visible_line_len(l);
        (l, if col <= line_len { col } else { line_len })
    }
}

/// Undo right after an edit goes back to the state before it, whatever the
/// edit made of the buffer and cursor.
pub proof fn lemma_undo_reverts_edit(h: History, edited: SnapshotView)
    ensures
        undone(History { current: edited, undo: saved(h).undo, redo: Seq::empty() }).current == h.current,
{
    let t = h.undo.push(h.current);
    if t.len() > MAX_UNDO {
        assert(t.drop_first().last() == h.current);
    }
}

/// Commands that record nothing for undo leave the text alone: moving,
/// selecting, copying, saving, and pasting nothing.
pub proof fn lemma_non_edits_keep_text(st: EditState, cmd: KeyCommand, shift: bool, key: Seq<char>, clip: Seq<char>)
    requires
        !records_undo(cmd, clip),
    ensures
        command_state(st, cmd, shift, key, clip).buffer == st.buffer,
{
}

/// The moving keys keep the cursor on a line of the text.
pub proof fn lemma_moves_stay_in_text(t: Seq<char>, p: (usize, usize))
    requires
        p.0 < line_count(t),
    ensures
        left_of(t, p).0 < line_count(t),
        right_of(t, p).0 < line_count(t),
        up_of(t, p).0 < line_count(t),
        down_of(t, p).0 < line_count(t),
        page_up_of(t, p).0 < line_count(t),
        page_down_of(t, p).0 < line_count(t),
{
}

/// Whether a position is on a line of the text and no further than that
/// line's end.
pub open spec fn on_line(t: Seq<char>, p: (usize, usize)) -> bool {
    p.0 < line_count(t) && p.1 <= visible_len(t, p.0 as int)
}

proof fn lemma_without_trailing_lf_len(s: Seq<char>)
    ensures
        without_trailing_lf(s).len() <= s.len(),
    decreases s.len(),
{
    if s.len() > 0 && s.last() == '\n' {
        lemma_without_trailing_lf_len(s.drop_last());
    }
}

proof fn lemma_breaks_before_le(t: Seq<char>, c: int)
    requires
        0 <= c,
    ensures
        breaks_before(t, c) <= c,
    decreases c,
{
    if c > 0 {
        lemma_breaks_before_le(t, c - 1);
    }
}

proof fn lemma_visible_len_bound(t: Seq<char>, l: int)
    ensures
        visible_len(t, l) <= t.len(),
{
    if 0 <= l < line_count(t) {
        lemma_line_text_len(t, l);
        lemma_without_trailing_lf_len(line_text(t, l));
    }
}

/// The arrow and page keys keep the cursor on a line of the text, no
/// further than that line's end.
pub proof fn lemma_moves_stay_on_lines(t: Seq<char>, p: (usize, usize))
    requires
        t.len() <= usize::MAX,
        on_line(t, p),
    ensures
        on_line(t, left_of(t, p)),
        on_line(t, right_of(t, p)),
        on_line(t, up_of(t, p)),
        on_line(t, down_of(t, p)),
        on_line(t, page_up_of(t, p)),
        on_line(t, page_down_of(t, p)),
{
    lemma_breaks_before_le(t, t.len() as int);
    if p.0 > 0 {
        lemma_visible_len_bound(t, p.0 - 1);
    }
}

/// Up and Down move the cursor one line (when there is a line to go to),
/// and keep its column when the line they land on is long enough; else
/// the cursor goes to that line's end.
pub proof fn lemma_vertical_moves(t: Seq<char>, p: (usize, usize))
    requires
        t.len() <= usize::MAX,
        p.0 < line_count(t),
    ensures
        p.0 > 0 ==> ({
            let u = up_of(t, p);
            &&& u.0 == p.0 - 1
            &&& u.1 <= visible_len(t, u.0 as int)
            &&& (p.1 <= visible_len(t, u.0 as int) ==> u.1 == p.1)
            &&& (p.1 > visible_len(t, u.0 as int) ==> u.1 == visible_len(t, u.0 as int))
        }),
        p.0 + 1 < line_count(t) ==> ({
            let d = down_of(t, p);
            &&& d.0 == p.0 + 1
            &&& d.1 <= visible_len(t, d.0 as int)
            &&& (p.1 <= visible_len(t, d.0 as int) ==> d.1 == p.1)
            &&& (p.1 > visible_len(t, d.0 as int) ==> d.1 == visible_len(t, d.0 as int))
        }),
{
    lemma_breaks_before_le(t, t.len() as int);
}

/// Backspace at the start of a line that follows a line feed joins the
/// two lines: the line feed goes, every other character stays, and the
/// cursor lands where the line feed was, at the end of the line before.
pub proof fn lemma_backspace_joins_lines(st: EditState)
    requires
        !has_sel(st),
        st.cursor.1 == 0,
        0 < st.cursor.0 < line_count(st.buffer.text),
        st.buffer.text.len() <= usize::MAX,
        st.buffer.text[line_start(st.buffer.text, st.cursor.0 as int) - 1] == '\n',
    ensures
        ({
            let t = st.buffer.text;
            let l = st.cursor.0 as int;
            let i = line_start(t, l) - 1;
            let a = backspaced(st);
            &&& a.cursor.0 == l - 1
            &&& line_start(t, l - 1) + a.cursor.1 == i
            &&& a.buffer.text == t.subrange(0, i) + t.subrange(i + 1, t.len() as int)
        }),
{
    let t = st.buffer.text;
    let l = st.cursor.0 as int;
    lemma_line_span(t, l - 1);
    let a = line_start(t, l - 1);
    let b = line_start(t, l);
    let line = line_text(t, l - 1);
    assert(line =~= t.subrange(a, b));
    assert(line.last() == '\n');
    let d = line.drop_last();
    if d.len() > 0 {
        assert(d.last() == t[b - 2]);
        if t[b - 2] == '\n' {
            assert(break_ends_at(t, b - 1));
        }
        assert(without_trailing_lf(d) == d);
    }
    assert(without_trailing_lf(line) == without_trailing_lf(d));
    assert(visible_len(t, l - 1) == b - 1 - a);
    assert(t.take(b - 1) + t.skip(b) =~= t.subrange(0, b - 1) + t.subrange(b, t.len() as int));
}

fn has_suffix(path: &[char], suffix: &str) -> (r: bool)
    ensures
        r == ends_with(path@, suffix@),
{
    let s = chars_of(suffix);
    ends_with_chars(path, s.as_slice())
}

} // verus!
