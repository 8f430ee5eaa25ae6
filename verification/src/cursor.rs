//! Multi-cursor support: cursor positions, selections between an anchor
//! and a cursor, and a set of selections with a primary one.

use vstd::prelude::*;
use crate::text::{occurs_at, spec_lines, split_lines, chars_of, find_from};
use crate::search::{byte_offset, byte_offset_exec, fits, utf8_len};

verus! {

/// A position in a document: a line and a column, both from 0.
#[derive(Debug, Clone, Copy, PartialEq, Eq, Hash, Structural)]
pub struct CursorPosition {
    pub line: usize,
    pub column: usize,
}

/// Whether `a` comes strictly before `b` in reading order.
pub open spec fn pos_lt(a: CursorPosition, b: CursorPosition) -> bool {
    a.line < b.line || (a.line == b.line && a.column < b.column)
}

/// Whether `a` comes before `b` in reading order, or is `b`.
pub open spec fn pos_le(a: CursorPosition, b: CursorPosition) -> bool {
    pos_lt(a, b) || a == b
}

impl CursorPosition {
    pub fn new(line: usize, column: usize) -> (r: Self)
        ensures
            r.line == line,
            r.column == column,
    {
        Self { line, column }
    }
}

/// A selection from an anchor (where it was started) to a cursor (where it
/// ends now). It is collapsed when both are the same position.
#[derive(Debug, Clone, Copy, PartialEq, Eq, Structural)]
pub struct Selection {
    pub anchor: CursorPosition,
    pub cursor: CursorPosition,
}

impl Selection {
    /// The earlier of anchor and cursor.
    pub open spec fn spec_start(self) -> CursorPosition {
        if pos_lt(self.anchor, self.cursor) {
            self.anchor
        } else {
            self.cursor
        }
    }

    /// The later of anchor and cursor.
    pub open spec fn spec_end(self) -> CursorPosition {
        if pos_lt(self.cursor, self.anchor) {
            self.anchor
        } else {
            self.cursor
        }
    }

    /// The selection collapsed at a position.
    pub open spec fn at(position: CursorPosition) -> Selection {
        Selection { anchor: position, cursor: position }
    }

    pub fn new(anchor: CursorPosition, cursor: CursorPosition) -> (r: Self)
        ensures
            r.anchor == anchor,
            r.cursor == cursor,
    {
        Self { anchor, cursor }
    }

    pub fn collapsed(position: CursorPosition) -> (r: Self)
        ensures
            r == Selection::at(position),
    {
        Self { anchor: position, cursor: position }
    }

    pub fn is_collapsed(&self) -> (r: bool)
        ensures
            r == (self.anchor == self.cursor),
    {
        self.anchor == self.cursor
    }

    pub fn start(&self) -> (r: CursorPosition)
        ensures
            r == self.spec_start(),
    {
        if self.anchor.line < self.cursor.line || (self.anchor.line == self.cursor.line
            && self.anchor.column < self.cursor.column) {
            self.anchor
        } else {
            self.cursor
        }
    }

    pub fn end(&self) -> (r: CursorPosition)
        ensures
            r == self.spec_end(),
    {
        if self.anchor.line > self.cursor.line || (self.anchor.line == self.cursor.line
            && self.anchor.column > self.cursor.column) {
            self.anchor
        } else {
            self.cursor
        }
    }

    /// Whether `position` lies between the start and the end of the
    /// selection, both included.
    pub fn contains(&self, position: CursorPosition) -> (r: bool)
        ensures
            r == (pos_le(self.spec_start(), position) && pos_le(position, self.spec_end())),
    {
        let start = self.start();
        let end = self.end();
        if position.line < start.line || position.line > end.line {
            return false;
        }
        if position.line == start.line && position.column < start.column {
            return false;
        }
        if position.line == end.line && position.column > end.column {
            return false;
        }
        true
    }
}

/// A selection contains its own start and end.
pub proof fn lemma_selection_contains_bounds(s: Selection)
    ensures
        pos_le(s.spec_start(), s.spec_start()) && pos_le(s.spec_start(), s.spec_end()),
        pos_le(s.spec_start(), s.spec_end()) && pos_le(s.spec_end(), s.spec_end()),
{
}

/// Start and end of a selection are ordered, whatever the direction it was
/// made in.
pub proof fn lemma_start_before_end(s: Selection)
    ensures
        pos_le(s.spec_start(), s.spec_end()),
        s.spec_start() == s.anchor || s.spec_start() == s.cursor,
        s.spec_end() == s.anchor || s.spec_end() == s.cursor,
{
}


/// The later of two positions.
pub open spec fn pos_max(a: CursorPosition, b: CursorPosition) -> CursorPosition {
    if pos_lt(a, b) {
        b
    } else {
        a
    }
}

/// Whether some selection has its cursor at `position`.
pub open spec fn has_cursor(sels: Seq<Selection>, position: CursorPosition) -> bool {
    exists|i: int| 0 <= i < sels.len() && #[trigger] sels[i].cursor == position
}

/// The selections after adding a cursor at `position`: unchanged if a
/// cursor is already there, else a collapsed selection appended.
pub open spec fn with_cursor_added(sels: Seq<Selection>, position: CursorPosition) -> Seq<Selection> {
    if has_cursor(sels, position) {
        sels
    } else {
        sels.push(Selection::at(position))
    }
}

/// The selections after removing the cursors at `position`: those whose
/// cursor is elsewhere, or a collapsed selection at `position` if none is.
pub open spec fn with_cursor_removed(sels: Seq<Selection>, position: CursorPosition) -> Seq<Selection> {
    let kept = without_cursor_at(sels, position);
    if kept.len() == 0 {
        seq![Selection::at(position)]
    } else {
        kept
    }
}

/// The selections whose cursor is elsewhere than `position`, in order.
pub open spec fn without_cursor_at(sels: Seq<Selection>, position: CursorPosition) -> Seq<Selection>
    decreases sels.len(),
{
    if sels.len() == 0 {
        Seq::empty()
    } else if sels.last().cursor == position {
        without_cursor_at(sels.drop_last(), position)
    } else {
        without_cursor_at(sels.drop_last(), position).push(sels.last())
    }
}

/// A set of selections, one of which is primary. There is always at least
/// one selection.
pub struct MultiCursor {
    selections: Vec<Selection>,
    primary_index: usize,
}

/// The selection on line `line` from byte column `col` to byte column
/// `end`.
pub open spec fn occurrence_selection(line: int, col: int, end: int) -> Selection {
    Selection {
        anchor: CursorPosition { line: line as usize, column: col as usize },
        cursor: CursorPosition { line: line as usize, column: end as usize },
    }
}

/// The positions at or after `start` where `pat` occurs in `l`, in
/// increasing order (occurrences may overlap).
pub open spec fn occurrences_from(l: Seq<char>, pat: Seq<char>, start: int) -> Seq<int>
    decreases l.len() + 1 - start,
{
    if start < 0 || start > l.len() {
        Seq::empty()
    } else if occurs_at(l, pat, start) {
        seq![start] + occurrences_from(l, pat, start + 1)
    } else {
        occurrences_from(l, pat, start + 1)
    }
}

/// The selections of the occurrences of `pat` in line `idx` (text `l`),
/// at or after character `start`; their columns are the byte offsets where
/// each occurrence starts and ends.
pub open spec fn line_occurrence_selections(l: Seq<char>, idx: int, pat: Seq<char>, start: int) -> Seq<Selection> {
    occurrences_from(l, pat, start).map_values(|j: int| occurrence_selection(idx, byte_offset(l, j), byte_offset(l, j + pat.len())))
}

/// Whether a line can be searched for `pat` without a fault: its UTF-8 size
/// fits in a `usize`, and the search, which steps one byte past the start
/// of each occurrence, lands on a character boundary (the pattern starts
/// with a one-byte character) whenever the pattern occurs.
pub open spec fn occurrences_ok(l: Seq<char>, pat: Seq<char>) -> bool {
    &&& fits(l)
    &&& forall|j: int| #[trigger] occurs_at(l, pat, j) ==> utf8_len(pat[0]) == 1
}

/// The selections of every occurrence of `pat` in the first `n` lines, line
/// by line, left to right.
pub open spec fn occurrence_selections(lines: Seq<Seq<char>>, pat: Seq<char>, n: int) -> Seq<Selection>
    decreases n,
{
    if n <= 0 {
        Seq::empty()
    } else {
        occurrence_selections(lines, pat, n - 1) + line_occurrence_selections(lines[n - 1], n - 1, pat, 0)
    }
}

/// Positions in `[start, q)` hold no occurrence: the occurrences from
/// `start` are those from `q`.
proof fn lemma_occurrences_skip(l: Seq<char>, pat: Seq<char>, start: int, q: int)
    requires
        0 <= start <= q,
        forall|j: int| start <= j < q ==> !occurs_at(l, pat, j),
    ensures
        occurrences_from(l, pat, start) == occurrences_from(l, pat, q),
    decreases q - start,
{
    if start < q {
        lemma_occurrences_skip(l, pat, start + 1, q);
        if start > l.len() {
            assert(occurrences_from(l, pat, start) == Seq::<int>::empty());
            lemma_occurrences_past_end(l, pat, q);
        }
    }
}

proof fn lemma_occurrences_past_end(l: Seq<char>, pat: Seq<char>, q: int)
    requires
        q > l.len(),
    ensures
        occurrences_from(l, pat, q) == Seq::<int>::empty(),
{
}

/// No occurrence at or after `start`: none are listed.
proof fn lemma_occurrences_none(l: Seq<char>, pat: Seq<char>, start: int)
    requires
        0 <= start,
        forall|j: int| start <= j ==> !occurs_at(l, pat, j),
    ensures
        occurrences_from(l, pat, start) == Seq::<int>::empty(),
    decreases l.len() + 1 - start,
{
    if start <= l.len() {
        lemma_occurrences_none(l, pat, start + 1);
    }
}

/// The insertion of `x` into `s` after every element whose start is not
/// after the start of `x` (a stable insertion).
pub open spec fn insert_by_start(s: Seq<Selection>, x: Selection) -> Seq<Selection>
    decreases s.len(),
{
    if s.len() == 0 {
        seq![x]
    } else if pos_le(s.last().spec_start(), x.spec_start()) {
        s.push(x)
    } else {
        insert_by_start(s.drop_last(), x).push(s.last())
    }
}

/// The selections stably sorted by their start positions.
pub open spec fn sort_by_start(s: Seq<Selection>) -> Seq<Selection>
    decreases s.len(),
{
    if s.len() == 0 {
        Seq::empty()
    } else {
        insert_by_start(sort_by_start(s.drop_last()), s.last())
    }
}

/// Merges a run of selections sorted by start, `current` being the one
/// being grown: a selection that starts at or before the end of `current`
/// is absorbed into it.
pub open spec fn merge_from(current: Selection, rest: Seq<Selection>) -> Seq<Selection>
    decreases rest.len(),
{
    if rest.len() == 0 {
        seq![current]
    } else {
        let s = rest[0];
        if pos_le(s.spec_start(), current.spec_end()) {
            merge_from(
                Selection {
                    anchor: current.spec_start(),
                    cursor: pos_max(current.spec_end(), s.spec_end()),
                },
                rest.drop_first(),
            )
        } else {
            seq![current] + merge_from(s, rest.drop_first())
        }
    }
}

/// The selections after merging: sorted by start, overlapping ones joined.
pub open spec fn merged(s: Seq<Selection>) -> Seq<Selection> {
    if s.len() <= 1 {
        s
    } else {
        let sorted = sort_by_start(s);
        merge_from(sorted[0], sorted.drop_first())
    }
}

/// Identity on selections; names a value inside a proof.
pub open spec fn prev_current(s: Selection) -> Selection {
    s
}

/// Whether `a` comes before `b` in reading order, or is `b`.
fn pos_le_exec(a: CursorPosition, b: CursorPosition) -> (r: bool)
    ensures
        r == pos_le(a, b),
{
    a.line < b.line || (a.line == b.line && a.column <= b.column)
}

/// Whether `a` comes strictly before `b` in reading order.
fn pos_lt_exec(a: CursorPosition, b: CursorPosition) -> (r: bool)
    ensures
        r == pos_lt(a, b),
{
    a.line < b.line || (a.line == b.line && a.column < b.column)
}

/// Inserts `x` after every selection whose start is not after its start.
fn insert_selection_by_start(s: Vec<Selection>, x: Selection) -> (r: Vec<Selection>)
    ensures
        r@ == insert_by_start(s@, x),
{
    let mut s = s;
    let ghost s0 = s@;
    let x_start = x.start();
    let mut k = s.len();
    assert(s0.take(k as int) =~= s0);
    assert(s0.skip(k as int) =~= Seq::<Selection>::empty());
    while k > 0 && !pos_le_exec(s[k - 1].start(), x_start)
        invariant
            s@ == s0,
            x_start == x.spec_start(),
            k <= s0.len(),
            insert_by_start(s0, x) == insert_by_start(s0.take(k as int), x) + s0.skip(k as int),
        decreases k,
    {
        assert(s0.take(k as int).drop_last() =~= s0.take(k - 1));
        assert(s0.take(k as int).last() == s0[k - 1]);
        assert(x_start == x.spec_start());
        assert(!pos_le(s0[k - 1].spec_start(), x.spec_start()));
        assert(s0.skip(k - 1) =~= seq![s0[k - 1]] + s0.skip(k as int));
        assert(insert_by_start(s0.take(k as int), x) == insert_by_start(s0.take(k - 1), x).push(s0[k - 1]));
        assert(insert_by_start(s0.take(k - 1), x).push(s0[k - 1]) + s0.skip(k as int)
            =~= insert_by_start(s0.take(k - 1), x) + s0.skip(k - 1));
        k -= 1;
    }
    proof {
        if k > 0 {
            assert(s0.take(k as int).last() == s0[k - 1]);
        }
    }
    s.insert(k, x);
    assert(s@ =~= insert_by_start(s0.take(k as int), x) + s0.skip(k as int));
    s
}

/// The selections stably sorted by start.
fn sort_selections_by_start(v: &Vec<Selection>) -> (r: Vec<Selection>)
    ensures
        r@ == sort_by_start(v@),
{
    let mut res: Vec<Selection> = Vec::new();
    let mut i: usize = 0;
    while i < v.len()
        invariant
            i <= v@.len(),
            res@ == sort_by_start(v@.take(i as int)),
        decreases v@.len() - i,
    {
        assert(v@.take(i + 1).drop_last() =~= v@.take(i as int));
        res = insert_selection_by_start(res, v[i]);
        i += 1;
    }
    assert(v@.take(v@.len() as int) =~= v@);
    res
}

/// A column or line moved by an offset as the editor does it: the value
/// is taken as an `i32`, the offset added, and a negative sum becomes 0.
pub open spec fn shifted(v: usize, offset: i32) -> usize {
    let sum = (v as i32) + offset;
    if sum < 0 {
        0
    } else {
        sum as usize
    }
}

/// Whether moving `v` by `offset` stays within the `i32` range.
pub open spec fn shift_in_range(v: usize, offset: i32) -> bool {
    i32::MIN <= (v as i32) + offset <= i32::MAX
}

/// The selection after moving its cursor by the offsets; a collapsed
/// selection keeps its anchor with its cursor.
pub open spec fn moved(s: Selection, line_offset: i32, column_offset: i32) -> Selection {
    let c = CursorPosition {
        line: shifted(s.cursor.line, line_offset),
        column: shifted(s.cursor.column, column_offset),
    };
    Selection { anchor: if s.anchor == s.cursor { c } else { s.anchor }, cursor: c }
}

impl MultiCursor {
    /// The selections, in order.
    pub closed spec fn spec_selections(&self) -> Seq<Selection> {
        self.selections@
    }

    /// The index of the primary selection.
    pub closed spec fn spec_primary(&self) -> nat {
        self.primary_index as nat
    }

    /// At least one selection, and the primary index points at one.
    pub open spec fn wf(&self) -> bool {
        &&& self.spec_selections().len() >= 1
        &&& self.spec_primary() < self.spec_selections().len()
    }

    pub fn new() -> (r: Self)
        ensures
            r.wf(),
            r.spec_selections() == seq![Selection::at(CursorPosition { line: 0, column: 0 })],
            r.spec_primary() == 0,
    {
        Self { selections: vec![Selection::collapsed(CursorPosition::new(0, 0))], primary_index: 0 }
    }

    pub fn from_position(position: CursorPosition) -> (r: Self)
        ensures
            r.wf(),
            r.spec_selections() == seq![Selection::at(position)],
            r.spec_primary() == 0,
    {
        Self { selections: vec![Selection::collapsed(position)], primary_index: 0 }
    }

    /// Adds a collapsed selection at `position`, unless a selection already
    /// has its cursor there.
    pub fn add_cursor(&mut self, position: CursorPosition)
        requires
            old(self).wf(),
        ensures
            final(self).wf(),
            final(self).spec_primary() == old(self).spec_primary(),
            final(self).spec_selections() == with_cursor_added(old(self).spec_selections(), position),
    {
        if !self.has_cursor_at(position) {
            self.selections.push(Selection::collapsed(position));
        }
    }

    /// Removes every selection whose cursor is at `position`; if none is
    /// left, a collapsed selection at `position` remains. The primary index
    /// is clamped to the last selection.
    pub fn remove_cursor_at(&mut self, position: CursorPosition)
        requires
            old(self).wf(),
        ensures
            final(self).wf(),
            final(self).spec_selections() == with_cursor_removed(old(self).spec_selections(), position),
            final(self).spec_primary() == if old(self).spec_primary() < final(self).spec_selections().len() {
                old(self).spec_primary()
            } else {
                (final(self).spec_selections().len() - 1) as nat
            },
    {
        let ghost old_sels = self.selections@;
        let mut kept: Vec<Selection> = Vec::new();
        let mut i: usize = 0;
        while i < self.selections.len()
            invariant
                old_sels == self.selections@,
                i <= old_sels.len(),
                kept@ == without_cursor_at(old_sels.take(i as int), position),
            decreases old_sels.len() - i,
        {
            let s = self.selections[i];
            proof {
                assert(old_sels.take(i + 1).drop_last() =~= old_sels.take(i as int));
                assert(old_sels.take(i + 1).last() == s);
            }
            if s.cursor != position {
                kept.push(s);
            }
            i += 1;
        }
        assert(old_sels.take(old_sels.len() as int) =~= old_sels);
        if kept.len() == 0 {
            kept.push(Selection::collapsed(position));
        }
        self.selections = kept;
        if self.primary_index > self.selections.len() - 1 {
            self.primary_index = self.selections.len() - 1;
        }
    }

    /// Whether some selection has its cursor at `position`.
    pub fn has_cursor_at(&self, position: CursorPosition) -> (r: bool)
        ensures
            r == has_cursor(self.spec_selections(), position),
    {
        let mut i: usize = 0;
        while i < self.selections.len()
            invariant
                i <= self.selections@.len(),
                forall|k: int| 0 <= k < i ==> #[trigger] self.selections@[k].cursor != position,
            decreases self.selections@.len() - i,
        {
            if self.selections[i].cursor == position {
                assert(self.spec_selections()[i as int].cursor == position);
                return true;
            }
            i += 1;
        }
        false
    }

    /// The cursor of every selection, in order.
    pub fn get_cursors(&self) -> (r: Vec<CursorPosition>)
        ensures
            r@ == self.spec_selections().map_values(|s: Selection| s.cursor),
    {
        let mut out: Vec<CursorPosition> = Vec::new();
        let mut i: usize = 0;
        while i < self.selections.len()
            invariant
                i <= self.selections@.len(),
                out@ == self.selections@.take(i as int).map_values(|s: Selection| s.cursor),
            decreases self.selections@.len() - i,
        {
            out.push(self.selections[i].cursor);
            i += 1;
            assert(self.selections@.take(i as int).map_values(|s: Selection| s.cursor)
                =~= self.selections@.take(i - 1).map_values(|s: Selection| s.cursor).push(self.selections@[i - 1].cursor));
        }
        assert(self.selections@.take(self.selections@.len() as int) =~= self.selections@);
        out
    }

    pub fn get_selections(&self) -> (r: &[Selection])
        ensures
            r@ == self.spec_selections(),
    {
        self.selections.as_slice()
    }

    pub fn primary_selection(&self) -> (r: &Selection)
        requires
            self.wf(),
        ensures
            *r == self.spec_selections()[self.spec_primary() as int],
    {
        &self.selections[self.primary_index]
    }

    /// Keeps only the primary selection, which becomes the first.
    pub fn clear_secondary_cursors(&mut self)
        requires
            old(self).wf(),
        ensures
            final(self).wf(),
            final(self).spec_selections() == seq![old(self).spec_selections()[old(self).spec_primary() as int]],
            final(self).spec_primary() == 0,
    {
        let primary = self.selections[self.primary_index];
        self.selections = vec![primary];
        self.primary_index = 0;
    }

    /// Moves every cursor by the offsets (clamped at 0); collapsed
    /// selections move their anchor with the cursor.
    pub fn move_all(&mut self, line_offset: i32, column_offset: i32)
        requires
            old(self).wf(),
            forall|i: int| 0 <= i < old(self).spec_selections().len() ==> {
                &&& shift_in_range(#[trigger] old(self).spec_selections()[i].cursor.line, line_offset)
                &&& shift_in_range(old(self).spec_selections()[i].cursor.column, column_offset)
            },
        ensures
            final(self).wf(),
            final(self).spec_primary() == old(self).spec_primary(),
            final(self).spec_selections().len() == old(self).spec_selections().len(),
            forall|i: int| 0 <= i < old(self).spec_selections().len() ==>
                #[trigger] final(self).spec_selections()[i] == moved(old(self).spec_selections()[i], line_offset, column_offset),
    {
        let ghost old_sels = self.selections@;
        assert forall|k: int| 0 <= k < old_sels.len() implies {
            &&& shift_in_range(#[trigger] old_sels[k].cursor.line, line_offset)
            &&& shift_in_range(old_sels[k].cursor.column, column_offset)
        } by {
            assert(old_sels == old(self).spec_selections());
            assert(shift_in_range(old(self).spec_selections()[k].cursor.line, line_offset));
        }
        let n = self.selections.len();
        let mut i: usize = 0;
        while i < n
            invariant
                n == old_sels.len(),
                self.selections@.len() == n,
                self.primary_index == old(self).primary_index,
                old_sels == old(self).selections@,
                i <= n,
                forall|k: int| 0 <= k < n ==> {
                    &&& shift_in_range(#[trigger] old_sels[k].cursor.line, line_offset)
                    &&& shift_in_range(old_sels[k].cursor.column, column_offset)
                },
                forall|k: int| 0 <= k < i ==> #[trigger] self.selections@[k] == moved(old_sels[k], line_offset, column_offset),
                forall|k: int| i <= k < n ==> #[trigger] self.selections@[k] == old_sels[k],
            decreases n - i,
        {
            let s = self.selections[i];
            let was_collapsed = s.is_collapsed();
            let line_sum: i32 = (s.cursor.line as i32) + line_offset;
            let col_sum: i32 = (s.cursor.column as i32) + column_offset;
            let line: usize = if line_sum < 0 { 0 } else { line_sum as usize };
            let column: usize = if col_sum < 0 { 0 } else { col_sum as usize };
            let c = CursorPosition { line, column };
            let anchor = if was_collapsed { c } else { s.anchor };
            self.selections.set(i, Selection { anchor, cursor: c });
            i += 1;
        }
    }

    /// Replaces every selection by the word bounds `get_word_bounds` gives
    /// for its cursor: the anchor becomes the word start, the cursor its end.
    pub fn select_word_at_cursors<F: Fn(CursorPosition) -> (CursorPosition, CursorPosition)>(
        &mut self,
        get_word_bounds: F,
    )
        requires
            old(self).wf(),
            forall|i: int| 0 <= i < old(self).spec_selections().len() ==> call_requires(
                get_word_bounds,
                (#[trigger] old(self).spec_selections()[i].cursor,),
            ),
        ensures
            final(self).wf(),
            final(self).spec_primary() == old(self).spec_primary(),
            final(self).spec_selections().len() == old(self).spec_selections().len(),
            forall|i: int| 0 <= i < old(self).spec_selections().len() ==> call_ensures(
                get_word_bounds,
                (#[trigger] old(self).spec_selections()[i].cursor,),
                (final(self).spec_selections()[i].anchor, final(self).spec_selections()[i].cursor),
            ),
    {
        let ghost old_sels = self.selections@;
        let n = self.selections.len();
        let mut i: usize = 0;
        while i < n
            invariant
                n == old_sels.len(),
                self.selections@.len() == n,
                self.primary_index == old(self).primary_index,
                old_sels == old(self).selections@,
                i <= n,
                forall|k: int| 0 <= k < n ==> call_requires(get_word_bounds, (#[trigger] old_sels[k].cursor,)),
                forall|k: int| 0 <= k < i ==> call_ensures(
                    get_word_bounds,
                    (#[trigger] old_sels[k].cursor,),
                    (self.selections@[k].anchor, self.selections@[k].cursor),
                ),
                forall|k: int| i <= k < n ==> #[trigger] self.selections@[k] == old_sels[k],
            decreases n - i,
        {
            let s = self.selections[i];
            let (start, end) = get_word_bounds(s.cursor);
            self.selections.set(i, Selection { anchor: start, cursor: end });
            i += 1;
        }
    }

    /// Selects every occurrence of `current_selection` in `text`, line by
    /// line and left to right (overlapping occurrences included), with byte
    /// columns; the first becomes primary. Nothing changes when the pattern is empty or not
    /// found.
    pub fn select_all_occurrences(&mut self, text: &str, current_selection: &str)
        requires
            old(self).wf(),
            current_selection@.len() > 0 ==> forall|i: int| 0 <= i < spec_lines(text@).len()
                ==> #[trigger] occurrences_ok(spec_lines(text@)[i], current_selection@),
        ensures
            final(self).wf(),
            ({
                let lines = spec_lines(text@);
                let found = occurrence_selections(lines, current_selection@, lines.len() as int);
                if current_selection@.len() == 0 || found.len() == 0 {
                    final(self).spec_selections() == old(self).spec_selections()
                        && final(self).spec_primary() == old(self).spec_primary()
                } else {
                    final(self).spec_selections() == found && final(self).spec_primary() == 0
                }
            }),
    {
        let pat = chars_of(current_selection);
        if pat.len() == 0 {
            return;
        }
        let text_chars = chars_of(text);
        let lines = split_lines(&text_chars);
        let ghost sl = spec_lines(text@);
        let ghost p = pat@;
        let mut new_selections: Vec<Selection> = Vec::new();
        let mut idx: usize = 0;
        while idx < lines.len()
            invariant
                p == current_selection@,
                p.len() > 0,
                lines@.len() == sl.len(),
                forall|i: int| 0 <= i < lines@.len() ==> #[trigger] lines@[i]@ == sl[i],
                forall|i: int| 0 <= i < sl.len() ==> #[trigger] occurrences_ok(sl[i], p),
                idx <= lines@.len(),
                new_selections@ == occurrence_selections(sl, p, idx as int),
                pat@ == p,
            decreases lines@.len() - idx,
        {
            let line = &lines[idx];
            let ghost l = line@;
            let mut search_start: usize = 0;
            let ghost before = new_selections@;
            assert(occurrences_ok(sl[idx as int], p));
            assert(line_occurrence_selections(l, idx as int, p, 0) == before.skip(before.len() as int) + line_occurrence_selections(l, idx as int, p, 0)) by {
                assert(before.skip(before.len() as int) =~= Seq::<Selection>::empty());
            }
            loop
                invariant
                    l == line@,
                    fits(l),
                    pat@ == p,
                    p.len() > 0,
                    search_start <= l.len() + 1,
                    before == occurrence_selections(sl, p, idx as int),
                    before.len() <= new_selections@.len(),
                    new_selections@.take(before.len() as int) == before,
                    line_occurrence_selections(l, idx as int, p, 0)
                        == new_selections@.skip(before.len() as int) + line_occurrence_selections(l, idx as int, p, search_start as int),
                ensures
                    new_selections@ == before + line_occurrence_selections(l, idx as int, p, 0),
                decreases l.len() + 1 - search_start,
            {
                match find_from(line.as_slice(), pat.as_slice(), search_start) {
                    Some(pos) => {
                        proof {
                            lemma_occurrences_skip(l, p, search_start as int, pos as int);
                            assert(occurrences_from(l, p, pos as int) == seq![pos as int] + occurrences_from(l, p, pos + 1));
                            assert(line_occurrence_selections(l, idx as int, p, search_start as int)
                                =~= seq![occurrence_selection(idx as int, byte_offset(l, pos as int), byte_offset(l, pos + p.len()))]
                                    + line_occurrence_selections(l, idx as int, p, pos + 1));
                        }
                        assert(pos + p.len() <= l.len());
                        assert(l.len() == line.len());
                        let ll = line.len();
                        let col = byte_offset_exec(line.as_slice(), pos);
                        let end = byte_offset_exec(line.as_slice(), pos + pat.len());
                        let sel = Selection {
                            anchor: CursorPosition::new(idx, col),
                            cursor: CursorPosition::new(idx, end),
                        };
                        let ghost prev = new_selections@;
                        new_selections.push(sel);
                        assert(new_selections@.take(before.len() as int) =~= prev.take(before.len() as int));
                        assert(new_selections@.skip(before.len() as int) =~= prev.skip(before.len() as int).push(sel));
                        search_start = pos + 1;
                    },
                    None => {
                        proof {
                            lemma_occurrences_none(l, p, search_start as int);
                            assert(line_occurrence_selections(l, idx as int, p, search_start as int)
                                =~= Seq::<Selection>::empty());
                            assert(new_selections@ =~= before + line_occurrence_selections(l, idx as int, p, 0));
                        }
                        break;
                    },
                }
            }
            assert(l == sl[idx as int]);
            assert(new_selections@ == occurrence_selections(sl, p, idx + 1));
            idx += 1;
        }
        if new_selections.len() > 0 {
            self.selections = new_selections;
            self.primary_index = 0;
        }
    }

    /// Sorts the selections by start and joins every selection that starts
    /// at or before the end of the one before it; the joined selection runs
    /// from the first start to the furthest end. The primary index is
    /// clamped to the last selection.
    pub fn merge_overlapping(&mut self)
        requires
            old(self).wf(),
        ensures
            final(self).wf(),
            final(self).spec_selections() == merged(old(self).spec_selections()),
            final(self).spec_primary() == if old(self).spec_primary() < final(self).spec_selections().len() {
                old(self).spec_primary()
            } else {
                (final(self).spec_selections().len() - 1) as nat
            },
    {
        if self.selections.len() <= 1 {
            return;
        }
        let sorted = sort_selections_by_start(&self.selections);
        let ghost srt = sorted@;
        let n = sorted.len();
        let mut merged_sels: Vec<Selection> = Vec::new();
        let mut current = sorted[0];
        let mut i: usize = 1;
        assert(srt.skip(1) == srt.skip(1));
        while i < n
            invariant
                srt == sorted@,
                n == srt.len(),
                1 <= i <= n,
                merged_sels@ + merge_from(current, srt.skip(i as int)) == merge_from(srt[0], srt.skip(1)),
            decreases n - i,
        {
            let s = sorted[i];
            assert(srt.skip(i as int)[0] == s);
            assert(srt.skip(i as int).drop_first() =~= srt.skip(i + 1));
            let s_start = s.start();
            let c_end = current.end();
            if pos_le_exec(s_start, c_end) {
                let s_end = s.end();
                let new_end = if pos_lt_exec(c_end, s_end) { s_end } else { c_end };
                current = Selection { anchor: current.start(), cursor: new_end };
            } else {
                let ghost prev = merged_sels@;
                merged_sels.push(current);
                assert(merged_sels@ + merge_from(s, srt.skip(i + 1)) =~= prev + (seq![prev_current(current)] + merge_from(s, srt.skip(i + 1))));
                current = s;
            }
            i += 1;
        }
        assert(srt.skip(n as int) =~= Seq::<Selection>::empty());
        merged_sels.push(current);
        self.selections = merged_sels;
        if self.primary_index > self.selections.len() - 1 {
            self.primary_index = self.selections.len() - 1;
        }
    }

    /// The number of selections.
    pub fn count(&self) -> (r: usize)
        ensures
            r == self.spec_selections().len(),
    {
        self.selections.len()
    }
}


// ---------------------------------------------------------------------
// Laws
// ---------------------------------------------------------------------

/// After a cursor is added at a position, there is a cursor there.
pub proof fn lemma_add_then_has(sels: Seq<Selection>, position: CursorPosition)
    ensures
        has_cursor(with_cursor_added(sels, position), position),
{
    if !has_cursor(sels, position) {
        let r = sels.push(Selection::at(position));
        assert(r[sels.len() as int].cursor == position);
    }
}

/// Adding a cursor twice at the same position is adding it once.
pub proof fn lemma_add_idempotent(sels: Seq<Selection>, position: CursorPosition)
    ensures
        with_cursor_added(with_cursor_added(sels, position), position) == with_cursor_added(sels, position),
{
    lemma_add_then_has(sels, position);
}

proof fn lemma_without_cursor_has_none(sels: Seq<Selection>, position: CursorPosition)
    ensures
        !has_cursor(without_cursor_at(sels, position), position),
        without_cursor_at(sels, position).len() <= sels.len(),
    decreases sels.len(),
{
    if sels.len() > 0 {
        lemma_without_cursor_has_none(sels.drop_last(), position);
        let k = without_cursor_at(sels.drop_last(), position);
        if sels.last().cursor != position {
            assert forall|i: int| 0 <= i < k.len() + 1 implies #[trigger] k.push(sels.last())[i].cursor != position by {
                if i < k.len() {
                    assert(k.push(sels.last())[i] == k[i]);
                }
            }
        }
    }
}

/// After the cursors at a position are removed, no cursor is left there,
/// unless every selection had its cursor there: then the one left is the
/// collapsed selection at that position.
pub proof fn lemma_remove_then_not_has(sels: Seq<Selection>, position: CursorPosition)
    ensures
        !has_cursor(with_cursor_removed(sels, position), position)
            || with_cursor_removed(sels, position) == seq![Selection::at(position)],
        with_cursor_removed(sels, position).len() >= 1,
{
    lemma_without_cursor_has_none(sels, position);
}

/// Removing cursors never adds selections, except the one kept so that a
/// selection always remains.
pub proof fn lemma_remove_does_not_grow(sels: Seq<Selection>, position: CursorPosition)
    requires
        sels.len() >= 1,
    ensures
        with_cursor_removed(sels, position).len() <= sels.len(),
{
    lemma_without_cursor_has_none(sels, position);
}

/// Moving by zero offsets leaves a selection unchanged, for positions in
/// the `i32` range.
pub proof fn lemma_move_by_zero(s: Selection)
    requires
        s.cursor.line <= i32::MAX,
        s.cursor.column <= i32::MAX,
    ensures
        moved(s, 0, 0) == s,
{
}

/// Whether the selections are in order of their start positions.
pub open spec fn sorted_by_start(s: Seq<Selection>) -> bool {
    forall|i: int, j: int| 0 <= i < j < s.len() ==> pos_le(#[trigger] s[i].spec_start(), #[trigger] s[j].spec_start())
}

proof fn lemma_insert_by_start_sorted(s: Seq<Selection>, x: Selection)
    requires
        sorted_by_start(s),
    ensures
        sorted_by_start(insert_by_start(s, x)),
        insert_by_start(s, x).len() == s.len() + 1,
        insert_by_start(s, x).to_multiset() == s.to_multiset().insert(x),
        forall|i: int| 0 <= i < insert_by_start(s, x).len() ==>
            (#[trigger] insert_by_start(s, x)[i] == x || s.contains(insert_by_start(s, x)[i])),
    decreases s.len(),
{
    broadcast use vstd::multiset::group_multiset_axioms;
    if s.len() == 0 {
        broadcast use vstd::seq_lib::group_seq_properties;
        assert(seq![x] == s.push(x));
    } else if pos_le(s.last().spec_start(), x.spec_start()) {
        broadcast use vstd::seq_lib::group_seq_properties;
        assert forall|i: int| 0 <= i < s.len() + 1 implies #[trigger] s.push(x)[i] == x || s.contains(s.push(x)[i]) by {
            if i < s.len() {
                assert(s.contains(s[i]));
            }
        }
    } else {
        let d = s.drop_last();
        assert(sorted_by_start(d));
        lemma_insert_by_start_sorted(d, x);
        let r = insert_by_start(d, x);
        let y = s.last();
        broadcast use vstd::seq_lib::group_seq_properties;
        assert(s == d.push(y));
        assert forall|i: int, j: int| 0 <= i < j < r.len() + 1 implies pos_le(#[trigger] r.push(y)[i].spec_start(), #[trigger] r.push(y)[j].spec_start()) by {
            if j == r.len() {
                assert(r[i] == x || d.contains(r[i]));
                if r[i] != x {
                    let k = choose|k: int| 0 <= k < d.len() && d[k] == r[i];
                    assert(s[k] == d[k]);
                    assert(pos_le(s[k].spec_start(), s[s.len() - 1].spec_start()));
                }
            }
        }
        assert forall|i: int| 0 <= i < r.len() + 1 implies #[trigger] r.push(y)[i] == x || s.contains(r.push(y)[i]) by {
            if i < r.len() {
                if r[i] != x {
                    let k = choose|k: int| 0 <= k < d.len() && d[k] == r[i];
                    assert(s[k] == d[k]);
                }
            } else {
                assert(s[s.len() - 1] == y);
            }
        }
        assert(s.to_multiset() == d.to_multiset().insert(y));
        assert(r.push(y).to_multiset() == r.to_multiset().insert(y));
        assert(r.push(y).to_multiset() =~= s.to_multiset().insert(x));
    }
}

/// Sorting by start keeps every selection, each as often as before, and
/// puts them in order of their start positions.
pub proof fn lemma_sort_by_start(s: Seq<Selection>)
    ensures
        sorted_by_start(sort_by_start(s)),
        sort_by_start(s).len() == s.len(),
        sort_by_start(s).to_multiset() == s.to_multiset(),
    decreases s.len(),
{
    broadcast use vstd::multiset::group_multiset_axioms;
    if s.len() > 0 {
        lemma_sort_by_start(s.drop_last());
        lemma_insert_by_start_sorted(sort_by_start(s.drop_last()), s.last());
        broadcast use vstd::seq_lib::group_seq_properties;
        assert(s == s.drop_last().push(s.last()));
    } else {
        broadcast use vstd::seq_lib::group_seq_properties;
    }
}

proof fn lemma_merge_from_disjoint(current: Selection, rest: Seq<Selection>)
    requires
        sorted_by_start(rest),
        forall|i: int| 0 <= i < rest.len() ==> pos_le(current.spec_start(), #[trigger] rest[i].spec_start()),
    ensures
        merge_from(current, rest).len() >= 1,
        merge_from(current, rest)[0].spec_start() == current.spec_start(),
        forall|i: int| 0 <= i < merge_from(current, rest).len() ==>
            pos_le(current.spec_start(), #[trigger] merge_from(current, rest)[i].spec_start()),
        forall|i: int| 0 <= i < merge_from(current, rest).len() - 1 ==>
            pos_lt(#[trigger] merge_from(current, rest)[i].spec_end(), merge_from(current, rest)[i + 1].spec_start()),
    decreases rest.len(),
{
    if rest.len() > 0 {
        let s = rest[0];
        let tail = rest.drop_first();
        assert(sorted_by_start(tail)) by {
            assert forall|i: int, j: int| 0 <= i < j < tail.len() implies pos_le(#[trigger] tail[i].spec_start(), #[trigger] tail[j].spec_start()) by {
                assert(tail[i] == rest[i + 1] && tail[j] == rest[j + 1]);
            }
        }
        if pos_le(s.spec_start(), current.spec_end()) {
            let c = Selection { anchor: current.spec_start(), cursor: pos_max(current.spec_end(), s.spec_end()) };
            assert(c.spec_start() == current.spec_start());
            assert forall|i: int| 0 <= i < tail.len() implies pos_le(c.spec_start(), #[trigger] tail[i].spec_start()) by {
                assert(tail[i] == rest[i + 1]);
            }
            lemma_merge_from_disjoint(c, tail);
        } else {
            assert forall|i: int| 0 <= i < tail.len() implies pos_le(s.spec_start(), #[trigger] tail[i].spec_start()) by {
                assert(tail[i] == rest[i + 1]);
            }
            lemma_merge_from_disjoint(s, tail);
            let m = merge_from(s, tail);
            let r = seq![current] + m;
            assert(merge_from(current, rest) == r);
            assert forall|i: int| 0 <= i < r.len() implies pos_le(current.spec_start(), #[trigger] r[i].spec_start()) by {
                if i > 0 {
                    assert(r[i] == m[i - 1]);
                }
            }
            assert forall|i: int| 0 <= i < r.len() - 1 implies pos_lt(#[trigger] r[i].spec_end(), r[i + 1].spec_start()) by {
                if i > 0 {
                    assert(r[i] == m[i - 1] && r[i + 1] == m[i]);
                } else {
                    assert(r[1] == m[0]);
                }
            }
        }
    }
}

/// After merging, the selections are in order and no two overlap: each one
/// ends strictly before the next one starts.
pub proof fn lemma_merged_disjoint(s: Seq<Selection>)
    requires
        s.len() >= 2,
    ensures
        merged(s).len() >= 1,
        merged(s).len() <= s.len(),
        forall|i: int| 0 <= i < merged(s).len() - 1 ==>
            pos_lt(#[trigger] merged(s)[i].spec_end(), merged(s)[i + 1].spec_start()),
{
    let sorted = sort_by_start(s);
    lemma_sort_by_start(s);
    let tail = sorted.drop_first();
    assert(sorted_by_start(tail)) by {
        assert forall|i: int, j: int| 0 <= i < j < tail.len() implies pos_le(#[trigger] tail[i].spec_start(), #[trigger] tail[j].spec_start()) by {
            assert(tail[i] == sorted[i + 1] && tail[j] == sorted[j + 1]);
        }
    }
    assert forall|i: int| 0 <= i < tail.len() implies pos_le(sorted[0].spec_start(), #[trigger] tail[i].spec_start()) by {
        assert(tail[i] == sorted[i + 1]);
    }
    lemma_merge_from_disjoint(sorted[0], tail);
    lemma_merge_from_len(sorted[0], tail);
}

/// Whether a selection covers a position: the position lies between its
/// start and its end, both included.
pub open spec fn covers(s: Selection, p: CursorPosition) -> bool {
    pos_le(s.spec_start(), p) && pos_le(p, s.spec_end())
}

/// Whether some selection of a list covers a position.
pub open spec fn covered(sels: Seq<Selection>, p: CursorPosition) -> bool {
    exists|i: int| 0 <= i < sels.len() && #[trigger] covers(sels[i], p)
}

proof fn lemma_covered_cons(x: Selection, rest: Seq<Selection>, p: CursorPosition)
    ensures
        covered(seq![x] + rest, p) <==> covers(x, p) || covered(rest, p),
{
    let c = seq![x] + rest;
    if covered(c, p) {
        let i = choose|i: int| 0 <= i < c.len() && #[trigger] covers(c[i], p);
        if i > 0 {
            assert(c[i] == rest[i - 1]);
        }
    }
    if covered(rest, p) {
        let i = choose|i: int| 0 <= i < rest.len() && #[trigger] covers(rest[i], p);
        assert(c[i + 1] == rest[i]);
    }
    if covers(x, p) {
        assert(c[0] == x);
    }
}

proof fn lemma_merge_from_covers(current: Selection, rest: Seq<Selection>, p: CursorPosition)
    requires
        sorted_by_start(rest),
        forall|i: int| 0 <= i < rest.len() ==> pos_le(current.spec_start(), #[trigger] rest[i].spec_start()),
    ensures
        covered(merge_from(current, rest), p) <==> covers(current, p) || covered(rest, p),
    decreases rest.len(),
{
    if rest.len() == 0 {
        lemma_covered_cons(current, rest, p);
        assert(seq![current] + rest =~= seq![current]);
    } else {
        let s = rest[0];
        let tail = rest.drop_first();
        assert(rest =~= seq![s] + tail);
        lemma_covered_cons(s, tail, p);
        assert(sorted_by_start(tail)) by {
            assert forall|i: int, j: int| 0 <= i < j < tail.len() implies pos_le(#[trigger] tail[i].spec_start(), #[trigger] tail[j].spec_start()) by {
                assert(tail[i] == rest[i + 1] && tail[j] == rest[j + 1]);
            }
        }
        assert(pos_le(current.spec_start(), s.spec_start()));
        if pos_le(s.spec_start(), current.spec_end()) {
            let c = Selection { anchor: current.spec_start(), cursor: pos_max(current.spec_end(), s.spec_end()) };
            assert forall|i: int| 0 <= i < tail.len() implies pos_le(c.spec_start(), #[trigger] tail[i].spec_start()) by {
                assert(tail[i] == rest[i + 1]);
            }
            lemma_merge_from_covers(c, tail, p);
            assert(covers(c, p) <==> covers(current, p) || covers(s, p));
        } else {
            assert forall|i: int| 0 <= i < tail.len() implies pos_le(s.spec_start(), #[trigger] tail[i].spec_start()) by {
                assert(tail[i] == rest[i + 1]);
                assert(pos_le(rest[0].spec_start(), rest[i + 1].spec_start()));
            }
            lemma_merge_from_covers(s, tail, p);
            lemma_covered_cons(current, merge_from(s, tail), p);
        }
    }
}

/// Merging keeps what the selections cover: a position is covered by a
/// merged selection exactly when it was covered by one of the selections
/// before.
pub proof fn lemma_merged_covers(s: Seq<Selection>, p: CursorPosition)
    ensures
        covered(merged(s), p) <==> covered(s, p),
{
    if s.len() > 1 {
        broadcast use vstd::seq_lib::group_to_multiset_ensures;
        let sorted = sort_by_start(s);
        lemma_sort_by_start(s);
        assert(covered(sorted, p) <==> covered(s, p)) by {
            if covered(sorted, p) {
                let i = choose|i: int| 0 <= i < sorted.len() && #[trigger] covers(sorted[i], p);
                assert(sorted.contains(sorted[i]));
                assert(sorted.to_multiset().count(sorted[i]) > 0);
                assert(s.contains(sorted[i]));
                let j = choose|j: int| 0 <= j < s.len() && s[j] == sorted[i];
                assert(covers(s[j], p));
            }
            if covered(s, p) {
                let i = choose|i: int| 0 <= i < s.len() && #[trigger] covers(s[i], p);
                assert(s.contains(s[i]));
                assert(s.to_multiset().count(s[i]) > 0);
                assert(sorted.contains(s[i]));
                let j = choose|j: int| 0 <= j < sorted.len() && sorted[j] == s[i];
                assert(covers(sorted[j], p));
            }
        }
        let tail = sorted.drop_first();
        assert(sorted =~= seq![sorted[0]] + tail);
        assert(sorted_by_start(tail)) by {
            assert forall|i: int, j: int| 0 <= i < j < tail.len() implies pos_le(#[trigger] tail[i].spec_start(), #[trigger] tail[j].spec_start()) by {
                assert(tail[i] == sorted[i + 1] && tail[j] == sorted[j + 1]);
            }
        }
        assert forall|i: int| 0 <= i < tail.len() implies pos_le(sorted[0].spec_start(), #[trigger] tail[i].spec_start()) by {
            assert(tail[i] == sorted[i + 1]);
        }
        lemma_merge_from_covers(sorted[0], tail, p);
        lemma_covered_cons(sorted[0], tail, p);
    }
}

/// Whether a selection runs forward: its anchor is not after its cursor.
pub open spec fn forward(s: Selection) -> bool {
    pos_le(s.anchor, s.cursor)
}

proof fn lemma_merge_from_forward(current: Selection, rest: Seq<Selection>)
    requires
        forward(current),
        forall|i: int| 0 <= i < rest.len() ==> forward(#[trigger] rest[i]),
    ensures
        forall|i: int| 0 <= i < merge_from(current, rest).len() ==> forward(#[trigger] merge_from(current, rest)[i]),
    decreases rest.len(),
{
    if rest.len() > 0 {
        let s = rest[0];
        let tail = rest.drop_first();
        assert forall|i: int| 0 <= i < tail.len() implies forward(#[trigger] tail[i]) by {
            assert(tail[i] == rest[i + 1]);
        }
        if pos_le(s.spec_start(), current.spec_end()) {
            let c = Selection { anchor: current.spec_start(), cursor: pos_max(current.spec_end(), s.spec_end()) };
            assert(forward(c));
            lemma_merge_from_forward(c, tail);
            assert(merge_from(current, rest) == merge_from(c, tail));
        } else {
            lemma_merge_from_forward(s, tail);
            let m = merge_from(s, tail);
            let r = seq![current] + m;
            assert(merge_from(current, rest) == r);
            assert forall|i: int| 0 <= i < r.len() implies forward(#[trigger] r[i]) by {
                if i > 0 {
                    assert(r[i] == m[i - 1]);
                }
            }
        }
    } else {
        assert(merge_from(current, rest) == seq![current]);
        assert(seq![current][0] == current);
    }
}

/// Merging selections that all run forward gives selections that run
/// forward: each merged selection keeps its anchor at its start and puts
/// its cursor at its end.
pub proof fn lemma_merged_forward(s: Seq<Selection>)
    requires
        forall|i: int| 0 <= i < s.len() ==> forward(#[trigger] s[i]),
    ensures
        forall|i: int| 0 <= i < merged(s).len() ==> {
            let m = #[trigger] merged(s)[i];
            &&& pos_le(m.anchor, m.cursor)
            &&& m.anchor == m.spec_start()
            &&& m.cursor == m.spec_end()
        },
{
    if s.len() > 1 {
        broadcast use vstd::seq_lib::group_to_multiset_ensures;
        let sorted = sort_by_start(s);
        lemma_sort_by_start(s);
        assert forall|i: int| 0 <= i < sorted.len() implies forward(#[trigger] sorted[i]) by {
            assert(sorted.contains(sorted[i]));
            assert(sorted.to_multiset().count(sorted[i]) > 0);
            assert(s.contains(sorted[i]));
        }
        let tail = sorted.drop_first();
        assert forall|i: int| 0 <= i < tail.len() implies forward(#[trigger] tail[i]) by {
            assert(tail[i] == sorted[i + 1]);
        }
        lemma_merge_from_forward(sorted[0], tail);
    }
}

proof fn lemma_merge_from_len(current: Selection, rest: Seq<Selection>)
    ensures
        merge_from(current, rest).len() <= rest.len() + 1,
    decreases rest.len(),
{
    if rest.len() > 0 {
        let s = rest[0];
        let c = Selection { anchor: current.spec_start(), cursor: pos_max(current.spec_end(), s.spec_end()) };
        lemma_merge_from_len(c, rest.drop_first());
        lemma_merge_from_len(s, rest.drop_first());
    }
}

impl Default for MultiCursor {
    /// A single cursor at the start of the document.
    fn default() -> (r: Self)
        ensures
            r.wf(),
            r.spec_selections() == seq![Selection::at(CursorPosition { line: 0, column: 0 })],
            r.spec_primary() == 0,
    {
        Self::new()
    }
}

} // verus!
