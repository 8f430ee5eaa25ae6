//! Git changes of a file, as the gutter shows them: which lines were added,
//! modified or deleted, read from a unified diff, and a cache of the diffs
//! of the files looked at.

use vstd::prelude::*;
use crate::text::{
    chars_of, spec_lines, split_lines, starts_with, starts_with_chars, str_eq, string_from_chars, trim,
    trim_exec, sub_chars,
};

verus! {

broadcast use vstd::string::group_string_axioms;

/// How a line changed.
#[derive(Debug, Clone, Copy, PartialEq, Eq)]
pub enum ChangeType {
    Added,
    Modified,
    Deleted,
}

/// The gutter colour of each kind of change.
pub open spec fn change_color(t: ChangeType) -> Seq<char> {
    match t {
        ChangeType::Added => "#587c0c"@,
        ChangeType::Modified => "#0c7d9d"@,
        ChangeType::Deleted => "#94151b"@,
    }
}

/// The gutter mark of each kind of change.
pub open spec fn change_indicator(t: ChangeType) -> Seq<char> {
    match t {
        ChangeType::Added => "▎"@,
        ChangeType::Modified => "▎"@,
        ChangeType::Deleted => "▼"@,
    }
}

impl ChangeType {
    /// The gutter colour: green, blue or red.
    pub fn gutter_color(&self) -> (r: &'static str)
        ensures
            r@ == change_color(*self),
    {
        match self {
            ChangeType::Added => "#587c0c",
            ChangeType::Modified => "#0c7d9d",
            ChangeType::Deleted => "#94151b",
        }
    }

    /// The gutter mark: a bar, or a triangle for a deletion.
    pub fn gutter_indicator(&self) -> (r: &'static str)
        ensures
            r@ == change_indicator(*self),
    {
        match self {
            ChangeType::Added => "▎",
            ChangeType::Modified => "▎",
            ChangeType::Deleted => "▼",
        }
    }
}

/// A changed line, with the deleted text for a deletion.
#[derive(Debug, Clone)]
pub struct LineChange {
    pub line_number: usize,
    pub change_type: ChangeType,
    pub old_content: Option<String>,
}

/// A changed line as a value.
pub struct ChangeSpec {
    pub line_number: usize,
    pub change_type: ChangeType,
    pub old_content: Option<Seq<char>>,
}

impl View for LineChange {
    type V = ChangeSpec;

    open spec fn view(&self) -> ChangeSpec {
        ChangeSpec {
            line_number: self.line_number,
            change_type: self.change_type,
            old_content: match self.old_content {
                Some(s) => Some(s@),
                None => None,
            },
        }
    }
}

impl LineChange {
    pub fn new(line_number: usize, change_type: ChangeType) -> (r: Self)
        ensures
            r@ == (ChangeSpec { line_number, change_type, old_content: None }),
    {
        Self { line_number, change_type, old_content: None }
    }

    pub fn with_old_content(line_number: usize, change_type: ChangeType, old_content: String) -> (r: Self)
        ensures
            r@ == (ChangeSpec { line_number, change_type, old_content: Some(old_content@) }),
    {
        Self { line_number, change_type, old_content: Some(old_content) }
    }
}

/// The values of a sequence of changes.
pub open spec fn change_views(s: Seq<LineChange>) -> Seq<ChangeSpec> {
    s.map_values(|c: LineChange| c@)
}

/// The changed lines of one file.
#[derive(Debug, Clone)]
pub struct FileDiff {
    pub file_path: String,
    pub changes: Vec<LineChange>,
}

/// The first change at a line, if any.
pub open spec fn first_change_at(cs: Seq<ChangeSpec>, line: usize) -> Option<int>
    decreases cs.len(),
{
    if cs.len() == 0 {
        None
    } else if cs[0].line_number == line {
        Some(0)
    } else {
        match first_change_at(cs.drop_first(), line) {
            Some(i) => Some(i + 1),
            None => None,
        }
    }
}

impl FileDiff {
    /// No change yet.
    pub fn new(file_path: String) -> (r: Self)
        ensures
            r.file_path@ == file_path@,
            change_views(r.changes@) == Seq::<ChangeSpec>::empty(),
    {
        let r = Self { file_path, changes: Vec::new() };
        assert(change_views(r.changes@) =~= Seq::<ChangeSpec>::empty());
        r
    }

    /// Adds a change after the others.
    pub fn add_change(&mut self, change: LineChange)
        ensures
            final(self).file_path@ == old(self).file_path@,
            change_views(final(self).changes@) == change_views(old(self).changes@).push(change@),
    {
        self.changes.push(change);
        assert(change_views(self.changes@) =~= change_views(old(self).changes@).push(change@));
    }

    /// The first change at `line`, if any.
    pub fn get_change_at_line(&self, line: usize) -> (r: Option<&LineChange>)
        ensures
            match first_change_at(change_views(self.changes@), line) {
                Some(i) => r matches Some(c) && c@ == change_views(self.changes@)[i],
                None => r is None,
            },
    {
        let ghost cs = change_views(self.changes@);
        let mut i: usize = 0;
        assert(cs.skip(0) =~= cs);
        while i < self.changes.len()
            invariant
                i <= self.changes@.len(),
                cs == change_views(self.changes@),
                first_change_at(cs, line) == match first_change_at(cs.skip(i as int), line) {
                    Some(k) => Some(k + i),
                    None => None::<int>,
                },
            decreases self.changes@.len() - i,
        {
            assert(cs.skip(i as int)[0] == cs[i as int]);
            if self.changes[i].line_number == line {
                return Some(&self.changes[i]);
            }
            assert(cs.skip(i as int).drop_first() =~= cs.skip(i + 1));
            i += 1;
        }
        assert(cs.skip(i as int) =~= Seq::<ChangeSpec>::empty());
        None
    }

    /// Whether any line changed.
    pub fn has_changes(&self) -> (r: bool)
        ensures
            r == (self.changes@.len() > 0),
    {
        self.changes.len() > 0
    }
}

// ---------------------------------------------------------------------
// Reading a unified diff
// ---------------------------------------------------------------------

/// The position of the first `c` in `s`; the length of `s` if none.
pub open spec fn index_of(s: Seq<char>, c: char) -> int
    decreases s.len(),
{
    if s.len() == 0 {
        0
    } else if s[0] == c {
        0
    } else {
        index_of(s.drop_first(), c) + 1
    }
}

/// Whether every character is an ASCII digit.
pub open spec fn all_digits(s: Seq<char>) -> bool {
    forall|i: int| 0 <= i < s.len() ==> '0' <= #[trigger] s[i] <= '9'
}

/// The number that decimal digits spell.
pub open spec fn decimal_value(s: Seq<char>) -> nat
    decreases s.len(),
{
    if s.len() == 0 {
        0
    } else {
        decimal_value(s.drop_last()) * 10 + ((s.last() as u32) - ('0' as u32)) as nat
    }
}

/// A decimal number read as `usize` the way `str::parse` reads it: an
/// optional `+`, then at least one digit, and no more than `usize::MAX`.
pub open spec fn parse_usize(s: Seq<char>) -> Option<usize> {
    let d = if s.len() > 0 && s[0] == '+' { s.drop_first() } else { s };
    if d.len() == 0 || !all_digits(d) || decimal_value(d) > usize::MAX {
        None
    } else {
        Some(decimal_value(d) as usize)
    }
}

/// The first line number of the new file in a hunk header
/// `@@ -a,b +c,d @@`: the text after the first `+` (up to the next one),
/// before its first comma, trimmed and read as a number.
pub open spec fn hunk_new_start(header: Seq<char>) -> Option<usize> {
    let p = index_of(header, '+');
    if p >= header.len() {
        None
    } else {
        let rest = header.skip(p + 1);
        let field = rest.take(index_of(rest, '+'));
        parse_usize(trim(field.take(index_of(field, ','))))
    }
}

/// The state of reading a diff: the changes so far, the new file's line
/// the next line of the hunk is at, whether a hunk was entered, and
/// whether the line count stayed within `usize`.
pub struct DiffState {
    pub changes: Seq<ChangeSpec>,
    pub line: int,
    pub in_hunk: bool,
    pub fits: bool,
}

/// The state after one more line of the diff: a hunk header sets the line
/// (when its number can be read); inside a hunk, an added line is recorded
/// and advances the line, a deleted line is recorded at the current line
/// with its text, and a context line advances the line; everything else is
/// skipped.
pub open spec fn diff_step(st: DiffState, l: Seq<char>) -> DiffState {
    if starts_with(l, "@@"@) {
        match hunk_new_start(l) {
            Some(n) => DiffState { line: n as int, in_hunk: true, ..st },
            None => st,
        }
    } else if !st.in_hunk {
        st
    } else if starts_with(l, "+"@) && !starts_with(l, "+++"@) {
        DiffState {
            changes: st.changes.push(
                ChangeSpec { line_number: st.line as usize, change_type: ChangeType::Added, old_content: None },
            ),
            line: st.line + 1,
            fits: st.fits && st.line + 1 <= usize::MAX,
            ..st
        }
    } else if starts_with(l, "-"@) && !starts_with(l, "---"@) {
        DiffState {
            changes: st.changes.push(
                ChangeSpec {
                    line_number: st.line as usize,
                    change_type: ChangeType::Deleted,
                    old_content: Some(l.drop_first()),
                },
            ),
            ..st
        }
    } else if starts_with(l, " "@) {
        DiffState { line: st.line + 1, fits: st.fits && st.line + 1 <= usize::MAX, ..st }
    } else {
        st
    }
}

/// The state after reading the lines.
pub open spec fn diff_lines(ls: Seq<Seq<char>>) -> DiffState
    decreases ls.len(),
{
    if ls.len() == 0 {
        DiffState { changes: Seq::empty(), line: 0, in_hunk: false, fits: true }
    } else {
        diff_step(diff_lines(ls.drop_last()), ls.last())
    }
}

/// The changes a unified diff records.
pub open spec fn parsed_diff(text: Seq<char>) -> Seq<ChangeSpec> {
    diff_lines(spec_lines(text)).changes
}

/// Whether reading the diff keeps the line count within `usize`.
pub open spec fn diff_fits(text: Seq<char>) -> bool {
    diff_lines(spec_lines(text)).fits
}

/// Every hunk header, not only the first, sets the new file's line: after
/// a header `@@ -a,b +c,d @@`, whatever came before it, an added line is
/// recorded as added at line `c`, and a deleted line as deleted at line `c`
/// with its text.
pub proof fn lemma_hunk_header_sets_line(ls: Seq<Seq<char>>, header: Seq<char>, c: usize, x: Seq<char>)
    requires
        starts_with(header, "@@"@),
        hunk_new_start(header) == Some(c),
        x.len() > 0,
    ensures
        x[0] == '+' && !starts_with(x, "+++"@) ==> diff_lines(ls.push(header).push(x)).changes
            == diff_lines(ls).changes.push(ChangeSpec { line_number: c, change_type: ChangeType::Added, old_content: None }),
        x[0] == '-' && !starts_with(x, "---"@) ==> diff_lines(ls.push(header).push(x)).changes
            == diff_lines(ls).changes.push(
                ChangeSpec { line_number: c, change_type: ChangeType::Deleted, old_content: Some(x.drop_first()) },
            ),
{
    reveal_strlit("@@");
    reveal_strlit("+");
    reveal_strlit("-");
    let l2 = ls.push(header).push(x);
    assert(l2.drop_last() =~= ls.push(header));
    assert(ls.push(header).drop_last() =~= ls);
    let st0 = diff_lines(ls);
    let st1 = diff_lines(ls.push(header));
    assert(st1 == diff_step(st0, header));
    assert(st1.line == c as int && st1.in_hunk && st1.changes == st0.changes);
    assert(diff_lines(l2) == diff_step(st1, x));
    if x[0] == '+' || x[0] == '-' {
        if starts_with(x, "@@"@) {
            assert(x.subrange(0, 2)[0] == x[0]);
            assert("@@"@[0] == '@');
        }
    }
    if x[0] == '+' {
        assert(x.subrange(0, 1) =~= "+"@);
        assert(starts_with(x, "+"@));
    }
    if x[0] == '-' {
        assert(x.subrange(0, 1) =~= "-"@);
        assert(starts_with(x, "-"@));
        if starts_with(x, "+"@) {
            assert(x.subrange(0, 1)[0] == x[0]);
            assert("+"@[0] == '+');
        }
    }
}

proof fn lemma_diff_lines_bounds(ls: Seq<Seq<char>>)
    ensures
        diff_lines(ls).line >= 0,
        diff_lines(ls).fits ==> diff_lines(ls).line <= usize::MAX,
    decreases ls.len(),
{
    if ls.len() > 0 {
        lemma_diff_lines_bounds(ls.drop_last());
    }
}

/// The position of the first `c` in `s`.
fn index_of_exec(s: &[char], c: char) -> (r: usize)
    ensures
        r == index_of(s@, c),
        r <= s@.len(),
{
    let mut i: usize = 0;
    assert(s@.skip(0) =~= s@);
    while i < s.len() && s[i] != c
        invariant
            i <= s@.len(),
            index_of(s@, c) == index_of(s@.skip(i as int), c) + i,
        decreases s@.len() - i,
    {
        assert(s@.skip(i as int).drop_first() =~= s@.skip(i + 1));
        i += 1;
    }
    proof {
        if i < s@.len() {
            assert(s@.skip(i as int)[0] == c);
        } else {
            assert(s@.skip(i as int) =~= Seq::<char>::empty());
        }
    }
    i
}

proof fn lemma_index_of_bound(s: Seq<char>, c: char)
    ensures
        0 <= index_of(s, c) <= s.len(),
        index_of(s, c) < s.len() ==> s[index_of(s, c)] == c,
    decreases s.len(),
{
    if s.len() > 0 && s[0] != c {
        lemma_index_of_bound(s.drop_first(), c);
    }
}

/// Reads a decimal number as `str::parse::<usize>` does.
pub(crate) fn parse_usize_exec(s: &[char]) -> (r: Option<usize>)
    ensures
        r == parse_usize(s@),
{
    let start: usize = if s.len() > 0 && s[0] == '+' { 1 } else { 0 };
    let ghost d = if s@.len() > 0 && s@[0] == '+' { s@.drop_first() } else { s@ };
    assert(d =~= s@.skip(start as int));
    if start == s.len() {
        return None;
    }
    let mut value: usize = 0;
    let mut i = start;
    while i < s.len()
        invariant
            start <= i <= s@.len(),
            d == s@.skip(start as int),
            d == if s@.len() > 0 && s@[0] == '+' { s@.drop_first() } else { s@ },
            d.len() > 0,
            all_digits(d.take(i - start)),
            value == decimal_value(d.take(i - start)),
        decreases s@.len() - i,
    {
        let c = s[i];
        assert(d.take(i + 1 - start).drop_last() =~= d.take(i - start));
        assert(d.take(i + 1 - start).last() == c);
        if c < '0' || c > '9' {
            assert(d[(i - start) as int] == s@[i as int]);
            assert(!all_digits(d));
            assert(parse_usize(s@) is None);
            return None;
        }
        let digit = (c as u32 - '0' as u32) as usize;
        assert(decimal_value(d.take(i + 1 - start)) == value * 10 + digit);
        match value.checked_mul(10) {
            Some(v10) => match v10.checked_add(digit) {
                Some(v) => {
                    value = v;
                },
                None => {
                    proof { lemma_decimal_prefix_le(d, i + 1 - start); }
                    return None;
                },
            },
            None => {
                proof { lemma_decimal_prefix_le(d, i + 1 - start); }
                return None;
            },
        }
        i += 1;
    }
    assert(d.take(d.len() as int) =~= d);
    Some(value)
}

/// A number never shrinks as digits follow: the value of a prefix of
/// digits is at most the value of all of them.
proof fn lemma_decimal_prefix_le(d: Seq<char>, k: int)
    requires
        0 <= k <= d.len(),
    ensures
        all_digits(d) ==> decimal_value(d.take(k)) <= decimal_value(d),
    decreases d.len() - k,
{
    if k < d.len() {
        lemma_decimal_prefix_le(d, k + 1);
        assert(d.take(k + 1).drop_last() =~= d.take(k));
        if all_digits(d) {
            assert('0' <= d[k] <= '9');
        }
    } else {
        assert(d.take(k) =~= d);
    }
}

/// The new file's first line from a hunk header.
fn hunk_new_start_exec(header: &[char]) -> (r: Option<usize>)
    ensures
        r == hunk_new_start(header@),
{
    let p = index_of_exec(header, '+');
    if p >= header.len() {
        return None;
    }
    let rest = sub_chars(header, p + 1, header.len());
    assert(rest@ =~= header@.skip(p + 1));
    let q = index_of_exec(rest.as_slice(), '+');
    let field = sub_chars(rest.as_slice(), 0, q);
    assert(field@ =~= rest@.take(q as int));
    let k = index_of_exec(field.as_slice(), ',');
    let head = sub_chars(field.as_slice(), 0, k);
    assert(head@ =~= field@.take(k as int));
    let t = trim_exec(head.as_slice());
    parse_usize_exec(t.as_slice())
}

impl GitDiffTracker {
    /// Reads the changed lines of a unified diff: added lines at the new
    /// file's line they take, deleted lines at the line where they were, with
    /// their text.
    pub fn parse_unified_diff(diff_text: &str, file_path: String) -> (r: FileDiff)
        requires
            diff_fits(diff_text@),
        ensures
            r.file_path@ == file_path@,
            change_views(r.changes@) == parsed_diff(diff_text@),
    {
        let mut file_diff = FileDiff::new(file_path);
        let tc = chars_of(diff_text);
        let lines = split_lines(tc.as_slice());
        let ghost ls = spec_lines(diff_text@);
        let at = chars_of("@@");
        let plus = chars_of("+");
        let plus3 = chars_of("+++");
        let minus = chars_of("-");
        let minus3 = chars_of("---");
        let space = chars_of(" ");
        let mut current: usize = 0;
        let mut in_hunk = false;
        let mut i: usize = 0;
        assert(ls.take(0) =~= Seq::<Seq<char>>::empty());
        while i < lines.len()
            invariant
                i <= lines@.len(),
                lines@.len() == ls.len(),
                forall|k: int| 0 <= k < lines@.len() ==> #[trigger] lines@[k]@ == ls[k],
                ls == spec_lines(diff_text@),
                diff_lines(ls).fits,
                at@ == "@@"@,
                plus@ == "+"@,
                plus3@ == "+++"@,
                minus@ == "-"@,
                minus3@ == "---"@,
                space@ == " "@,
                diff_lines(ls.take(i as int)).changes == change_views(file_diff.changes@),
                diff_lines(ls.take(i as int)).line == current as int,
                diff_lines(ls.take(i as int)).in_hunk == in_hunk,
                diff_lines(ls.take(i as int)).fits,
                file_diff.file_path@ == file_path@,
            decreases lines@.len() - i,
        {
            let line = &lines[i];
            let ghost st = diff_lines(ls.take(i as int));
            assert(ls.take(i + 1).drop_last() =~= ls.take(i as int));
            assert(ls.take(i + 1).last() == line@);
            proof {
                lemma_diff_prefix_fits(ls, i as int + 1);
            }
            if starts_with_chars(line.as_slice(), at.as_slice()) {
                match hunk_new_start_exec(line.as_slice()) {
                    Some(n) => {
                        current = n;
                        in_hunk = true;
                    },
                    None => {},
                }
            } else if !in_hunk {
            } else if starts_with_chars(line.as_slice(), plus.as_slice()) && !starts_with_chars(line.as_slice(), plus3.as_slice()) {
                file_diff.add_change(LineChange::new(current, ChangeType::Added));
                current = current + 1;
            } else if starts_with_chars(line.as_slice(), minus.as_slice()) && !starts_with_chars(line.as_slice(), minus3.as_slice()) {
                proof {
                    reveal_strlit("-");
                }
                let old = sub_chars(line.as_slice(), 1, line.len());
                assert(old@ =~= line@.drop_first());
                let old_text = string_from_chars(old.as_slice());
                file_diff.add_change(LineChange::with_old_content(current, ChangeType::Deleted, old_text));
            } else if starts_with_chars(line.as_slice(), space.as_slice()) {
                current = current + 1;
            }
            i += 1;
        }
        assert(ls.take(ls.len() as int) =~= ls);
        file_diff
    }
}

/// Reading a prefix of the lines keeps within `usize` when reading all of
/// them does.
proof fn lemma_diff_prefix_fits(ls: Seq<Seq<char>>, k: int)
    requires
        0 <= k <= ls.len(),
        diff_lines(ls).fits,
    ensures
        diff_lines(ls.take(k)).fits,
    decreases ls.len() - k,
{
    if k < ls.len() {
        assert(ls.take(k + 1).drop_last() =~= ls.take(k));
        lemma_diff_prefix_fits(ls, k + 1);
    } else {
        assert(ls.take(k) =~= ls);
    }
}

/// Each change read from diff lines is an addition without old text or a
/// deletion with it.
proof fn lemma_diff_lines_kinds(ls: Seq<Seq<char>>)
    ensures
        forall|i: int| 0 <= i < diff_lines(ls).changes.len() ==> {
            let c = #[trigger] diff_lines(ls).changes[i];
            (c.change_type == ChangeType::Added && c.old_content is None)
                || (c.change_type == ChangeType::Deleted && c.old_content is Some)
        },
    decreases ls.len(),
{
    if ls.len() > 0 {
        lemma_diff_lines_kinds(ls.drop_last());
    }
}

/// Reading a unified diff records only added and deleted lines (never a
/// modified one): a deleted line keeps its old text, an added one has none.
pub proof fn lemma_parsed_diff_kinds(text: Seq<char>)
    ensures
        forall|i: int| 0 <= i < parsed_diff(text).len() ==> {
            let c = #[trigger] parsed_diff(text)[i];
            (c.change_type == ChangeType::Added && c.old_content is None)
                || (c.change_type == ChangeType::Deleted && c.old_content is Some)
        },
{
    lemma_diff_lines_kinds(spec_lines(text));
}

// ---------------------------------------------------------------------
// The diffs of the files looked at
// ---------------------------------------------------------------------

/// A file's diff as a value: its path and its changes.
pub struct DiffSpec {
    pub file_path: Seq<char>,
    pub changes: Seq<ChangeSpec>,
}

impl View for FileDiff {
    type V = DiffSpec;

    open spec fn view(&self) -> DiffSpec {
        DiffSpec { file_path: self.file_path@, changes: change_views(self.changes@) }
    }
}

/// The position of `path` among `paths`, if it is there.
pub open spec fn path_index(paths: Seq<Seq<char>>, path: Seq<char>) -> Option<int> {
    if exists|i: int| 0 <= i < paths.len() && paths[i] == path {
        Some(choose|i: int| 0 <= i < paths.len() && paths[i] == path)
    } else {
        None
    }
}

/// The diffs loaded so far, by file path (each path once, in the order
/// the files were first loaded), and the file loaded last.
pub struct GitDiffTracker {
    current_file: Option<String>,
    diff_cache: Vec<(String, FileDiff)>,
}

/// A lookup finds the one place a path stands at, when paths are not
/// repeated.
proof fn lemma_path_index_at(paths: Seq<Seq<char>>, p: Seq<char>, j: int)
    requires
        paths.no_duplicates(),
        0 <= j < paths.len(),
        paths[j] == p,
    ensures
        path_index(paths, p) == Some(j),
{
    let i = choose|i: int| 0 <= i < paths.len() && paths[i] == p;
    assert(i == j);
}

/// A diff just stored is what looking up its path finds; a path just
/// forgotten is found nowhere.
pub proof fn lemma_store_then_get(
    paths: Seq<Seq<char>>,
    diffs: Seq<DiffSpec>,
    p: Seq<char>,
    d: DiffSpec,
    stored_paths: Seq<Seq<char>>,
    stored_diffs: Seq<DiffSpec>,
    forgotten_paths: Seq<Seq<char>>,
)
    requires
        paths.no_duplicates(),
        paths.len() == diffs.len(),
        match path_index(paths, p) {
            Some(i) => stored_paths == paths && stored_diffs == diffs.update(i, d),
            None => stored_paths == paths.push(p) && stored_diffs == diffs.push(d),
        },
        match path_index(paths, p) {
            Some(i) => forgotten_paths == paths.remove(i),
            None => forgotten_paths == paths,
        },
    ensures
        path_index(stored_paths, p) matches Some(i) && stored_diffs[i] == d,
        path_index(forgotten_paths, p) is None,
{
    match path_index(paths, p) {
        Some(i) => {
            assert(paths[i] == p);
            lemma_path_index_at(stored_paths, p, i);
            assert forall|j: int| 0 <= j < forgotten_paths.len() implies forgotten_paths[j] != p by {
                let j0 = if j < i { j } else { j + 1 };
                assert(forgotten_paths[j] == paths[j0]);
            }
        },
        None => {
            assert forall|a: int, b: int| 0 <= a < b < stored_paths.len() implies stored_paths[a] != stored_paths[b] by {
                if b == paths.len() {
                    assert(paths[a] != p);
                }
            }
            lemma_path_index_at(stored_paths, p, paths.len() as int);
        },
    }
}

impl GitDiffTracker {
    /// The cached paths, in order.
    pub closed spec fn spec_paths(&self) -> Seq<Seq<char>> {
        self.diff_cache@.map_values(|e: (String, FileDiff)| e.0@)
    }

    /// The cached diff of each path, in the same order.
    pub closed spec fn spec_diffs(&self) -> Seq<DiffSpec> {
        self.diff_cache@.map_values(|e: (String, FileDiff)| e.1@)
    }

    /// The file loaded last, if any.
    pub closed spec fn spec_current_file(&self) -> Option<Seq<char>> {
        match self.current_file {
            Some(p) => Some(p@),
            None => None,
        }
    }

    /// Each path is cached once.
    pub open spec fn wf(&self) -> bool {
        &&& self.spec_paths().no_duplicates()
        &&& self.spec_paths().len() == self.spec_diffs().len()
    }

    /// Nothing loaded.
    pub fn new() -> (r: Self)
        ensures
            r.wf(),
            r.spec_paths() == Seq::<Seq<char>>::empty(),
            r.spec_current_file() == None::<Seq<char>>,
    {
        let r = Self { current_file: None, diff_cache: Vec::new() };
        assert(r.spec_paths() =~= Seq::<Seq<char>>::empty());
        assert(r.spec_diffs() =~= Seq::<DiffSpec>::empty());
        r
    }

    fn find(&self, path: &str) -> (r: Option<usize>)
        requires
            self.wf(),
        ensures
            match r {
                Some(i) => i < self.spec_paths().len() && self.spec_paths()[i as int] == path@
                    && path_index(self.spec_paths(), path@) == Some(i as int),
                None => path_index(self.spec_paths(), path@) is None,
            },
    {
        let mut i: usize = 0;
        while i < self.diff_cache.len()
            invariant
                i <= self.diff_cache@.len(),
                self.wf(),
                self.spec_paths().len() == self.diff_cache@.len(),
                forall|j: int| 0 <= j < i ==> self.spec_paths()[j] != path@,
            decreases self.diff_cache@.len() - i,
        {
            if str_eq(self.diff_cache[i].0.as_str(), path) {
                assert(self.spec_paths()[i as int] == path@);
                assert forall|j: int| 0 <= j < self.spec_paths().len() && self.spec_paths()[j] == path@ implies j == i by {
                    if j != i {
                        assert(self.spec_paths()[j] != self.spec_paths()[i as int]);
                    }
                }
                return Some(i);
            }
            i += 1;
        }
        None
    }

    /// The cached diff of `file_path`, if it was loaded.
    pub fn get_cached_diff(&self, file_path: &str) -> (r: Option<&FileDiff>)
        requires
            self.wf(),
        ensures
            match path_index(self.spec_paths(), file_path@) {
                Some(i) => r matches Some(d) && d@ == self.spec_diffs()[i],
                None => r is None,
            },
    {
        match self.find(file_path) {
            Some(i) => Some(&self.diff_cache[i].1),
            None => None,
        }
    }

    /// Records the diff loaded for `file_path` (replacing the one cached),
    /// which becomes the current file.
    pub fn store_diff(&mut self, file_path: String, diff: FileDiff)
        requires
            old(self).wf(),
        ensures
            final(self).wf(),
            final(self).spec_current_file() == Some(file_path@),
            match path_index(old(self).spec_paths(), file_path@) {
                Some(i) => final(self).spec_paths() == old(self).spec_paths()
                    && final(self).spec_diffs() == old(self).spec_diffs().update(i, diff@),
                None => final(self).spec_paths() == old(self).spec_paths().push(file_path@)
                    && final(self).spec_diffs() == old(self).spec_diffs().push(diff@),
            },
    {
        let ghost ps0 = self.spec_paths();
        let ghost ds0 = self.spec_diffs();
        let ghost dv = diff@;
        let key = file_path.clone();
        match self.find(file_path.as_str()) {
            Some(i) => {
                self.diff_cache.set(i, (key, diff));
                assert(self.spec_paths() =~= ps0);
                assert(self.spec_diffs() =~= ds0.update(i as int, dv));
            },
            None => {
                self.diff_cache.push((key, diff));
                assert(self.spec_paths() =~= ps0.push(file_path@));
                assert(self.spec_diffs() =~= ds0.push(dv));
                assert(self.spec_paths().no_duplicates()) by {
                    assert forall|a: int, b: int| 0 <= a < b < self.spec_paths().len() implies self.spec_paths()[a] != self.spec_paths()[b] by {
                        if b == self.spec_paths().len() - 1 {
                            assert(ps0[a] == self.spec_paths()[a]);
                        }
                    }
                }
            },
        }
        self.current_file = Some(file_path);
    }

    /// Drops the cached diff of `file_path`, if any, so that it is loaded
    /// afresh.
    pub fn forget_diff(&mut self, file_path: &str)
        requires
            old(self).wf(),
        ensures
            final(self).wf(),
            final(self).spec_current_file() == old(self).spec_current_file(),
            match path_index(old(self).spec_paths(), file_path@) {
                Some(i) => final(self).spec_paths() == old(self).spec_paths().remove(i)
                    && final(self).spec_diffs() == old(self).spec_diffs().remove(i),
                None => final(self).spec_paths() == old(self).spec_paths()
                    && final(self).spec_diffs() == old(self).spec_diffs(),
            },
    {
        let ghost ps0 = self.spec_paths();
        let ghost ds0 = self.spec_diffs();
        match self.find(file_path) {
            Some(i) => {
                let _ = self.diff_cache.remove(i);
                assert(self.spec_paths() =~= ps0.remove(i as int));
                assert(self.spec_diffs() =~= ds0.remove(i as int));
                assert(self.spec_paths().no_duplicates()) by {
                    assert forall|a: int, b: int| 0 <= a < b < self.spec_paths().len() implies self.spec_paths()[a] != self.spec_paths()[b] by {
                        let a0 = if a < i { a } else { a + 1 };
                        let b0 = if b < i { b } else { b + 1 };
                        assert(self.spec_paths()[a] == ps0[a0]);
                        assert(self.spec_paths()[b] == ps0[b0]);
                    }
                }
            },
            None => {},
        }
    }

    /// Drops every cached diff.
    pub fn clear_cache(&mut self)
        requires
            old(self).wf(),
        ensures
            final(self).wf(),
            final(self).spec_paths() == Seq::<Seq<char>>::empty(),
            final(self).spec_current_file() == old(self).spec_current_file(),
    {
        self.diff_cache.clear();
        assert(self.spec_paths() =~= Seq::<Seq<char>>::empty());
        assert(self.spec_diffs() =~= Seq::<DiffSpec>::empty());
    }

    /// The paths of the cached diffs.
    pub fn get_changed_files(&self) -> (r: Vec<String>)
        requires
            self.wf(),
        ensures
            r@.map_values(|p: String| p@) == self.spec_paths(),
    {
        let mut out: Vec<String> = Vec::new();
        let mut i: usize = 0;
        while i < self.diff_cache.len()
            invariant
                i <= self.diff_cache@.len(),
                self.spec_paths().len() == self.diff_cache@.len(),
                out@.map_values(|p: String| p@) == self.spec_paths().take(i as int),
            decreases self.diff_cache@.len() - i,
        {
            let p = self.diff_cache[i].0.clone();
            let ghost prev = out@;
            out.push(p);
            assert(out@.map_values(|p: String| p@) =~= prev.map_values(|p: String| p@).push(p@));
            assert(self.spec_paths().take(i + 1) =~= self.spec_paths().take(i as int).push(self.spec_paths()[i as int]));
            i += 1;
        }
        assert(self.spec_paths().take(self.spec_paths().len() as int) =~= self.spec_paths());
        out
    }

    /// The file loaded last, if any.
    pub fn current_file(&self) -> (r: Option<&str>)
        ensures
            match self.spec_current_file() {
                Some(p) => r matches Some(s) && s@ == p,
                None => r is None,
            },
    {
        match &self.current_file {
            Some(p) => Some(p.as_str()),
            None => None,
        }
    }
}

impl Default for GitDiffTracker {
    fn default() -> (r: Self)
        ensures
            r.wf(),
            r.spec_paths() == Seq::<Seq<char>>::empty(),
            r.spec_current_file() == None::<Seq<char>>,
    {
        Self::new()
    }
}

} // verus!
