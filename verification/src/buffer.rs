//! The text buffer: the text of one file held in a rope, whether it was
//! modified since it was last saved, a version that grows with every edit,
//! and a cache of highlighted lines that edits invalidate around the lines
//! they touch.
//!
//! Positions are character indices. Lines follow the rope's rules: a line
//! ends after a line break (LF, CRLF taken as one, CR, VT, FF, NEL, LS or
//! PS), the break belongs to the line it ends, and a text ending with a
//! break has a last, empty line.

use vstd::prelude::*;
use std::collections::HashMap;

verus! {

broadcast use vstd::string::group_string_axioms, vstd::std_specs::hash::group_hash_axioms;

#[verifier::external_type_specification]
#[verifier::external_body]
pub struct ExRope(ropey::Rope);

/// The characters a rope holds.
pub uninterp spec fn rope_chars(r: ropey::Rope) -> Seq<char>;

// ---------------------------------------------------------------------
// Lines
// ---------------------------------------------------------------------

/// Whether a character is a line break on its own (CR also starts a CRLF
/// pair).
pub open spec fn is_line_break(c: char) -> bool {
    c == '\n' || c == '\u{0B}' || c == '\u{0C}' || c == '\r' || c == '\u{85}' || c == '\u{2028}'
        || c == '\u{2029}'
}

/// Whether a line break ends just before position `p` of `t`, so that a
/// new line starts there: the character before `p` is a break, and not the
/// CR of a CRLF pair.
pub open spec fn break_ends_at(t: Seq<char>, p: int) -> bool {
    &&& 1 <= p <= t.len()
    &&& is_line_break(t[p - 1])
    &&& !(t[p - 1] == '\r' && p < t.len() && t[p] == '\n')
}

/// The number of line breaks that end at or before position `c`: the
/// index of the line that the character at `c` belongs to.
pub open spec fn breaks_before(t: Seq<char>, c: int) -> nat
    decreases c,
{
    if c <= 0 {
        0
    } else {
        breaks_before(t, c - 1) + if break_ends_at(t, c) {
            1nat
        } else {
            0nat
        }
    }
}

/// The number of lines of a text: one more than its line breaks.
pub open spec fn line_count(t: Seq<char>) -> nat {
    breaks_before(t, t.len() as int) + 1
}

/// The position where line `i` starts; the end of the text for a line
/// past the last.
pub open spec fn line_start(t: Seq<char>, i: int) -> int {
    if i <= 0 {
        0
    } else if i >= line_count(t) {
        t.len() as int
    } else {
        choose|p: int| break_ends_at(t, p) && breaks_before(t, p) == i
    }
}

/// Line `i` of a text, with the break that ends it.
pub open spec fn line_text(t: Seq<char>, i: int) -> Seq<char> {
    t.subrange(line_start(t, i), line_start(t, i + 1))
}

// ---------------------------------------------------------------------
// The rope
// ---------------------------------------------------------------------

/// `ropey::Rope::new`: an empty rope.
#[verifier::external_body]
fn rope_new() -> (r: ropey::Rope)
    ensures
        rope_chars(r) == Seq::<char>::empty(),
{
    ropey::Rope::new()
}

/// `ropey::Rope::from_str`: a rope holding the given text.
#[verifier::external_body]
fn rope_from_str(text: &str) -> (r: ropey::Rope)
    ensures
        rope_chars(r) == text@,
{
    ropey::Rope::from_str(text)
}

/// `Clone` of a rope: a rope holding the same text (ropey shares the
/// storage between the two).
pub assume_specification[ <ropey::Rope as Clone>::clone ](rope: &ropey::Rope) -> (r: ropey::Rope)
    ensures
        rope_chars(r) == rope_chars(*rope),
;

/// `ropey::Rope::len_chars`: the number of characters.
#[verifier::external_body]
fn rope_len_chars(rope: &ropey::Rope) -> (r: usize)
    ensures
        r == rope_chars(*rope).len(),
{
    rope.len_chars()
}

/// `ropey::Rope::len_lines`: the number of lines (line breaks plus one).
#[verifier::external_body]
fn rope_len_lines(rope: &ropey::Rope) -> (r: usize)
    ensures
        r == line_count(rope_chars(*rope)),
{
    rope.len_lines()
}

/// `ropey::Rope::char_to_line`: the line that the character at `char_idx`
/// belongs to (the last line for the end of the text).
#[verifier::external_body]
fn rope_char_to_line(rope: &ropey::Rope, char_idx: usize) -> (r: usize)
    requires
        char_idx <= rope_chars(*rope).len(),
    ensures
        r == breaks_before(rope_chars(*rope), char_idx as int),
{
    rope.char_to_line(char_idx)
}

/// `ropey::Rope::line_to_char`: where line `line_idx` starts (the end of
/// the text for one past the last line).
#[verifier::external_body]
fn rope_line_to_char(rope: &ropey::Rope, line_idx: usize) -> (r: usize)
    requires
        line_idx <= line_count(rope_chars(*rope)),
    ensures
        r == line_start(rope_chars(*rope), line_idx as int),
{
    rope.line_to_char(line_idx)
}

/// `ropey::Rope::insert`: inserts `text` before the character at
/// `char_idx`.
#[verifier::external_body]
fn rope_insert(rope: &mut ropey::Rope, char_idx: usize, text: &str)
    requires
        char_idx <= rope_chars(*old(rope)).len(),
    ensures
        rope_chars(*final(rope)) == rope_chars(*old(rope)).take(char_idx as int) + text@
            + rope_chars(*old(rope)).skip(char_idx as int),
{
    rope.insert(char_idx, text)
}

/// `ropey::Rope::remove`: removes the characters `[start, end)`.
#[verifier::external_body]
fn rope_remove(rope: &mut ropey::Rope, start: usize, end: usize)
    requires
        start <= end <= rope_chars(*old(rope)).len(),
    ensures
        rope_chars(*final(rope)) == rope_chars(*old(rope)).take(start as int) + rope_chars(
            *old(rope),
        ).skip(end as int),
{
    rope.remove(start..end)
}

/// `ropey::Rope::slice`, as a string: the characters `[start, end)`.
#[verifier::external_body]
fn rope_slice_string(rope: &ropey::Rope, start: usize, end: usize) -> (r: String)
    requires
        start <= end <= rope_chars(*rope).len(),
    ensures
        r@ == rope_chars(*rope).subrange(start as int, end as int),
{
    rope.slice(start..end).to_string()
}

/// `ropey::Rope::line`, as a string: line `line_idx` with its break.
#[verifier::external_body]
fn rope_line_string(rope: &ropey::Rope, line_idx: usize) -> (r: String)
    requires
        line_idx < line_count(rope_chars(*rope)),
    ensures
        r@ == line_text(rope_chars(*rope), line_idx as int),
{
    rope.line(line_idx).to_string()
}

/// The text of a rope, as a string.
#[verifier::external_body]
fn rope_to_string(rope: &ropey::Rope) -> (r: String)
    ensures
        r@ == rope_chars(*rope),
{
    rope.to_string()
}

// ---------------------------------------------------------------------
// Edits and the highlight cache
// ---------------------------------------------------------------------

/// `t` with `s` inserted before position `idx`.
pub open spec fn inserted(t: Seq<char>, idx: int, s: Seq<char>) -> Seq<char> {
    t.take(idx) + s + t.skip(idx)
}

/// `t` without the characters `[start, end)`.
pub open spec fn removed(t: Seq<char>, start: int, end: int) -> Seq<char> {
    t.take(start) + t.skip(end)
}

/// A position clamped to the end of a text of length `n`.
pub open spec fn clamp(i: int, n: int) -> int {
    if i < n {
        i
    } else {
        n
    }
}

/// The number of `'\n'` characters in a text.
pub open spec fn newline_count(s: Seq<char>) -> nat
    decreases s.len(),
{
    if s.len() == 0 {
        0
    } else {
        newline_count(s.drop_last()) + if s.last() == '\n' {
            1nat
        } else {
            0nat
        }
    }
}

/// A cache without its entries for the lines `[lo, hi]`.
pub open spec fn drop_lines<V>(m: Map<usize, V>, lo: int, hi: int) -> Map<usize, V> {
    m.restrict(Set::new(|k: usize| k < lo || k > hi))
}

/// A cache with only its entries for the lines `[lo, hi]`.
pub open spec fn keep_lines<V>(m: Map<usize, V>, lo: int, hi: int) -> Map<usize, V> {
    m.restrict(Set::new(|k: usize| lo <= k <= hi))
}

/// The columns `[start, end)` of a line, cut at its end; empty when the
/// line has no column `start`.
pub open spec fn segment(line: Seq<char>, start: int, end: int) -> Seq<char> {
    if start >= line.len() {
        Seq::empty()
    } else {
        line.subrange(start, clamp(end, line.len() as int))
    }
}

/// The number of `'\n'` characters in `text`.
fn count_newlines(text: &str) -> (r: usize)
    ensures
        r == newline_count(text@),
{
    let cs = crate::text::chars_of(text);
    let mut i: usize = 0;
    let mut r: usize = 0;
    while i < cs.len()
        invariant
            i <= cs@.len(),
            r <= i,
            r == newline_count(cs@.take(i as int)),
        decreases cs@.len() - i,
    {
        if cs[i] == '\n' {
            r += 1;
        }
        i += 1;
        assert(cs@.take(i as int).drop_last() =~= cs@.take(i - 1));
    }
    assert(cs@.take(cs@.len() as int) =~= cs@);
    r
}

/// Whether a cache entry for line `k` stays: inside `[lo, hi]` when
/// `inside`, else outside it.
pub open spec fn keeps_line(k: usize, lo: usize, hi: usize, inside: bool) -> bool {
    (lo <= k && k <= hi) == inside
}

fn keeps_line_exec(k: usize, lo: usize, hi: usize, inside: bool) -> (r: bool)
    ensures
        r == keeps_line(k, lo, hi, inside),
{
    (lo <= k && k <= hi) == inside
}

/// `HashMap::retain` on the cache: keeps exactly the entries whose line
/// `keeps_line` accepts, with their values.
#[verifier::external_body]
fn retain_lines(cache: &mut HashMap<usize, String>, lo: usize, hi: usize, inside: bool)
    ensures
        final(cache)@ == old(cache)@.restrict(Set::new(|k: usize| keeps_line(k, lo, hi, inside))),
{
    cache.retain(|k, _| keeps_line_exec(*k, lo, hi, inside))
}

/// Inserting `s` at `i` and reading back the characters `[i, i + |s|)`
/// gives `s`; the text grows by `|s|`.
pub proof fn lemma_insert_then_slice(t: Seq<char>, i: int, s: Seq<char>)
    requires
        0 <= i <= t.len(),
    ensures
        inserted(t, i, s).len() == t.len() + s.len(),
        inserted(t, i, s).subrange(i, i + s.len()) == s,
{
    assert(inserted(t, i, s).subrange(i, i + s.len()) =~= s);
}

/// Removing what was just inserted gives back the text.
pub proof fn lemma_remove_undoes_insert(t: Seq<char>, i: int, s: Seq<char>)
    requires
        0 <= i <= t.len(),
    ensures
        removed(inserted(t, i, s), i, i + s.len()) == t,
{
    assert(removed(inserted(t, i, s), i, i + s.len()) =~= t);
}

/// Dropping the lines `[lo, hi]` from a cache leaves no entry for them and
/// every other entry as it was.
pub proof fn lemma_drop_lines<V>(m: Map<usize, V>, lo: int, hi: int)
    ensures
        forall|k: usize| lo <= k <= hi ==> !#[trigger] drop_lines(m, lo, hi).contains_key(k),
        forall|k: usize| !(lo <= k <= hi) && m.contains_key(k) ==> #[trigger] drop_lines(m, lo, hi).contains_key(k)
            && drop_lines(m, lo, hi)[k] == m[k],
{
}

/// Keeping the lines `[lo, hi]` of a cache leaves no other entry and each
/// of those as it was.
pub proof fn lemma_keep_lines<V>(m: Map<usize, V>, lo: int, hi: int)
    ensures
        forall|k: usize| !(lo <= k <= hi) ==> !#[trigger] keep_lines(m, lo, hi).contains_key(k),
        forall|k: usize| lo <= k <= hi && m.contains_key(k) ==> #[trigger] keep_lines(m, lo, hi).contains_key(k)
            && keep_lines(m, lo, hi)[k] == m[k],
{
}

proof fn lemma_break_exists(t: Seq<char>, i: int, c: int)
    requires
        0 <= c <= t.len(),
        1 <= i <= breaks_before(t, c),
    ensures
        exists|p: int| 1 <= p <= c && break_ends_at(t, p) && breaks_before(t, p) == i,
    decreases c,
{
    if i <= breaks_before(t, c - 1) {
        lemma_break_exists(t, i, c - 1);
    } else {
        assert(break_ends_at(t, c) && breaks_before(t, c) == i);
    }
}

proof fn lemma_breaks_before_mono(t: Seq<char>, a: int, b: int)
    requires
        a <= b,
    ensures
        breaks_before(t, a) <= breaks_before(t, b),
    decreases b - a,
{
    if a < b {
        lemma_breaks_before_mono(t, a, b - 1);
    }
}

/// The line that the character index `k` belongs to is a line of the text,
/// and starts at or before `k`.
pub proof fn lemma_line_of_index(t: Seq<char>, k: int)
    requires
        0 <= k <= t.len(),
    ensures
        breaks_before(t, k) < line_count(t),
        line_start(t, breaks_before(t, k) as int) <= k,
{
    lemma_breaks_before_mono(t, k, t.len() as int);
    let i = breaks_before(t, k);
    if i >= 1 {
        lemma_break_exists(t, i as int, k);
        let p = line_start(t, i as int);
        assert(break_ends_at(t, p) && breaks_before(t, p) == i);
        if p > k {
            lemma_breaks_before_mono(t, k, p - 1);
        }
    }
}

/// Where line `i` of the text starts, the line breaks before it number
/// `i`, and a line after the first starts just after a line break.
proof fn lemma_line_start_facts(t: Seq<char>, i: int)
    requires
        0 <= i < line_count(t),
    ensures
        0 <= line_start(t, i) <= t.len(),
        breaks_before(t, line_start(t, i)) == i,
        i > 0 ==> break_ends_at(t, line_start(t, i)),
{
    if i > 0 {
        lemma_break_exists(t, i, t.len() as int);
    }
}

/// Line `i` (not the last) runs from its start to the start of the next
/// line, and no line break ends strictly inside it.
pub proof fn lemma_line_span(t: Seq<char>, i: int)
    requires
        0 <= i,
        i + 1 < line_count(t),
    ensures
        0 <= line_start(t, i) < line_start(t, i + 1) <= t.len(),
        break_ends_at(t, line_start(t, i + 1)),
        forall|p: int| line_start(t, i) < p < line_start(t, i + 1) ==> !#[trigger] break_ends_at(t, p),
{
    lemma_line_start_facts(t, i);
    lemma_line_start_facts(t, i + 1);
    let a = line_start(t, i);
    let b = line_start(t, i + 1);
    if b <= a {
        lemma_breaks_before_mono(t, b, a);
    }
    assert forall|p: int| a < p < b implies !#[trigger] break_ends_at(t, p) by {
        if break_ends_at(t, p) {
            lemma_breaks_before_mono(t, a, p - 1);
            lemma_breaks_before_mono(t, p, b - 1);
        }
    }
}

/// A line ends no later than the next one starts, within the text.
pub proof fn lemma_line_text_len(t: Seq<char>, i: int)
    requires
        0 <= i < line_count(t),
    ensures
        line_start(t, i) <= line_start(t, i + 1) <= t.len(),
        line_text(t, i).len() == line_start(t, i + 1) - line_start(t, i),
        line_text(t, i).len() <= t.len(),
{
    lemma_line_start_facts(t, i);
    if i + 1 < line_count(t) {
        lemma_line_span(t, i);
    }
}

/// Every line starts within the text; a line after the first starts after
/// a line break, so not at the very start.
pub proof fn lemma_line_start_bounds(t: Seq<char>, i: int)
    ensures
        0 <= line_start(t, i) <= t.len(),
        0 < i < line_count(t) ==> line_start(t, i) >= 1,
{
    if 0 < i < line_count(t) {
        lemma_break_exists(t, i, t.len() as int);
    }
}

/// A text without line breaks has one line, the whole text; the empty
/// text among them.
pub proof fn lemma_single_line(t: Seq<char>)
    requires
        forall|k: int| 0 <= k < t.len() ==> !is_line_break(#[trigger] t[k]),
    ensures
        line_count(t) == 1,
        line_text(t, 0) == t,
{
    assert forall|c: int| 0 <= c <= t.len() implies #[trigger] breaks_before(t, c) == 0 by {
        lemma_no_breaks_before(t, c);
    }
    assert(t.subrange(0, t.len() as int) =~= t);
}

proof fn lemma_no_breaks_before(t: Seq<char>, c: int)
    requires
        0 <= c <= t.len(),
        forall|k: int| 0 <= k < t.len() ==> !is_line_break(#[trigger] t[k]),
    ensures
        breaks_before(t, c) == 0,
    decreases c,
{
    if c > 0 {
        lemma_no_breaks_before(t, c - 1);
        assert(!is_line_break(t[c - 1]));
    }
}

/// Everything a buffer holds, as values.
pub struct BufferView {
    pub text: Seq<char>,
    pub file_path: Option<Seq<char>>,
    pub modified: bool,
    pub language: Seq<char>,
    pub cache: Map<usize, Seq<char>>,
    pub version: u64,
}

/// The buffer after inserting `s` before the character at `char_idx`
/// (clamped to the end of the text): modified, one version on, and
/// without the cached lines from the insertion line to two lines past the
/// inserted line breaks.
pub open spec fn after_insert(b: BufferView, char_idx: int, s: Seq<char>) -> BufferView {
    let i = clamp(char_idx, b.text.len() as int);
    let first = breaks_before(b.text, i) as int;
    BufferView {
        text: inserted(b.text, i, s),
        modified: true,
        version: (b.version + 1) as u64,
        cache: drop_lines(b.cache, first, first + newline_count(s) + 2),
        ..b
    }
}

/// Whether removing `[start, end)`, both clamped to the end of the text,
/// removes anything.
pub open spec fn removes_something(b: BufferView, start: int, end: int) -> bool {
    clamp(start, b.text.len() as int) < clamp(end, b.text.len() as int)
}

/// The buffer after removing the characters `[start, end)`, both clamped
/// to the end of the text: unchanged when that is empty; else modified, one
/// version on, and without the cached lines from the line of `start` to
/// two lines past the line of `end`.
pub open spec fn after_remove(b: BufferView, start: int, end: int) -> BufferView {
    let s = clamp(start, b.text.len() as int);
    let e = clamp(end, b.text.len() as int);
    if s >= e {
        b
    } else {
        BufferView {
            text: removed(b.text, s, e),
            modified: true,
            version: (b.version + 1) as u64,
            cache: drop_lines(b.cache, breaks_before(b.text, s) as int, (breaks_before(b.text, e) + 2) as int),
            ..b
        }
    }
}

/// A file's text, with its path, language, saved state, edit version and
/// highlight cache.
#[derive(Clone)]
pub struct TextBuffer {
    rope: ropey::Rope,
    file_path: Option<String>,
    modified: bool,
    language: String,
    syntax_cache: HashMap<usize, String>,
    version: u64,
}

impl TextBuffer {
    /// The text.
    pub closed spec fn spec_text(&self) -> Seq<char> {
        rope_chars(self.rope)
    }

    /// The path of the file, if one was set.
    pub closed spec fn spec_file_path(&self) -> Option<Seq<char>> {
        match self.file_path {
            Some(p) => Some(p@),
            None => None,
        }
    }

    /// Whether the text changed since it was last saved.
    pub closed spec fn spec_modified(&self) -> bool {
        self.modified
    }

    /// The language of the text.
    pub closed spec fn spec_language(&self) -> Seq<char> {
        self.language@
    }

    /// The highlighted form of each cached line.
    pub closed spec fn spec_cache(&self) -> Map<usize, Seq<char>> {
        self.syntax_cache@.map_values(|h: String| h@)
    }

    /// The number of edits made.
    pub closed spec fn spec_version(&self) -> u64 {
        self.version
    }

    /// What `from_str` makes of a text.
    pub open spec fn from_str_view(text: Seq<char>) -> BufferView {
        BufferView {
            text,
            file_path: None,
            modified: false,
            language: "plaintext"@,
            cache: Map::empty(),
            version: 0,
        }
    }

    /// A copy of the buffer, sharing the rope's storage.
    pub fn duplicate(&self) -> (r: Self)
        ensures
            r@ == self@,
    {
        let file_path = match &self.file_path {
            Some(p) => Some(p.clone()),
            None => None,
        };
        let r = Self {
            rope: self.rope.clone(),
            file_path,
            modified: self.modified,
            language: self.language.clone(),
            syntax_cache: self.syntax_cache.clone(),
            version: self.version,
        };
        assert(r.spec_cache() =~= self.spec_cache());
        r
    }

    /// An empty buffer for plain text, with no path.
    pub fn new() -> (r: Self)
        ensures
            r.spec_text() == Seq::<char>::empty(),
            r.spec_file_path() == None::<Seq<char>>,
            !r.spec_modified(),
            r.spec_language() == "plaintext"@,
            r.spec_cache() == Map::<usize, Seq<char>>::empty(),
            r.spec_version() == 0,
    {
        let r = Self {
            rope: rope_new(),
            file_path: None,
            modified: false,
            language: "plaintext".to_string(),
            syntax_cache: HashMap::new(),
            version: 0,
        };
        assert(r.spec_cache() =~= Map::<usize, Seq<char>>::empty());
        r
    }

    /// A buffer holding `text`, for plain text, with no path, unmodified.
    pub fn from_str(text: &str) -> (r: Self)
        ensures
            r.spec_text() == text@,
            r.spec_file_path() == None::<Seq<char>>,
            !r.spec_modified(),
            r.spec_language() == "plaintext"@,
            r.spec_cache() == Map::<usize, Seq<char>>::empty(),
            r.spec_version() == 0,
    {
        let r = Self {
            rope: rope_from_str(text),
            file_path: None,
            modified: false,
            language: "plaintext".to_string(),
            syntax_cache: HashMap::new(),
            version: 0,
        };
        assert(r.spec_cache() =~= Map::<usize, Seq<char>>::empty());
        r
    }

    pub fn set_file_path(&mut self, path: String)
        ensures
            final(self).spec_file_path() == Some(path@),
            final(self).spec_text() == old(self).spec_text(),
            final(self).spec_modified() == old(self).spec_modified(),
            final(self).spec_language() == old(self).spec_language(),
            final(self).spec_cache() == old(self).spec_cache(),
            final(self).spec_version() == old(self).spec_version(),
    {
        self.file_path = Some(path);
    }

    pub fn set_language(&mut self, lang: String)
        ensures
            final(self).spec_language() == lang@,
            final(self).spec_text() == old(self).spec_text(),
            final(self).spec_file_path() == old(self).spec_file_path(),
            final(self).spec_modified() == old(self).spec_modified(),
            final(self).spec_cache() == old(self).spec_cache(),
            final(self).spec_version() == old(self).spec_version(),
    {
        self.language = lang;
    }

    /// Inserts `text` before the character at `char_idx` (at the end when
    /// `char_idx` is past it). The buffer is then modified, its version one
    /// more, and the cached lines from the insertion line to two lines past
    /// the inserted line breaks are dropped.
    pub fn insert(&mut self, char_idx: usize, text: &str)
        requires
            old(self).spec_version() < u64::MAX,
        ensures
            final(self)@ == after_insert(old(self)@, char_idx as int, text@),
    {
        let len = rope_len_chars(&self.rope);
        let safe_idx = if char_idx < len { char_idx } else { len };
        let start_line = rope_char_to_line(&self.rope, safe_idx);
        let newlines = count_newlines(text);
        rope_insert(&mut self.rope, safe_idx, text);
        self.modified = true;
        self.version = self.version + 1;
        let end_line = start_line.saturating_add(newlines).saturating_add(2);
        self.invalidate_cache_range(start_line, end_line);
        proof {
            let t = old(self).spec_text();
            assert(self.spec_cache() =~= drop_lines(old(self).spec_cache(), start_line as int, start_line + newline_count(text@) + 2));
        }
    }

    /// Removes the characters `[start, end)`, both clamped to the end of
    /// the text; does nothing when that range is empty. Otherwise the
    /// buffer is then modified, its version one more, and the cached lines
    /// from the line of `start` to two lines past the line of `end` are
    /// dropped.
    pub fn remove(&mut self, start: usize, end: usize)
        requires
            removes_something(old(self)@, start as int, end as int) ==> old(self).spec_version() < u64::MAX,
        ensures
            final(self)@ == after_remove(old(self)@, start as int, end as int),
    {
        let len = rope_len_chars(&self.rope);
        let safe_start = if start < len { start } else { len };
        let safe_end = if end < len { end } else { len };
        if safe_start >= safe_end {
            return;
        }
        let start_line = rope_char_to_line(&self.rope, safe_start);
        let end_line = rope_char_to_line(&self.rope, safe_end);
        rope_remove(&mut self.rope, safe_start, safe_end);
        self.modified = true;
        self.version = self.version + 1;
        self.invalidate_cache_range(start_line, end_line.saturating_add(2));
        assert(self.spec_cache() =~= drop_lines(old(self).spec_cache(), start_line as int, end_line + 2));
    }

    /// Drops the cached lines `[start_line, end_line]`.
    fn invalidate_cache_range(&mut self, start_line: usize, end_line: usize)
        ensures
            final(self).spec_cache() == drop_lines(old(self).spec_cache(), start_line as int, end_line as int),
            final(self).spec_text() == old(self).spec_text(),
            final(self).spec_modified() == old(self).spec_modified(),
            final(self).spec_version() == old(self).spec_version(),
            final(self).spec_language() == old(self).spec_language(),
            final(self).spec_file_path() == old(self).spec_file_path(),
    {
        retain_lines(&mut self.syntax_cache, start_line, end_line, false);
        assert(self.spec_cache() =~= drop_lines(old(self).spec_cache(), start_line as int, end_line as int));
    }

    /// The text, as a string.
    pub fn to_string(&self) -> (r: String)
        ensures
            r@ == self.spec_text(),
    {
        rope_to_string(&self.rope)
    }

    pub fn len_chars(&self) -> (r: usize)
        ensures
            r == self.spec_text().len(),
    {
        rope_len_chars(&self.rope)
    }

    pub fn len_lines(&self) -> (r: usize)
        ensures
            r == line_count(self.spec_text()),
    {
        rope_len_lines(&self.rope)
    }

    /// Line `line_idx` with its line break, if the text has that line.
    pub fn line(&self, line_idx: usize) -> (r: Option<String>)
        ensures
            line_idx < line_count(self.spec_text()) ==> (r matches Some(l) && l@ == line_text(self.spec_text(), line_idx as int)),
            line_idx >= line_count(self.spec_text()) ==> r is None,
    {
        if line_idx < self.len_lines() {
            Some(rope_line_string(&self.rope, line_idx))
        } else {
            None
        }
    }

    pub fn is_modified(&self) -> (r: bool)
        ensures
            r == self.spec_modified(),
    {
        self.modified
    }

    /// Records that the text was saved: it is no longer modified.
    pub fn mark_saved(&mut self)
        ensures
            !final(self).spec_modified(),
            final(self).spec_text() == old(self).spec_text(),
            final(self).spec_version() == old(self).spec_version(),
            final(self).spec_cache() == old(self).spec_cache(),
            final(self).spec_language() == old(self).spec_language(),
            final(self).spec_file_path() == old(self).spec_file_path(),
    {
        self.modified = false;
    }

    pub fn language(&self) -> (r: &str)
        ensures
            r@ == self.spec_language(),
    {
        self.language.as_str()
    }

    pub fn file_path(&self) -> (r: Option<&str>)
        ensures
            match self.spec_file_path() {
                Some(p) => r matches Some(s) && s@ == p,
                None => r is None,
            },
    {
        match &self.file_path {
            Some(p) => Some(p.as_str()),
            None => None,
        }
    }

    /// Where line `line_idx` starts (the end of the text for one past the
    /// last line).
    pub fn line_to_char(&self, line_idx: usize) -> (r: usize)
        requires
            line_idx <= line_count(self.spec_text()),
        ensures
            r == line_start(self.spec_text(), line_idx as int),
    {
        rope_line_to_char(&self.rope, line_idx)
    }

    /// The line that the character at `char_idx` belongs to.
    pub fn char_to_line(&self, char_idx: usize) -> (r: usize)
        requires
            char_idx <= self.spec_text().len(),
        ensures
            r == breaks_before(self.spec_text(), char_idx as int),
    {
        rope_char_to_line(&self.rope, char_idx)
    }

    /// The characters `[start, end)`, if `start <= end` and `end` is within
    /// the text.
    pub fn slice(&self, start: usize, end: usize) -> (r: Option<String>)
        ensures
            start <= end <= self.spec_text().len() ==> (r matches Some(s) && s@ == self.spec_text().subrange(start as int, end as int)),
            !(start <= end <= self.spec_text().len()) ==> r is None,
    {
        if start <= end && end <= self.len_chars() {
            Some(rope_slice_string(&self.rope, start, end))
        } else {
            None
        }
    }

    pub fn version(&self) -> (r: u64)
        ensures
            r == self.spec_version(),
    {
        self.version
    }

    /// The cached highlighted form of a line, if any.
    pub fn get_cached_highlight(&self, line_idx: usize) -> (r: Option<&str>)
        ensures
            self.spec_cache().contains_key(line_idx) ==> (r matches Some(h) && h@ == self.spec_cache()[line_idx]),
            !self.spec_cache().contains_key(line_idx) ==> r is None,
    {
        match self.syntax_cache.get(&line_idx) {
            Some(h) => Some(h.as_str()),
            None => None,
        }
    }

    /// Caches the highlighted form of a line, replacing any cached before.
    pub fn cache_highlight(&mut self, line_idx: usize, html: String)
        ensures
            final(self).spec_cache() == old(self).spec_cache().insert(line_idx, html@),
            final(self).spec_text() == old(self).spec_text(),
            final(self).spec_modified() == old(self).spec_modified(),
            final(self).spec_version() == old(self).spec_version(),
            final(self).spec_language() == old(self).spec_language(),
            final(self).spec_file_path() == old(self).spec_file_path(),
    {
        let ghost h = html@;
        self.syntax_cache.insert(line_idx, html);
        assert(self.spec_cache() =~= old(self).spec_cache().insert(line_idx, h));
    }

    /// Keeps only the cached lines from `keep_margin` lines before
    /// `visible_start` (or the first line) to `keep_margin` lines after
    /// `visible_end`.
    pub fn trim_cache(&mut self, visible_start: usize, visible_end: usize, keep_margin: usize)
        requires
            visible_end + keep_margin <= usize::MAX,
        ensures
            final(self).spec_cache() == keep_lines(
                old(self).spec_cache(),
                if visible_start >= keep_margin { visible_start - keep_margin } else { 0 },
                visible_end + keep_margin,
            ),
            final(self).spec_text() == old(self).spec_text(),
            final(self).spec_modified() == old(self).spec_modified(),
            final(self).spec_version() == old(self).spec_version(),
            final(self).spec_language() == old(self).spec_language(),
            final(self).spec_file_path() == old(self).spec_file_path(),
    {
        let keep_start = visible_start.saturating_sub(keep_margin);
        let keep_end = visible_end + keep_margin;
        retain_lines(&mut self.syntax_cache, keep_start, keep_end, true);
        assert(self.spec_cache() =~= keep_lines(old(self).spec_cache(), keep_start as int, keep_end as int));
    }

    /// A rope holding the current text, which later edits do not change.
    pub fn snapshot(&self) -> (r: ropey::Rope)
        ensures
            rope_chars(r) == self.spec_text(),
    {
        self.rope.clone()
    }

    /// Line `line_idx` of a snapshot, if it has that line.
    pub fn line_from_snapshot(snapshot: &ropey::Rope, line_idx: usize) -> (r: Option<String>)
        ensures
            line_idx < line_count(rope_chars(*snapshot)) ==> (r matches Some(l) && l@ == line_text(rope_chars(*snapshot), line_idx as int)),
            line_idx >= line_count(rope_chars(*snapshot)) ==> r is None,
    {
        if line_idx < rope_len_lines(snapshot) {
            Some(rope_line_string(snapshot, line_idx))
        } else {
            None
        }
    }

    /// The columns `[start_col, end_col)` of line `line_idx` (see
    /// `segment`), if the text has that line.
    pub fn line_segment(&self, line_idx: usize, start_col: usize, end_col: usize) -> (r: Option<String>)
        requires
            line_idx < line_count(self.spec_text()) && start_col < line_text(self.spec_text(), line_idx as int).len()
                ==> start_col <= end_col,
        ensures
            line_idx < line_count(self.spec_text()) ==> (r matches Some(s) && s@ == segment(line_text(self.spec_text(), line_idx as int), start_col as int, end_col as int)),
            line_idx >= line_count(self.spec_text()) ==> r is None,
    {
        let line = match self.line(line_idx) {
            Some(l) => l,
            None => return None,
        };
        let chars = crate::text::chars_of(line.as_str());
        let end = if end_col < chars.len() { end_col } else { chars.len() };
        if start_col >= chars.len() {
            return Some(String::new());
        }
        let mut out = String::new();
        let mut k = start_col;
        while k < end
            invariant
                start_col <= k <= end,
                end <= chars@.len(),
                out@ == chars@.subrange(start_col as int, k as int),
            decreases end - k,
        {
            crate::text::push_char(&mut out, chars[k]);
            k += 1;
            assert(chars@.subrange(start_col as int, k as int) =~= chars@.subrange(start_col as int, k - 1).push(chars@[k - 1]));
        }
        Some(out)
    }
}

impl View for TextBuffer {
    type V = BufferView;

    open spec fn view(&self) -> BufferView {
        BufferView {
            text: self.spec_text(),
            file_path: self.spec_file_path(),
            modified: self.spec_modified(),
            language: self.spec_language(),
            cache: self.spec_cache(),
            version: self.spec_version(),
        }
    }
}

impl Default for TextBuffer {
    fn default() -> (r: Self)
        ensures
            r.spec_text() == Seq::<char>::empty(),
            r.spec_file_path() == None::<Seq<char>>,
            !r.spec_modified(),
            r.spec_language() == "plaintext"@,
            r.spec_cache() == Map::<usize, Seq<char>>::empty(),
            r.spec_version() == 0,
    {
        Self::new()
    }
}

} // verus!
