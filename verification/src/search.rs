//! Search and replace within a text, line by line: literal or regular
//! expression queries, case folding, whole-word matching, and a search
//! restricted to a range of lines.
//!
//! Columns are byte offsets into the UTF-8 encoding of their line.

use vstd::prelude::*;
use crate::text::{occurs_at, spec_lines, split_lines, chars_of, find_from, copy_string, string_from_chars, spec_to_lowercase, spec_is_alphanumeric, to_lowercase, is_alphanumeric, join_lines};

verus! {

broadcast use vstd::string::group_string_axioms;

#[verifier::external_type_specification]
#[verifier::external_body]
pub struct ExRegex(regex::Regex);

#[verifier::external_type_specification]
#[verifier::external_body]
pub struct ExRegexError(regex::Error);

/// Whether `regex::Regex::new` accepts a pattern.
pub uninterp spec fn spec_regex_valid(pattern: Seq<char>) -> bool;

/// The successive non-overlapping leftmost-first matches of a pattern in
/// a haystack, as byte offset pairs (what `Regex::find_iter` yields).
pub uninterp spec fn spec_regex_spans(pattern: Seq<char>, hay: Seq<char>) -> Seq<(usize, usize)>;

/// A compiled regex together with the pattern it was compiled from; it is
/// made only by compiling that pattern.
pub struct CompiledPattern {
    pattern: String,
    re: regex::Regex,
}

impl CompiledPattern {
    /// The pattern the regex was compiled from.
    pub closed spec fn spec_pattern(&self) -> Seq<char> {
        self.pattern@
    }
}

/// `regex::Regex::new`: compiles a pattern, kept beside the regex. It
/// succeeds exactly when the pattern is valid (named, not stated).
#[verifier::external_body]
fn regex_new(pattern: &str) -> (r: Result<CompiledPattern, regex::Error>)
    ensures
        r is Ok <==> spec_regex_valid(pattern@),
        r matches Ok(c) ==> c.spec_pattern() == pattern@,
{
    match regex::Regex::new(pattern) {
        Ok(re) => Ok(CompiledPattern { pattern: pattern.to_string(), re }),
        Err(e) => Err(e),
    }
}

/// `regex::Regex::find_iter` of the compiled pattern, each match taken as
/// its start and end byte offsets. The spans are named, not stated in
/// full; as the crate documents them they are successive and
/// non-overlapping (each starts after the one before it, and no earlier
/// than it ended), each starts no later than it ends, and both ends fall
/// on character boundaries of the haystack.
#[verifier::external_body]
fn regex_find_spans(c: &CompiledPattern, hay: &str) -> (r: Vec<(usize, usize)>)
    ensures
        r@ == spec_regex_spans(c.spec_pattern(), hay@),
        forall|i: int| 0 <= i < r@.len() ==> #[trigger] r@[i].0 <= r@[i].1,
        forall|i: int| 0 <= i < r@.len() ==> is_boundary(hay@, #[trigger] r@[i].0 as int)
            && is_boundary(hay@, r@[i].1 as int),
        forall|i: int, j: int| #![trigger r@[i], r@[j]] 0 <= i < j < r@.len() ==> r@[i].1 <= r@[j].0
            && r@[i].0 < r@[j].0,
{
    c.re.find_iter(hay).map(|m| (m.start(), m.end())).collect()
}

// ---------------------------------------------------------------------
// Byte offsets and character positions
// ---------------------------------------------------------------------

/// The number of bytes of a character in UTF-8 (as `char::len_utf8`
/// documents it).
pub open spec fn utf8_len(c: char) -> int {
    if (c as u32) < 0x80 {
        1
    } else if (c as u32) < 0x800 {
        2
    } else if (c as u32) < 0x10000 {
        3
    } else {
        4
    }
}

/// The UTF-8 byte length of the first `k` characters of a line.
pub open spec fn byte_offset(line: Seq<char>, k: int) -> int
    decreases k,
{
    if k <= 0 || line.len() == 0 {
        0
    } else if k > line.len() {
        byte_offset(line, line.len() as int)
    } else {
        byte_offset(line, k - 1) + utf8_len(line[k - 1])
    }
}

/// The character position of a byte offset: the number of characters
/// whose encoding ends at or before it.
pub open spec fn char_index(line: Seq<char>, b: int) -> int
    decreases line.len(),
{
    if line.len() == 0 {
        0
    } else if byte_offset(line, line.len() as int) <= b {
        line.len() as int
    } else {
        char_index(line.drop_last(), b)
    }
}

/// The UTF-8 size of a text, in bytes.
pub open spec fn utf8_size(s: Seq<char>) -> int {
    byte_offset(s, s.len() as int)
}

/// Whether the UTF-8 size of a text fits in a `usize` (as that of any
/// string in memory does).
pub open spec fn fits(s: Seq<char>) -> bool {
    utf8_size(s) <= usize::MAX
}

/// Whether byte offset `b` falls between two characters of a line (or at
/// either end).
pub open spec fn is_boundary(line: Seq<char>, b: int) -> bool {
    0 <= b <= utf8_size(line) && byte_offset(line, char_index(line, b)) == b
}

fn utf8_len_exec(c: char) -> (r: usize)
    ensures
        r == utf8_len(c),
{
    let v = c as u32;
    if v < 0x80 {
        1
    } else if v < 0x800 {
        2
    } else if v < 0x10000 {
        3
    } else {
        4
    }
}

proof fn lemma_byte_offset_mono(line: Seq<char>, j: int, k: int)
    requires
        0 <= j <= k <= line.len(),
    ensures
        byte_offset(line, j) <= byte_offset(line, k),
    decreases k - j,
{
    if j < k {
        lemma_byte_offset_mono(line, j, k - 1);
    }
}

/// Each character takes at least one byte: offsets strictly grow.
proof fn lemma_byte_offset_strict(line: Seq<char>, j: int, k: int)
    requires
        0 <= j < k <= line.len(),
    ensures
        byte_offset(line, j) < byte_offset(line, k),
    decreases k - j,
{
    if j < k - 1 {
        lemma_byte_offset_strict(line, j, k - 1);
    }
}

/// The byte offset of character `k` of a line.
pub(crate) fn byte_offset_exec(line: &[char], k: usize) -> (r: usize)
    requires
        k <= line@.len(),
        fits(line@),
    ensures
        r == byte_offset(line@, k as int),
{
    let mut i: usize = 0;
    let mut off: usize = 0;
    while i < k
        invariant
            i <= k <= line@.len(),
            fits(line@),
            off == byte_offset(line@, i as int),
        decreases k - i,
    {
        proof { lemma_byte_offset_mono(line@, i + 1, line@.len() as int); }
        off = off + utf8_len_exec(line[i]);
        i += 1;
    }
    off
}

proof fn lemma_byte_offset_prefix(line: Seq<char>, n: int, k: int)
    requires
        0 <= k <= n <= line.len(),
    ensures
        byte_offset(line.take(n), k) == byte_offset(line, k),
    decreases k,
{
    if k > 0 {
        lemma_byte_offset_prefix(line, n, k - 1);
        assert(line.take(n)[k - 1] == line[k - 1]);
    }
}

proof fn lemma_char_index_count(line: Seq<char>, b: int, k: int)
    requires
        0 <= k <= line.len(),
        byte_offset(line, k) <= b,
        k == line.len() || byte_offset(line, k + 1) > b,
    ensures
        char_index(line, b) == k,
    decreases line.len(),
{
    if line.len() > 0 && k < line.len() {
        let d = line.drop_last();
        lemma_byte_offset_mono(line, k + 1, line.len() as int);
        lemma_byte_offset_prefix(line, line.len() - 1, k);
        assert(d == line.take(line.len() - 1));
        if k + 1 <= d.len() {
            lemma_byte_offset_prefix(line, line.len() - 1, k + 1);
        }
        lemma_char_index_count(d, b, k);
    }
}

/// The character position of byte offset `b` in `line`.
fn char_index_exec(line: &[char], b: usize) -> (r: usize)
    ensures
        r == char_index(line@, b as int),
        r <= line@.len(),
        byte_offset(line@, r as int) <= b,
        r < line@.len() ==> byte_offset(line@, r + 1) > b,
{
    let mut k: usize = 0;
    let mut off: usize = 0;
    while k < line.len()
        invariant
            k <= line@.len(),
            off == byte_offset(line@, k as int),
            off <= b,
        decreases line@.len() - k,
    {
        let w = utf8_len_exec(line[k]);
        if w > b - off {
            proof { lemma_char_index_count(line@, b as int, k as int); }
            return k;
        }
        off = off + w;
        k += 1;
    }
    proof { lemma_char_index_count(line@, b as int, k as int); }
    k
}

// ---------------------------------------------------------------------
// Matches
// ---------------------------------------------------------------------

/// One occurrence of the query: its line, its columns, and the text of
/// the line it covers.
#[derive(Debug, Clone, PartialEq, Eq)]
pub struct SearchMatch {
    pub line: usize,
    pub start_col: usize,
    pub end_col: usize,
    pub text: String,
}

/// A match as a value: line, start and end columns, and covered text.
pub struct MatchSpec {
    pub line: int,
    pub start_col: int,
    pub end_col: int,
    pub text: Seq<char>,
}

impl View for SearchMatch {
    type V = MatchSpec;

    open spec fn view(&self) -> MatchSpec {
        MatchSpec {
            line: self.line as int,
            start_col: self.start_col as int,
            end_col: self.end_col as int,
            text: self.text@,
        }
    }
}

impl SearchMatch {
    pub fn new(line: usize, start_col: usize, end_col: usize, text: String) -> (r: Self)
        ensures
            r.line == line,
            r.start_col == start_col,
            r.end_col == end_col,
            r.text@ == text@,
    {
        Self { line, start_col, end_col, text }
    }

    /// The columns the match covers.
    pub fn range(&self) -> (r: std::ops::Range<usize>)
        ensures
            r.start == self.start_col,
            r.end == self.end_col,
    {
        std::ops::Range { start: self.start_col, end: self.end_col }
    }

    /// A copy of the match.
    pub fn duplicate(&self) -> (r: Self)
        ensures
            r@ == self@,
    {
        Self { line: self.line, start_col: self.start_col, end_col: self.end_col, text: copy_string(&self.text) }
    }
}

/// How a query is matched.
#[derive(Debug, Clone)]
pub struct SearchOptions {
    pub case_sensitive: bool,
    pub whole_word: bool,
    pub use_regex: bool,
    pub in_selection: bool,
    pub selection_start_line: Option<usize>,
    pub selection_end_line: Option<usize>,
}

impl SearchOptions {
    /// Case-insensitive literal search over the whole text.
    pub open spec fn spec_default() -> SearchOptions {
        SearchOptions {
            case_sensitive: false,
            whole_word: false,
            use_regex: false,
            in_selection: false,
            selection_start_line: None,
            selection_end_line: None,
        }
    }

    /// A copy of the options.
    pub fn duplicate(&self) -> (r: Self)
        ensures
            r == *self,
    {
        SearchOptions {
            case_sensitive: self.case_sensitive,
            whole_word: self.whole_word,
            use_regex: self.use_regex,
            in_selection: self.in_selection,
            selection_start_line: self.selection_start_line,
            selection_end_line: self.selection_end_line,
        }
    }
}

impl Default for SearchOptions {
    fn default() -> (r: Self)
        ensures
            r == SearchOptions::spec_default(),
    {
        SearchOptions {
            case_sensitive: false,
            whole_word: false,
            use_regex: false,
            in_selection: false,
            selection_start_line: None,
            selection_end_line: None,
        }
    }
}

/// The first line searched.
pub open spec fn first_line(o: SearchOptions) -> int {
    if o.in_selection {
        match o.selection_start_line {
            Some(s) => s as int,
            None => 0,
        }
    } else {
        0
    }
}

/// The line the search stops before (it also stops at the last line).
pub open spec fn end_line(o: SearchOptions, n: int) -> int {
    if o.in_selection {
        match o.selection_end_line {
            Some(e) => e as int,
            None => n,
        }
    } else {
        n
    }
}

/// Whether the searched range is well formed for a text of `n` lines:
/// the first line is not after the end line.
pub open spec fn range_ok(o: SearchOptions, n: int) -> bool {
    first_line(o) <= end_line(o, n)
}

/// Whether the character at `k` of a line is alphanumeric (false past the
/// end of the line).
pub open spec fn word_char_at(line: Seq<char>, k: int) -> bool {
    0 <= k < line.len() && spec_is_alphanumeric(line[k])
}

/// Whether the byte columns `[s, e)` of a line are a whole word: the
/// character numbered `s - 1` is not alphanumeric, and neither is the
/// character numbered `e` unless `e` reaches the line's byte size (the
/// neighbours are looked up by character number, as the search does).
pub open spec fn whole_word_at(line: Seq<char>, s: int, e: int) -> bool {
    (s == 0 || !word_char_at(line, s - 1)) && (e >= utf8_size(line) || !word_char_at(line, e))
}

/// Whether a found span `[s, e)` is reported: when whole words are asked
/// for, it must be one.
pub open spec fn keep_span(line: Seq<char>, s: int, e: int, whole_word: bool) -> bool {
    !whole_word || whole_word_at(line, s, e)
}

/// The match on line `idx` covering the bytes `[s, e)`, with the text of
/// the line between those bytes.
pub open spec fn match_of(line: Seq<char>, idx: int, s: int, e: int) -> MatchSpec {
    MatchSpec { line: idx, start_col: s, end_col: e, text: line.subrange(char_index(line, s), char_index(line, e)) }
}

/// The literal matches in a line at or after character `start` of the
/// folded line `t`: every position where the (folded) query occurs in it,
/// reported by its byte columns in `t`.
pub open spec fn literal_matches_from(
    line: Seq<char>,
    t: Seq<char>,
    q: Seq<char>,
    idx: int,
    whole_word: bool,
    start: int,
) -> Seq<MatchSpec>
    decreases t.len() + 1 - start,
{
    if start < 0 || start > t.len() {
        Seq::empty()
    } else {
        let p = byte_offset(t, start);
        let pe = byte_offset(t, start + q.len());
        let rest = literal_matches_from(line, t, q, idx, whole_word, start + 1);
        if occurs_at(t, q, start) && keep_span(line, p, pe, whole_word) {
            seq![match_of(line, idx, p, pe)] + rest
        } else {
            rest
        }
    }
}

/// The text a query is matched against: as it is, or lower-cased.
pub open spec fn folded(s: Seq<char>, o: SearchOptions) -> Seq<char> {
    if o.case_sensitive { s } else { spec_to_lowercase(s) }
}

/// The literal matches of `query` in line `idx`.
pub open spec fn literal_line_matches(line: Seq<char>, idx: int, query: Seq<char>, o: SearchOptions) -> Seq<MatchSpec> {
    literal_matches_from(line, folded(line, o), folded(query, o), idx, o.whole_word, 0)
}

/// The regular expression matches in line `idx`, from its `k`-th span on.
pub open spec fn regex_matches_from(
    line: Seq<char>,
    idx: int,
    spans: Seq<(usize, usize)>,
    whole_word: bool,
    k: int,
) -> Seq<MatchSpec>
    decreases spans.len() - k,
{
    if k < 0 || k >= spans.len() {
        Seq::empty()
    } else {
        let s = spans[k].0 as int;
        let e = spans[k].1 as int;
        let rest = regex_matches_from(line, idx, spans, whole_word, k + 1);
        if keep_span(line, s, e, whole_word) {
            seq![match_of(line, idx, s, e)] + rest
        } else {
            rest
        }
    }
}

/// The regular expression actually compiled for a query.
pub open spec fn regex_pattern(query: Seq<char>, o: SearchOptions) -> Seq<char> {
    if o.case_sensitive {
        query
    } else {
        seq!['(', '?', 'i', ')'] + query
    }
}

/// The regular expression matches of `query` in line `idx`.
pub open spec fn regex_line_matches(line: Seq<char>, idx: int, query: Seq<char>, o: SearchOptions) -> Seq<MatchSpec> {
    regex_matches_from(line, idx, spec_regex_spans(regex_pattern(query, o), line), o.whole_word, 0)
}

/// The matches in the lines `[lo, hi)` of the text, line after line.
pub open spec fn matches_in_lines(
    lines: Seq<Seq<char>>,
    query: Seq<char>,
    o: SearchOptions,
    lo: int,
    hi: int,
) -> Seq<MatchSpec>
    decreases hi - lo,
{
    if hi <= lo {
        Seq::empty()
    } else {
        matches_in_lines(lines, query, o, lo, hi - 1) + if o.use_regex {
            regex_line_matches(lines[hi - 1], hi - 1, query, o)
        } else {
            literal_line_matches(lines[hi - 1], hi - 1, query, o)
        }
    }
}

/// What a search for `query` in `text` finds: nothing for an empty query
/// or an invalid regular expression; else the matches of every searched
/// line, in order.
pub open spec fn search_spec(query: Seq<char>, o: SearchOptions, text: Seq<char>) -> Seq<MatchSpec> {
    let lines = spec_lines(text);
    let n = lines.len() as int;
    let lo = first_line(o);
    let e = end_line(o, n);
    let hi = if e < n { e } else { n };
    if query.len() == 0 {
        Seq::empty()
    } else if o.use_regex && !spec_regex_valid(regex_pattern(query, o)) {
        Seq::empty()
    } else {
        matches_in_lines(lines, query, o, lo, hi)
    }
}

/// Whether the occurrence of the folded query at character `j` of the
/// folded line can be reported without a fault: the search steps one byte
/// past its start, which must be a character boundary; the whole-word test
/// looks up the characters numbered by its byte columns, which must exist;
/// and a reported span must fall on character boundaries of the line.
pub open spec fn literal_occurrence_ok(line: Seq<char>, t: Seq<char>, q: Seq<char>, j: int, whole_word: bool) -> bool {
    let p = byte_offset(t, j);
    let pe = byte_offset(t, j + q.len());
    &&& utf8_len(t[j]) == 1
    &&& (whole_word ==> (p == 0 || p - 1 < line.len()) && (pe >= utf8_size(line) || pe < line.len()))
    &&& (keep_span(line, p, pe, whole_word) ==> is_boundary(line, p) && is_boundary(line, pe))
}

/// Whether the whole-word test of a regular expression match `[s, e)` can
/// look up the characters numbered by its byte columns.
pub open spec fn span_ok(line: Seq<char>, s: int, e: int, whole_word: bool) -> bool {
    whole_word ==> (s == 0 || s - 1 < line.len()) && (e >= utf8_size(line) || e < line.len())
}

/// Whether a line can be searched without a fault.
pub open spec fn line_ok(line: Seq<char>, query: Seq<char>, o: SearchOptions) -> bool {
    if o.use_regex {
        let spans = spec_regex_spans(regex_pattern(query, o), line);
        &&& fits(line)
        &&& forall|k: int| 0 <= k < spans.len() ==> #[trigger] span_ok(line, spans[k].0 as int, spans[k].1 as int, o.whole_word)
    } else {
        let q = folded(query, o);
        let t = folded(line, o);
        &&& q.len() > 0
        &&& fits(line)
        &&& fits(t)
        &&& forall|j: int| #[trigger] occurs_at(t, q, j) ==> literal_occurrence_ok(line, t, q, j, o.whole_word)
    }
}

/// Whether a search can run to its end: when there is something to look
/// for, the searched range is well formed and every searched line can be
/// searched.
pub open spec fn search_ok(query: Seq<char>, o: SearchOptions, text: Seq<char>) -> bool {
    let lines = spec_lines(text);
    let n = lines.len() as int;
    let lo = first_line(o);
    let e = end_line(o, n);
    let hi = if e < n { e } else { n };
    (query.len() > 0 && (!o.use_regex || spec_regex_valid(regex_pattern(query, o)))) ==> {
        &&& range_ok(o, n)
        &&& forall|i: int| lo <= i < hi ==> #[trigger] line_ok(lines[i], query, o)
    }
}

/// Whether the matches are in reading order: by line, then by start
/// column, no two at the same place.
pub open spec fn ordered(ms: Seq<MatchSpec>) -> bool {
    forall|i: int, j: int| 0 <= i < j < ms.len() ==> #[trigger] ms[i].line < #[trigger] ms[j].line
        || (ms[i].line == ms[j].line && ms[i].start_col < ms[j].start_col)
}

// ---------------------------------------------------------------------
// Replacement
// ---------------------------------------------------------------------

/// A line with the columns `[s, e)` replaced.
pub open spec fn replace_range(line: Seq<char>, s: int, e: int, repl: Seq<char>) -> Seq<char> {
    line.subrange(0, s) + repl + line.subrange(e, line.len() as int)
}

/// A line with the bytes `[s, e)` replaced.
pub open spec fn replace_bytes(line: Seq<char>, s: int, e: int, repl: Seq<char>) -> Seq<char> {
    replace_range(line, char_index(line, s), char_index(line, e), repl)
}

/// Whether the byte columns `[s, e)` can be replaced in a line: in order,
/// and on character boundaries.
pub open spec fn byte_range_ok(line: Seq<char>, s: int, e: int) -> bool {
    s <= e && is_boundary(line, s) && is_boundary(line, e)
}

/// Whether a match can be replaced in the lines: its columns fit its line
/// (a match past the last line is skipped).
pub open spec fn replaceable(lines: Seq<Seq<char>>, m: MatchSpec) -> bool {
    m.line >= lines.len() || (0 <= m.line && byte_range_ok(lines[m.line], m.start_col, m.end_col))
}

/// The lines after replacing the matches, the last match first; `None`
/// if some replacement falls outside its line.
pub open spec fn replace_matches(lines: Seq<Seq<char>>, ms: Seq<MatchSpec>, repl: Seq<char>) -> Option<Seq<Seq<char>>>
    decreases ms.len(),
{
    if ms.len() == 0 {
        Some(lines)
    } else {
        let m = ms.last();
        if !replaceable(lines, m) {
            None
        } else {
            let next = if 0 <= m.line < lines.len() {
                lines.update(m.line, replace_bytes(lines[m.line], m.start_col, m.end_col, repl))
            } else {
                lines
            };
            replace_matches(next, ms.drop_last(), repl)
        }
    }
}

/// The values of a sequence of matches.
pub open spec fn views(s: Seq<SearchMatch>) -> Seq<MatchSpec> {
    s.map_values(|m: SearchMatch| m@)
}

proof fn lemma_views_push(s: Seq<SearchMatch>, x: SearchMatch)
    ensures
        views(s.push(x)) == views(s).push(x@),
{
    assert(views(s.push(x)) =~= views(s).push(x@));
}

proof fn lemma_char_index_bound(line: Seq<char>, b: int)
    ensures
        0 <= char_index(line, b) <= line.len(),
    decreases line.len(),
{
    if line.len() > 0 {
        lemma_char_index_bound(line.drop_last(), b);
    }
}

proof fn lemma_char_index_mono(line: Seq<char>, b1: int, b2: int)
    requires
        b1 <= b2,
    ensures
        char_index(line, b1) <= char_index(line, b2),
    decreases line.len(),
{
    if line.len() > 0 {
        lemma_char_index_mono(line.drop_last(), b1, b2);
        lemma_char_index_bound(line.drop_last(), b1);
        lemma_char_index_bound(line.drop_last(), b2);
    }
}

/// The characters `[s, e)` of a line, as a string.
fn sub_string(line: &[char], s: usize, e: usize) -> (r: String)
    requires
        s <= e <= line@.len(),
    ensures
        r@ == line@.subrange(s as int, e as int),
{
    let mut out = String::new();
    let mut k = s;
    while k < e
        invariant
            s <= k <= e,
            e <= line@.len(),
            out@ == line@.subrange(s as int, k as int),
        decreases e - k,
    {
        crate::text::push_char(&mut out, line[k]);
        k += 1;
        assert(line@.subrange(s as int, k as int) =~= line@.subrange(s as int, k - 1).push(line@[k - 1]));
    }
    out
}

/// Whether the character at `k` of a line is alphanumeric.
fn word_char_at_exec(line: &[char], k: usize) -> (r: bool)
    ensures
        r == word_char_at(line@, k as int),
{
    k < line.len() && is_alphanumeric(line[k])
}

/// Whether a span is reported (see `keep_span`); `size` is the byte size
/// of the line.
fn keep_span_exec(line: &[char], size: usize, s: usize, e: usize, whole_word: bool) -> (r: bool)
    requires
        size == utf8_size(line@),
    ensures
        r == keep_span(line@, s as int, e as int, whole_word),
{
    if !whole_word {
        return true;
    }
    let before_ok = s == 0 || !word_char_at_exec(line, s - 1);
    let after_ok = e >= size || !word_char_at_exec(line, e);
    before_ok && after_ok
}

/// The match on line `idx` covering the bytes `[s, e)` of `line`.
fn make_match(line: &[char], idx: usize, s: usize, e: usize) -> (r: SearchMatch)
    requires
        s <= e,
    ensures
        r@ == match_of(line@, idx as int, s as int, e as int),
{
    let cs = char_index_exec(line, s);
    let ce = char_index_exec(line, e);
    proof {
        lemma_char_index_mono(line@, s as int, e as int);
    }
    let text = sub_string(line, cs, ce);
    SearchMatch { line: idx, start_col: s, end_col: e, text }
}

proof fn lemma_literal_skip(line: Seq<char>, t: Seq<char>, q: Seq<char>, idx: int, ww: bool, start: int, p: int)
    requires
        0 <= start <= p,
        forall|j: int| start <= j < p ==> !occurs_at(t, q, j),
    ensures
        literal_matches_from(line, t, q, idx, ww, start) == literal_matches_from(line, t, q, idx, ww, p),
    decreases p - start,
{
    if start < p {
        lemma_literal_skip(line, t, q, idx, ww, start + 1, p);
    }
}

proof fn lemma_literal_none(line: Seq<char>, t: Seq<char>, q: Seq<char>, idx: int, ww: bool, start: int)
    requires
        0 <= start,
        forall|j: int| start <= j ==> !occurs_at(t, q, j),
    ensures
        literal_matches_from(line, t, q, idx, ww, start) == Seq::<MatchSpec>::empty(),
    decreases t.len() + 1 - start,
{
    if start <= t.len() {
        lemma_literal_none(line, t, q, idx, ww, start + 1);
    }
}

/// Appends the literal matches of `q` (folded line `t`) in line `idx`.
fn push_literal_matches(
    out: &mut Vec<SearchMatch>,
    line: &[char],
    t: &[char],
    q: &[char],
    idx: usize,
    whole_word: bool,
)
    requires
        fits(line@),
        fits(t@),
    ensures
        views(final(out)@) == views(old(out)@) + literal_matches_from(line@, t@, q@, idx as int, whole_word, 0),
{
    let ghost base = views(out@);
    let ghost all = literal_matches_from(line@, t@, q@, idx as int, whole_word, 0);
    let size = byte_offset_exec(line, line.len());
    let mut start: usize = 0;
    assert(views(out@) + all == base + literal_matches_from(line@, t@, q@, idx as int, whole_word, 0));
    loop
        invariant_except_break
            start <= t@.len(),
            base + all == views(out@) + literal_matches_from(line@, t@, q@, idx as int, whole_word, start as int),
        invariant
            fits(t@),
            size == utf8_size(line@),
            all == literal_matches_from(line@, t@, q@, idx as int, whole_word, 0),
            base == views(old(out)@),
        ensures
            views(out@) == base + all,
        decreases t@.len() + 1 - start,
    {
        match find_from(t, q, start) {
            Some(pos) => {
                proof {
                    lemma_literal_skip(line@, t@, q@, idx as int, whole_word, start as int, pos as int);
                }
                assert(pos + q@.len() <= t@.len());
                let tl = t.len();
                let end = pos + q.len();
                let p = byte_offset_exec(t, pos);
                let pe = byte_offset_exec(t, end);
                proof {
                    lemma_byte_offset_mono(t@, pos as int, end as int);
                }
                if keep_span_exec(line, size, p, pe, whole_word) {
                    let m = make_match(line, idx, p, pe);
                    let ghost prev = views(out@);
                    out.push(m);
                    assert(views(out@) == prev.push(m@)) by {
                        lemma_views_push(out@.drop_last(), m);
                        assert(out@.drop_last().push(m) == out@);
                    }
                    assert(prev + literal_matches_from(line@, t@, q@, idx as int, whole_word, pos as int)
                        =~= prev.push(m@) + literal_matches_from(line@, t@, q@, idx as int, whole_word, pos + 1));
                }
                if pos == t.len() {
                    assert(literal_matches_from(line@, t@, q@, idx as int, whole_word, pos + 1) == Seq::<MatchSpec>::empty());
                    assert(views(out@) + Seq::<MatchSpec>::empty() =~= views(out@));
                    assert(views(out@) == base + all);
                    break;
                }
                start = pos + 1;
            },
            None => {
                proof {
                    lemma_literal_none(line@, t@, q@, idx as int, whole_word, start as int);
                }
                assert(views(out@) + Seq::<MatchSpec>::empty() =~= views(out@));
                assert(views(out@) == base + all);
                break;
            },
        }
    }
}

/// Appends the regular expression matches given by `spans` in line `idx`.
fn push_regex_matches(
    out: &mut Vec<SearchMatch>,
    line: &[char],
    spans: &Vec<(usize, usize)>,
    idx: usize,
    whole_word: bool,
)
    requires
        fits(line@),
        forall|i: int| 0 <= i < spans@.len() ==> #[trigger] spans@[i].0 <= spans@[i].1,
    ensures
        views(final(out)@) == views(old(out)@) + regex_matches_from(line@, idx as int, spans@, whole_word, 0),
{
    let ghost base = views(out@);
    let ghost all = regex_matches_from(line@, idx as int, spans@, whole_word, 0);
    let size = byte_offset_exec(line, line.len());
    let mut k: usize = 0;
    assert(views(out@) + all =~= base + all);
    while k < spans.len()
        invariant
            k <= spans@.len(),
            size == utf8_size(line@),
            forall|i: int| 0 <= i < spans@.len() ==> #[trigger] spans@[i].0 <= spans@[i].1,
            base + all == views(out@) + regex_matches_from(line@, idx as int, spans@, whole_word, k as int),
            all == regex_matches_from(line@, idx as int, spans@, whole_word, 0),
            base == views(old(out)@),
        decreases spans@.len() - k,
    {
        let (s, e) = spans[k];
        if keep_span_exec(line, size, s, e, whole_word) {
            let m = make_match(line, idx, s, e);
            let ghost prev = views(out@);
            out.push(m);
            assert(views(out@) == prev.push(m@)) by {
                lemma_views_push(out@.drop_last(), m);
                assert(out@.drop_last().push(m) == out@);
            }
            assert(prev + regex_matches_from(line@, idx as int, spans@, whole_word, k as int)
                =~= prev.push(m@) + regex_matches_from(line@, idx as int, spans@, whole_word, k + 1));
        }
        k += 1;
    }
    assert(views(out@) + Seq::<MatchSpec>::empty() =~= views(out@));
}

/// The literal matches in line `line_no`, given the line, the text it is
/// matched in (`folded_line`: the line itself, or lower-cased) and the
/// query as it is matched (`folded_query`): every place the query occurs
/// in the folded line, by its byte columns there, kept when it is a whole
/// word if whole words are asked for.
pub fn literal_matches_in_line(
    line: &str,
    folded_line: &str,
    folded_query: &str,
    whole_word: bool,
    line_no: usize,
) -> (r: Vec<SearchMatch>)
    requires
        fits(line@),
        fits(folded_line@),
    ensures
        views(r@) == literal_matches_from(line@, folded_line@, folded_query@, line_no as int, whole_word, 0),
{
    let l = chars_of(line);
    let t = chars_of(folded_line);
    let q = chars_of(folded_query);
    let mut out: Vec<SearchMatch> = Vec::new();
    assert(views(out@) =~= Seq::<MatchSpec>::empty());
    push_literal_matches(&mut out, l.as_slice(), t.as_slice(), q.as_slice(), line_no, whole_word);
    assert(Seq::<MatchSpec>::empty() + literal_matches_from(line@, folded_line@, folded_query@, line_no as int, whole_word, 0)
        =~= literal_matches_from(line@, folded_line@, folded_query@, line_no as int, whole_word, 0));
    out
}

/// The regular expression matches in line `line_no`, given the byte spans
/// the expression matched: each span kept when it is a whole word if whole
/// words are asked for.
pub fn regex_matches_in_line(
    line: &str,
    spans: &Vec<(usize, usize)>,
    whole_word: bool,
    line_no: usize,
) -> (r: Vec<SearchMatch>)
    requires
        fits(line@),
        forall|i: int| 0 <= i < spans@.len() ==> #[trigger] spans@[i].0 <= spans@[i].1,
    ensures
        views(r@) == regex_matches_from(line@, line_no as int, spans@, whole_word, 0),
{
    let l = chars_of(line);
    let mut out: Vec<SearchMatch> = Vec::new();
    assert(views(out@) =~= Seq::<MatchSpec>::empty());
    push_regex_matches(&mut out, l.as_slice(), spans, line_no, whole_word);
    assert(Seq::<MatchSpec>::empty() + regex_matches_from(line@, line_no as int, spans@, whole_word, 0)
        =~= regex_matches_from(line@, line_no as int, spans@, whole_word, 0));
    out
}

/// A copy of a list of matches.
fn copy_matches(v: &Vec<SearchMatch>) -> (r: Vec<SearchMatch>)
    ensures
        views(r@) == views(v@),
{
    let mut out: Vec<SearchMatch> = Vec::new();
    let mut i: usize = 0;
    while i < v.len()
        invariant
            i <= v@.len(),
            views(out@) == views(v@.take(i as int)),
        decreases v@.len() - i,
    {
        let m = v[i].duplicate();
        let ghost prev = out@;
        out.push(m);
        proof {
            lemma_views_push(prev, m);
            lemma_views_push(v@.take(i as int), v@[i as int]);
            assert(v@.take(i + 1) == v@.take(i as int).push(v@[i as int]));
        }
        i += 1;
    }
    assert(v@.take(v@.len() as int) =~= v@);
    out
}

/// The text each line buffer holds.
pub open spec fn lines_view(v: Seq<Vec<char>>) -> Seq<Seq<char>> {
    v.map_values(|l: Vec<char>| l@)
}

/// `a` followed by `b`.
fn concat_chars(a: &[char], b: &[char]) -> (r: Vec<char>)
    ensures
        r@ == a@ + b@,
{
    let mut out: Vec<char> = Vec::new();
    let mut i: usize = 0;
    while i < a.len()
        invariant
            i <= a@.len(),
            out@ == a@.take(i as int),
        decreases a@.len() - i,
    {
        out.push(a[i]);
        i += 1;
        assert(a@.take(i as int) =~= a@.take(i - 1).push(a@[i - 1]));
    }
    let mut j: usize = 0;
    assert(a@.take(a@.len() as int) =~= a@);
    while j < b.len()
        invariant
            j <= b@.len(),
            out@ == a@ + b@.take(j as int),
        decreases b@.len() - j,
    {
        out.push(b[j]);
        j += 1;
        assert(a@ + b@.take(j as int) =~= (a@ + b@.take(j - 1)).push(b@[j - 1]));
    }
    assert(b@.take(b@.len() as int) =~= b@);
    out
}

/// The lines joined with `'\n'`.
pub(crate) fn join_chars(lines: &Vec<Vec<char>>) -> (r: Vec<char>)
    ensures
        r@ == join_lines(lines_view(lines@)),
{
    let ghost lv = lines_view(lines@);
    let mut out: Vec<char> = Vec::new();
    let mut i: usize = 0;
    while i < lines.len()
        invariant
            lv == lines_view(lines@),
            i <= lines@.len(),
            out@ == join_lines(lv.take(i as int)),
        decreases lines@.len() - i,
    {
        let ghost prev = out@;
        if i > 0 {
            out.push('\n');
        }
        let line = &lines[i];
        let mut k: usize = 0;
        let ghost mid = out@;
        while k < line.len()
            invariant
                k <= line@.len(),
                out@ == mid + line@.take(k as int),
            decreases line@.len() - k,
        {
            out.push(line[k]);
            k += 1;
            assert(mid + line@.take(k as int) =~= (mid + line@.take(k - 1)).push(line@[k - 1]));
        }
        assert(line@.take(line@.len() as int) =~= line@);
        assert(lv[i as int] == line@);
        assert(lv.take(i + 1).drop_last() =~= lv.take(i as int));
        assert(lv.take(i + 1).last() == line@);
        if i == 0 {
            assert(out@ =~= line@);
            assert(join_lines(lv.take(1)) == lv.take(1)[0]);
        } else {
            assert(out@ =~= prev + seq!['\n'] + line@);
        }
        i += 1;
    }
    assert(lv.take(lines@.len() as int) =~= lv);
    out
}

/// A line with the columns `[s, e)` replaced.
fn replace_range_exec(line: &[char], s: usize, e: usize, repl: &[char]) -> (r: Vec<char>)
    requires
        s <= e <= line@.len(),
    ensures
        r@ == replace_range(line@, s as int, e as int, repl@),
{
    let mut out: Vec<char> = Vec::new();
    let mut i: usize = 0;
    while i < s
        invariant
            i <= s <= e <= line@.len(),
            out@ == line@.subrange(0, i as int),
        decreases s - i,
    {
        out.push(line[i]);
        i += 1;
        assert(line@.subrange(0, i as int) =~= line@.subrange(0, i - 1).push(line@[i - 1]));
    }
    let mid = concat_chars(&out, repl);
    let mut out2 = mid;
    let mut j = e;
    let ghost base = out2@;
    while j < line.len()
        invariant
            e <= j <= line@.len(),
            out2@ == base + line@.subrange(e as int, j as int),
        decreases line@.len() - j,
    {
        out2.push(line[j]);
        j += 1;
        assert(base + line@.subrange(e as int, j as int) =~= (base + line@.subrange(e as int, j - 1)).push(line@[j - 1]));
    }
    out2
}

/// A line with the bytes `[s, e)` replaced.
fn replace_bytes_exec(line: &[char], s: usize, e: usize, repl: &[char]) -> (r: Vec<char>)
    requires
        s <= e,
    ensures
        r@ == replace_bytes(line@, s as int, e as int, repl@),
{
    let cs = char_index_exec(line, s);
    let ce = char_index_exec(line, e);
    proof {
        lemma_char_index_mono(line@, s as int, e as int);
    }
    replace_range_exec(line, cs, ce, repl)
}

/// The lines of a text, as line buffers.
fn text_lines(text: &str) -> (r: Vec<Vec<char>>)
    ensures
        lines_view(r@) == spec_lines(text@),
{
    let tc = chars_of(text);
    let lines = split_lines(&tc);
    assert(lines_view(lines@) =~= spec_lines(text@));
    lines
}

/// The match after match `c` of `n`, wrapping to the first.
pub open spec fn next_index(n: nat, c: usize) -> usize {
    ((c + 1) % (n as int)) as usize
}

/// The match before match `c` of `n`, wrapping to the last.
pub open spec fn prev_index(n: nat, c: usize) -> usize {
    if c == 0 {
        (n - 1) as usize
    } else {
        (c - 1) as usize
    }
}

/// Moving to the next match and back, or back and then on, returns to the
/// same match.
pub proof fn lemma_next_then_previous(n: nat, c: usize)
    requires
        c < n,
        n <= usize::MAX,
    ensures
        prev_index(n, next_index(n, c)) == c,
        next_index(n, prev_index(n, c)) == c,
{
    if c + 1 < n {
        assert((c + 1) % (n as int) == c + 1) by (nonlinear_arith)
            requires
                0 <= c + 1 < n,
        ;
    } else {
        assert((c + 1) % (n as int) == 0) by (nonlinear_arith)
            requires
                c + 1 == n,
                n > 0,
        ;
    }
    if c == 0 {
        assert(((n - 1) + 1) % (n as int) == 0) by (nonlinear_arith)
            requires
                n > 0,
        ;
    } else {
        assert((c as int) % (n as int) == c) by (nonlinear_arith)
            requires
                0 <= c < n,
        ;
    }
}

/// A character's byte offset gives back the character's number.
proof fn lemma_char_index_of_offset(line: Seq<char>, k: int)
    requires
        0 <= k <= line.len(),
    ensures
        char_index(line, byte_offset(line, k)) == k,
        is_boundary(line, byte_offset(line, k)),
{
    if k < line.len() {
        lemma_byte_offset_strict(line, k, k + 1);
    }
    lemma_char_index_count(line, byte_offset(line, k), k);
    lemma_byte_offset_mono(line, k, line.len() as int);
    lemma_byte_offset_mono(line, 0, k);
}

/// Each literal match found from character `start` on is on line `idx`,
/// starts at the byte offset of an occurrence of the folded query at or
/// after `start`, ends where that occurrence ends, and carries the line's
/// text between its columns; the matches start at strictly increasing
/// columns.
proof fn lemma_literal_matches_from(
    line: Seq<char>,
    t: Seq<char>,
    q: Seq<char>,
    idx: int,
    ww: bool,
    start: int,
)
    requires
        0 <= start,
    ensures
        forall|k: int| 0 <= k < literal_matches_from(line, t, q, idx, ww, start).len() ==> {
            let m = #[trigger] literal_matches_from(line, t, q, idx, ww, start)[k];
            &&& m.line == idx
            &&& m.start_col >= byte_offset(t, start)
            &&& exists|j: int| start <= j && #[trigger] occurs_at(t, q, j) && m.start_col == byte_offset(t, j)
                && m.end_col == byte_offset(t, j + q.len())
            &&& keep_span(line, m.start_col, m.end_col, ww)
            &&& m.text == line.subrange(char_index(line, m.start_col), char_index(line, m.end_col))
        },
        forall|i: int, k: int| 0 <= i < k < literal_matches_from(line, t, q, idx, ww, start).len() ==>
            #[trigger] literal_matches_from(line, t, q, idx, ww, start)[i].start_col
                < #[trigger] literal_matches_from(line, t, q, idx, ww, start)[k].start_col,
    decreases t.len() + 1 - start,
{
    if start <= t.len() {
        lemma_literal_matches_from(line, t, q, idx, ww, start + 1);
        let rest = literal_matches_from(line, t, q, idx, ww, start + 1);
        if start + 1 <= t.len() {
            lemma_byte_offset_strict(t, start, start + 1);
        } else {
            assert(rest.len() == 0);
        }
        let p = byte_offset(t, start);
        let pe = byte_offset(t, start + q.len());
        if occurs_at(t, q, start) && keep_span(line, p, pe, ww) {
            let r = seq![match_of(line, idx, p, pe)] + rest;
            assert forall|k: int| 1 <= k < r.len() implies #[trigger] r[k] == rest[k - 1] by {}
            assert(r[0] == match_of(line, idx, p, pe));
            assert forall|k: int| 0 <= k < r.len() implies {
                let m = #[trigger] r[k];
                &&& m.line == idx
                &&& m.start_col >= byte_offset(t, start)
                &&& exists|j: int| start <= j && #[trigger] occurs_at(t, q, j) && m.start_col == byte_offset(t, j)
                    && m.end_col == byte_offset(t, j + q.len())
                &&& keep_span(line, m.start_col, m.end_col, ww)
                &&& m.text == line.subrange(char_index(line, m.start_col), char_index(line, m.end_col))
            } by {
                if k == 0 {
                    assert(occurs_at(t, q, start));
                } else {
                    let m = rest[k - 1];
                    let j = choose|j: int| start + 1 <= j && #[trigger] occurs_at(t, q, j) && m.start_col == byte_offset(t, j)
                        && m.end_col == byte_offset(t, j + q.len());
                    assert(occurs_at(t, q, j));
                }
            }
            assert forall|i: int, k: int| 0 <= i < k < r.len() implies #[trigger] r[i].start_col < #[trigger] r[k].start_col by {
                if i > 0 {
                    assert(r[i] == rest[i - 1]);
                    assert(r[k] == rest[k - 1]);
                } else {
                    assert(r[k] == rest[k - 1]);
                }
            }
        } else {
            assert forall|k: int| 0 <= k < rest.len() implies #[trigger] rest[k].start_col >= byte_offset(t, start) by {}
        }
    }
}

/// Each regular expression match from span `k` on is on line `idx`.
proof fn lemma_regex_matches_line(line: Seq<char>, idx: int, spans: Seq<(usize, usize)>, ww: bool, k: int)
    ensures
        forall|i: int| 0 <= i < regex_matches_from(line, idx, spans, ww, k).len() ==>
            (#[trigger] regex_matches_from(line, idx, spans, ww, k)[i]).line == idx,
    decreases spans.len() - k,
{
    if 0 <= k < spans.len() {
        lemma_regex_matches_line(line, idx, spans, ww, k + 1);
        let rest = regex_matches_from(line, idx, spans, ww, k + 1);
        let r = regex_matches_from(line, idx, spans, ww, k);
        if r.len() == rest.len() + 1 {
            assert forall|i: int| 1 <= i < r.len() implies #[trigger] r[i] == rest[i - 1] by {}
        }
    }
}

/// With spans starting at strictly increasing offsets, the regular
/// expression matches from span `k` on start at strictly increasing
/// columns, none before the start of span `k`.
proof fn lemma_regex_matches_ordered(line: Seq<char>, idx: int, spans: Seq<(usize, usize)>, ww: bool, k: int)
    requires
        0 <= k,
        forall|i: int, j: int| 0 <= i < j < spans.len() ==> #[trigger] spans[i].0 < #[trigger] spans[j].0,
    ensures
        k < spans.len() ==> forall|i: int| 0 <= i < regex_matches_from(line, idx, spans, ww, k).len() ==>
            (#[trigger] regex_matches_from(line, idx, spans, ww, k)[i]).start_col >= spans[k].0,
        forall|i: int, j: int| 0 <= i < j < regex_matches_from(line, idx, spans, ww, k).len() ==>
            #[trigger] regex_matches_from(line, idx, spans, ww, k)[i].start_col
                < #[trigger] regex_matches_from(line, idx, spans, ww, k)[j].start_col,
    decreases spans.len() - k,
{
    if k < spans.len() {
        lemma_regex_matches_ordered(line, idx, spans, ww, k + 1);
        let rest = regex_matches_from(line, idx, spans, ww, k + 1);
        let r = regex_matches_from(line, idx, spans, ww, k);
        if k + 1 < spans.len() {
            assert(spans[k].0 < spans[k + 1].0);
        } else {
            assert(rest.len() == 0);
        }
        if r.len() == rest.len() + 1 {
            assert forall|i: int| 1 <= i < r.len() implies #[trigger] r[i] == rest[i - 1] by {}
            assert forall|i: int, j: int| 0 <= i < j < r.len() implies #[trigger] r[i].start_col < #[trigger] r[j].start_col by {
                assert(r[j] == rest[j - 1]);
                if i > 0 {
                    assert(r[i] == rest[i - 1]);
                }
            }
        }
    }
}

/// Matches in reading order, all on lines before `x`, followed by matches
/// on line `x` at increasing columns, are in reading order.
proof fn lemma_ordered_append(a: Seq<MatchSpec>, b: Seq<MatchSpec>, x: int)
    requires
        ordered(a),
        forall|i: int| 0 <= i < a.len() ==> (#[trigger] a[i]).line < x,
        forall|i: int| 0 <= i < b.len() ==> (#[trigger] b[i]).line == x,
        forall|i: int, j: int| 0 <= i < j < b.len() ==> #[trigger] b[i].start_col < #[trigger] b[j].start_col,
    ensures
        ordered(a + b),
        forall|i: int| 0 <= i < (a + b).len() ==> (#[trigger] (a + b)[i]).line <= x,
{
    let c = a + b;
    assert forall|i: int, j: int| 0 <= i < j < c.len() implies #[trigger] c[i].line < #[trigger] c[j].line
        || (c[i].line == c[j].line && c[i].start_col < c[j].start_col) by {
        if j < a.len() {
            assert(c[i] == a[i] && c[j] == a[j]);
        } else if i < a.len() {
            assert(c[i] == a[i] && c[j] == b[j - a.len()]);
        } else {
            assert(c[i] == b[i - a.len()] && c[j] == b[j - a.len()]);
        }
    }
    assert forall|i: int| 0 <= i < c.len() implies (#[trigger] c[i]).line <= x by {
        if i < a.len() {
            assert(c[i] == a[i]);
        } else {
            assert(c[i] == b[i - a.len()]);
        }
    }
}

/// A case-sensitive literal search finds only the query itself: each match
/// is on a line of the text, starts at the byte offset of a character where
/// the query occurs in that line, ends where that occurrence ends, has the
/// query as its text, and is a whole word when whole words are asked for.
pub proof fn lemma_literal_search_finds_query(query: Seq<char>, o: SearchOptions, text: Seq<char>)
    requires
        !o.use_regex,
        o.case_sensitive,
    ensures
        forall|k: int| 0 <= k < search_spec(query, o, text).len() ==> {
            let m = #[trigger] search_spec(query, o, text)[k];
            let line = spec_lines(text)[m.line];
            &&& 0 <= m.line < spec_lines(text).len()
            &&& exists|j: int| #[trigger] occurs_at(line, query, j) && m.start_col == byte_offset(line, j)
                && m.end_col == byte_offset(line, j + query.len())
            &&& m.text == query
            &&& (o.whole_word ==> whole_word_at(line, m.start_col, m.end_col))
        },
{
    let lines = spec_lines(text);
    let n = lines.len() as int;
    let e = end_line(o, n);
    let hi = if e < n { e } else { n };
    let lo = first_line(o);
    if query.len() > 0 {
        lemma_matches_in_lines_facts(lines, query, o, lo, hi);
        let r = search_spec(query, o, text);
        assert forall|k: int| 0 <= k < r.len() implies {
            let m = #[trigger] r[k];
            let line = spec_lines(text)[m.line];
            &&& 0 <= m.line < spec_lines(text).len()
            &&& exists|j: int| #[trigger] occurs_at(line, query, j) && m.start_col == byte_offset(line, j)
                && m.end_col == byte_offset(line, j + query.len())
            &&& m.text == query
            &&& (o.whole_word ==> whole_word_at(line, m.start_col, m.end_col))
        } by {
            let m = r[k];
            let line = lines[m.line];
            let j = choose|j: int| 0 <= j && #[trigger] occurs_at(line, query, j) && m.start_col == byte_offset(line, j)
                && m.end_col == byte_offset(line, j + query.len());
            lemma_char_index_of_offset(line, j);
            lemma_char_index_of_offset(line, j + query.len());
            assert(occurs_at(line, query, j));
        }
    }
}

/// Each match of the lines `[lo, hi)` of a literal search is on one of
/// those lines and is what that line's search reports of an occurrence.
proof fn lemma_matches_in_lines_facts(lines: Seq<Seq<char>>, query: Seq<char>, o: SearchOptions, lo: int, hi: int)
    requires
        !o.use_regex,
        0 <= lo,
        hi <= lines.len(),
    ensures
        forall|k: int| 0 <= k < matches_in_lines(lines, query, o, lo, hi).len() ==> {
            let m = #[trigger] matches_in_lines(lines, query, o, lo, hi)[k];
            let line = lines[m.line];
            let q = folded(query, o);
            let t = folded(line, o);
            &&& lo <= m.line < hi
            &&& exists|j: int| 0 <= j && #[trigger] occurs_at(t, q, j) && m.start_col == byte_offset(t, j)
                && m.end_col == byte_offset(t, j + q.len())
            &&& keep_span(line, m.start_col, m.end_col, o.whole_word)
            &&& m.text == line.subrange(char_index(line, m.start_col), char_index(line, m.end_col))
        },
    decreases hi - lo,
{
    if hi > lo {
        lemma_matches_in_lines_facts(lines, query, o, lo, hi - 1);
        let line = lines[hi - 1];
        lemma_literal_matches_from(line, folded(line, o), folded(query, o), hi - 1, o.whole_word, 0);
        let a = matches_in_lines(lines, query, o, lo, hi - 1);
        let b = literal_line_matches(line, hi - 1, query, o);
        let c = matches_in_lines(lines, query, o, lo, hi);
        assert(c == a + b);
        assert forall|k: int| 0 <= k < c.len() implies {
            let m = #[trigger] c[k];
            let line = lines[m.line];
            let q = folded(query, o);
            let t = folded(line, o);
            &&& lo <= m.line < hi
            &&& exists|j: int| 0 <= j && #[trigger] occurs_at(t, q, j) && m.start_col == byte_offset(t, j)
                && m.end_col == byte_offset(t, j + q.len())
            &&& keep_span(line, m.start_col, m.end_col, o.whole_word)
            &&& m.text == line.subrange(char_index(line, m.start_col), char_index(line, m.end_col))
        } by {
            if k < a.len() {
                assert(c[k] == a[k]);
            } else {
                assert(c[k] == b[k - a.len()]);
                let m = b[k - a.len()];
                assert(m.line == hi - 1);
                let j = choose|j: int| 0 <= j && #[trigger] occurs_at(folded(line, o), folded(query, o), j)
                    && m.start_col == byte_offset(folded(line, o), j)
                    && m.end_col == byte_offset(folded(line, o), j + folded(query, o).len());
                assert(occurs_at(folded(line, o), folded(query, o), j));
            }
        }
    }
}

/// Each regular expression match from span `k` on is on line `idx` and is
/// reported only as its span passes the whole-word test.
proof fn lemma_regex_matches_kept(line: Seq<char>, idx: int, spans: Seq<(usize, usize)>, ww: bool, k: int)
    ensures
        forall|i: int| 0 <= i < regex_matches_from(line, idx, spans, ww, k).len() ==> {
            let m = #[trigger] regex_matches_from(line, idx, spans, ww, k)[i];
            m.line == idx && keep_span(line, m.start_col, m.end_col, ww)
        },
    decreases spans.len() - k,
{
    if 0 <= k < spans.len() {
        lemma_regex_matches_kept(line, idx, spans, ww, k + 1);
        let rest = regex_matches_from(line, idx, spans, ww, k + 1);
        let r = regex_matches_from(line, idx, spans, ww, k);
        if r.len() == rest.len() + 1 {
            assert forall|i: int| 1 <= i < r.len() implies #[trigger] r[i] == rest[i - 1] by {}
            assert forall|i: int| 0 <= i < r.len() implies ({
                let m = #[trigger] r[i];
                m.line == idx && keep_span(line, m.start_col, m.end_col, ww)
            }) by {
                if i > 0 {
                    assert(r[i] == rest[i - 1]);
                }
            }
        }
    }
}

/// Each match of the lines `[lo, hi)` lies on one of those lines and
/// passes the whole-word test of its line.
proof fn lemma_matches_in_lines_kept(lines: Seq<Seq<char>>, query: Seq<char>, o: SearchOptions, lo: int, hi: int)
    requires
        0 <= lo,
        hi <= lines.len(),
    ensures
        forall|k: int| 0 <= k < matches_in_lines(lines, query, o, lo, hi).len() ==> {
            let m = #[trigger] matches_in_lines(lines, query, o, lo, hi)[k];
            &&& lo <= m.line < hi
            &&& keep_span(lines[m.line], m.start_col, m.end_col, o.whole_word)
        },
    decreases hi - lo,
{
    if hi > lo {
        lemma_matches_in_lines_kept(lines, query, o, lo, hi - 1);
        let line = lines[hi - 1];
        let a = matches_in_lines(lines, query, o, lo, hi - 1);
        let b = line_matches(line, hi - 1, query, o);
        if o.use_regex {
            lemma_regex_matches_kept(line, hi - 1, spec_regex_spans(regex_pattern(query, o), line), o.whole_word, 0);
        } else {
            lemma_literal_matches_from(line, folded(line, o), folded(query, o), hi - 1, o.whole_word, 0);
        }
        let c = matches_in_lines(lines, query, o, lo, hi);
        assert(c == a + b);
        assert forall|k: int| 0 <= k < c.len() implies ({
            let m = #[trigger] c[k];
            &&& lo <= m.line < hi
            &&& keep_span(lines[m.line], m.start_col, m.end_col, o.whole_word)
        }) by {
            if k < a.len() {
                assert(c[k] == a[k]);
            } else {
                assert(c[k] == b[k - a.len()]);
            }
        }
    }
}

/// With whole words asked for, every match stands alone in its line: the
/// character just before it (numbered by its start column) is not
/// alphanumeric, and neither is the character just after it (numbered by
/// its end column) unless the match reaches the line's end.
pub proof fn lemma_whole_word_matches(query: Seq<char>, o: SearchOptions, text: Seq<char>)
    requires
        o.whole_word,
    ensures
        forall|k: int| 0 <= k < search_spec(query, o, text).len() ==> {
            let m = #[trigger] search_spec(query, o, text)[k];
            let line = spec_lines(text)[m.line];
            &&& 0 <= m.line < spec_lines(text).len()
            &&& (m.start_col == 0 || !(0 <= m.start_col - 1 < line.len() && spec_is_alphanumeric(line[m.start_col - 1])))
            &&& (m.end_col >= utf8_size(line) || !(0 <= m.end_col < line.len() && spec_is_alphanumeric(line[m.end_col])))
        },
{
    let lines = spec_lines(text);
    let n = lines.len() as int;
    let e = end_line(o, n);
    let hi = if e < n { e } else { n };
    let lo = first_line(o);
    if query.len() > 0 {
        lemma_matches_in_lines_kept(lines, query, o, lo, hi);
    }
}

/// Whether a match lies on one of the lines `[a, b)`.
pub open spec fn on_lines(a: int, b: int) -> spec_fn(MatchSpec) -> bool {
    |m: MatchSpec| a <= m.line < b
}

/// The options with the search over the whole text.
pub open spec fn whole_text(o: SearchOptions) -> SearchOptions {
    SearchOptions {
        case_sensitive: o.case_sensitive,
        whole_word: o.whole_word,
        use_regex: o.use_regex,
        in_selection: false,
        selection_start_line: o.selection_start_line,
        selection_end_line: o.selection_end_line,
    }
}

proof fn lemma_filter_all(s: Seq<MatchSpec>, p: spec_fn(MatchSpec) -> bool)
    requires
        forall|i: int| 0 <= i < s.len() ==> p(#[trigger] s[i]),
    ensures
        s.filter(p) == s,
    decreases s.len(),
{
    reveal(Seq::filter);
    if s.len() > 0 {
        lemma_filter_all(s.drop_last(), p);
        assert(p(s[s.len() - 1]));
        assert(s.drop_last().push(s.last()) =~= s);
    }
}

proof fn lemma_filter_none(s: Seq<MatchSpec>, p: spec_fn(MatchSpec) -> bool)
    requires
        forall|i: int| 0 <= i < s.len() ==> !p(#[trigger] s[i]),
    ensures
        s.filter(p) == Seq::<MatchSpec>::empty(),
    decreases s.len(),
{
    reveal(Seq::filter);
    if s.len() > 0 {
        lemma_filter_none(s.drop_last(), p);
        assert(!p(s[s.len() - 1]));
    }
}

/// Every match of line `idx` is on line `idx`.
proof fn lemma_line_matches_line(line: Seq<char>, idx: int, query: Seq<char>, o: SearchOptions)
    ensures
        forall|i: int| 0 <= i < line_matches(line, idx, query, o).len() ==>
            (#[trigger] line_matches(line, idx, query, o)[i]).line == idx,
{
    if o.use_regex {
        lemma_regex_matches_line(line, idx, spec_regex_spans(regex_pattern(query, o), line), o.whole_word, 0);
    } else {
        lemma_literal_matches_from(line, folded(line, o), folded(query, o), idx, o.whole_word, 0);
    }
}

/// The matches of line `idx` do not depend on which lines are searched.
pub open spec fn line_matches(line: Seq<char>, idx: int, query: Seq<char>, o: SearchOptions) -> Seq<MatchSpec> {
    if o.use_regex {
        regex_line_matches(line, idx, query, o)
    } else {
        literal_line_matches(line, idx, query, o)
    }
}

/// Searching lines `[lo, hi)` with either options gives the same matches.
proof fn lemma_matches_in_lines_whole(lines: Seq<Seq<char>>, query: Seq<char>, o: SearchOptions, lo: int, hi: int)
    ensures
        matches_in_lines(lines, query, o, lo, hi) == matches_in_lines(lines, query, whole_text(o), lo, hi),
    decreases hi - lo,
{
    if hi > lo {
        lemma_matches_in_lines_whole(lines, query, o, lo, hi - 1);
    }
}

/// The matches of the first `hi` lines that lie on lines `[a, b)` are
/// those of the lines from `a` to the smaller of `hi` and `b`.
proof fn lemma_filter_lines(lines: Seq<Seq<char>>, query: Seq<char>, o: SearchOptions, hi: int, a: int, b: int)
    requires
        0 <= hi <= lines.len(),
        0 <= a,
    ensures
        matches_in_lines(lines, query, o, 0, hi).filter(on_lines(a, b))
            == matches_in_lines(lines, query, o, a, if hi < b { hi } else { b }),
    decreases hi,
{
    let p = on_lines(a, b);
    if hi == 0 {
        lemma_filter_none(Seq::<MatchSpec>::empty(), p);
    } else {
        lemma_filter_lines(lines, query, o, hi - 1, a, b);
        let prev = matches_in_lines(lines, query, o, 0, hi - 1);
        let lm = line_matches(lines[hi - 1], hi - 1, query, o);
        assert(matches_in_lines(lines, query, o, 0, hi) == prev + lm);
        Seq::filter_distributes_over_add(prev, lm, p);
        lemma_line_matches_line(lines[hi - 1], hi - 1, query, o);
        if a <= hi - 1 < b {
            lemma_filter_all(lm, p);
            assert(matches_in_lines(lines, query, o, a, hi) == matches_in_lines(lines, query, o, a, hi - 1) + lm);
        } else {
            lemma_filter_none(lm, p);
            assert(prev.filter(p) + Seq::<MatchSpec>::empty() =~= prev.filter(p));
        }
    }
}

/// A search restricted to the lines `[a, b)` finds exactly the matches of
/// the same search over the whole text that lie on those lines, in the
/// same order; and it can run to its end whenever the search over the
/// whole text can.
pub proof fn lemma_search_in_lines(query: Seq<char>, o: SearchOptions, text: Seq<char>, a: usize, b: usize)
    requires
        o.in_selection,
        o.selection_start_line == Some(a),
        o.selection_end_line == Some(b),
        a <= b,
    ensures
        search_spec(query, o, text) == search_spec(query, whole_text(o), text).filter(on_lines(a as int, b as int)),
        search_ok(query, whole_text(o), text) ==> search_ok(query, o, text),
{
    let lines = spec_lines(text);
    let n = lines.len() as int;
    let w = whole_text(o);
    assert(regex_pattern(query, w) == regex_pattern(query, o));
    if search_ok(query, w, text) && query.len() > 0 && (!o.use_regex || spec_regex_valid(regex_pattern(query, o))) {
        assert forall|i: int| first_line(o) <= i < (if end_line(o, n) < n { end_line(o, n) } else { n })
            implies #[trigger] line_ok(lines[i], query, o) by {
            assert(line_ok(lines[i], query, w));
            assert(folded(query, w) == folded(query, o));
            assert(folded(lines[i], w) == folded(lines[i], o));
        }
    }
    if query.len() == 0 || (o.use_regex && !spec_regex_valid(regex_pattern(query, o))) {
        lemma_filter_none(Seq::<MatchSpec>::empty(), on_lines(a as int, b as int));
    } else {
        lemma_filter_lines(lines, query, w, n, a as int, b as int);
        lemma_matches_in_lines_whole(lines, query, o, a as int, if n < b { n } else { b as int });
        assert(whole_text(w) == w);
    }
}

// ---------------------------------------------------------------------
// Checking that a search can run
// ---------------------------------------------------------------------

/// The UTF-8 size of a line, when it fits in a `usize`.
fn utf8_size_exec(line: &[char]) -> (r: Option<usize>)
    ensures
        match r {
            Some(n) => fits(line@) && n == utf8_size(line@),
            None => !fits(line@),
        },
{
    let mut i: usize = 0;
    let mut off: usize = 0;
    while i < line.len()
        invariant
            i <= line@.len(),
            off == byte_offset(line@, i as int),
        decreases line@.len() - i,
    {
        let w = utf8_len_exec(line[i]);
        match off.checked_add(w) {
            Some(v) => {
                off = v;
            },
            None => {
                proof {
                    lemma_byte_offset_mono(line@, i + 1, line@.len() as int);
                }
                return None;
            },
        }
        i += 1;
    }
    Some(off)
}

/// The byte offset of character `k` of a line, known to be at most `b`.
fn byte_offset_below(line: &[char], k: usize, b: usize) -> (r: usize)
    requires
        k <= line@.len(),
        byte_offset(line@, k as int) <= b,
    ensures
        r == byte_offset(line@, k as int),
{
    let mut i: usize = 0;
    let mut off: usize = 0;
    while i < k
        invariant
            i <= k <= line@.len(),
            byte_offset(line@, k as int) <= b,
            off == byte_offset(line@, i as int),
        decreases k - i,
    {
        proof { lemma_byte_offset_mono(line@, i + 1, k as int); }
        off = off + utf8_len_exec(line[i]);
        i += 1;
    }
    off
}

/// Whether byte offset `b` falls between two characters of a line.
fn is_boundary_exec(line: &[char], b: usize) -> (r: bool)
    ensures
        r == is_boundary(line@, b as int),
{
    let k = char_index_exec(line, b);
    let off = byte_offset_below(line, k, b);
    proof {
        lemma_byte_offset_mono(line@, k as int, line@.len() as int);
    }
    off == b
}

/// Whether a line can be searched for the folded query `q` (folded line
/// `t`) without a fault (see `line_ok`).
fn literal_line_ok_exec(line: &[char], t: &[char], q: &[char], whole_word: bool) -> (r: bool)
    ensures
        r == ({
            &&& q@.len() > 0
            &&& fits(line@)
            &&& fits(t@)
            &&& forall|j: int| #[trigger] occurs_at(t@, q@, j) ==> literal_occurrence_ok(line@, t@, q@, j, whole_word)
        }),
{
    if q.len() == 0 {
        return false;
    }
    let size = match utf8_size_exec(line) {
        Some(n) => n,
        None => return false,
    };
    match utf8_size_exec(t) {
        Some(_) => {},
        None => return false,
    }
    let mut start: usize = 0;
    loop
        invariant
            start <= t@.len(),
            q@.len() > 0,
            fits(t@),
            size == utf8_size(line@),
            forall|j: int| 0 <= j < start ==> #[trigger] occurs_at(t@, q@, j) ==> literal_occurrence_ok(line@, t@, q@, j, whole_word),
        decreases t@.len() - start,
    {
        match find_from(t, q, start) {
            None => {
                return true;
            },
            Some(pos) => {
                assert(pos + q@.len() <= t@.len());
                let tl = t.len();
                let end = pos + q.len();
                let p = byte_offset_exec(t, pos);
                let pe = byte_offset_exec(t, end);
                let one_byte = utf8_len_exec(t[pos]) == 1;
                let neighbours = !whole_word || ((p == 0 || p - 1 < line.len()) && (pe >= size || pe < line.len()));
                let keep = keep_span_exec(line, size, p, pe, whole_word);
                let bounds = !keep || (is_boundary_exec(line, p) && is_boundary_exec(line, pe));
                if !(one_byte && neighbours && bounds) {
                    assert(!literal_occurrence_ok(line@, t@, q@, pos as int, whole_word));
                    return false;
                }
                start = pos + 1;
            },
        }
    }
}

/// Whether the whole-word test of every span can look up its neighbours
/// (see `line_ok`).
fn regex_line_ok_exec(line: &[char], spans: &Vec<(usize, usize)>, whole_word: bool) -> (r: bool)
    ensures
        r == (fits(line@) && forall|k: int| 0 <= k < spans@.len()
            ==> #[trigger] span_ok(line@, spans@[k].0 as int, spans@[k].1 as int, whole_word)),
{
    let size = match utf8_size_exec(line) {
        Some(n) => n,
        None => return false,
    };
    let mut k: usize = 0;
    while k < spans.len()
        invariant
            k <= spans@.len(),
            size == utf8_size(line@),
            fits(line@),
            forall|i: int| 0 <= i < k ==> #[trigger] span_ok(line@, spans@[i].0 as int, spans@[i].1 as int, whole_word),
        decreases spans@.len() - k,
    {
        let (s, e) = spans[k];
        let ok = !whole_word || ((s == 0 || s - 1 < line.len()) && (e >= size || e < line.len()));
        if !ok {
            assert(!span_ok(line@, spans@[k as int].0 as int, spans@[k as int].1 as int, whole_word));
            return false;
        }
        k += 1;
    }
    true
}

/// The search engine: a query, its options, the matches of the last
/// search and the index of the current match.
pub struct SearchEngine {
    query: String,
    options: SearchOptions,
    matches: Vec<SearchMatch>,
    current_match_index: Option<usize>,
}

impl SearchEngine {
    pub closed spec fn spec_query(&self) -> Seq<char> {
        self.query@
    }

    pub closed spec fn spec_options(&self) -> SearchOptions {
        self.options
    }

    pub closed spec fn spec_matches(&self) -> Seq<MatchSpec> {
        self.matches@.map_values(|m: SearchMatch| m@)
    }

    pub closed spec fn spec_current(&self) -> Option<usize> {
        self.current_match_index
    }

    /// The current index, if any, points at a match.
    pub open spec fn wf(&self) -> bool {
        match self.spec_current() {
            Some(i) => i < self.spec_matches().len(),
            None => true,
        }
    }

    /// The state a search of `text` leaves: its matches, and the first one
    /// current if there is one.
    pub open spec fn searched(&self, text: Seq<char>) -> bool {
        &&& self.spec_matches() == search_spec(self.spec_query(), self.spec_options(), text)
        &&& self.spec_current() == if self.spec_matches().len() > 0 { Some(0usize) } else { None::<usize> }
    }

    pub fn new() -> (r: Self)
        ensures
            r.wf(),
            r.spec_query() == Seq::<char>::empty(),
            r.spec_options() == SearchOptions::spec_default(),
            r.spec_matches() == Seq::<MatchSpec>::empty(),
            r.spec_current() == None::<usize>,
    {
        let r = Self {
            query: String::new(),
            options: SearchOptions::default(),
            matches: Vec::new(),
            current_match_index: None,
        };
        assert(r.spec_matches() =~= Seq::<MatchSpec>::empty());
        r
    }

    pub fn set_query(&mut self, query: String)
        requires
            old(self).wf(),
        ensures
            final(self).wf(),
            final(self).spec_query() == query@,
            final(self).spec_options() == old(self).spec_options(),
            final(self).spec_matches() == old(self).spec_matches(),
            final(self).spec_current() == old(self).spec_current(),
    {
        self.query = query;
    }

    /// The text that replacing the current match in `text` gives, if
    /// there is a current match and its line is in the text.
    pub open spec fn replaced_current(&self, text: Seq<char>, repl: Seq<char>) -> Option<Seq<char>> {
        match self.spec_current() {
            None => None,
            Some(i) => {
                let m = self.spec_matches()[i as int];
                let lines = spec_lines(text);
                if m.line >= lines.len() {
                    None
                } else {
                    Some(join_lines(lines.update(m.line, replace_bytes(lines[m.line], m.start_col, m.end_col, repl))))
                }
            },
        }
    }

    /// Whether the current match can be replaced in `text`: its columns
    /// fall on character boundaries of its line, in order, and the text
    /// after replacement can be searched again.
    pub open spec fn replace_current_ok(&self, text: Seq<char>, repl: Seq<char>) -> bool {
        match self.replaced_current(text, repl) {
            None => true,
            Some(t2) => {
                let m = self.spec_matches()[self.spec_current()->0 as int];
                &&& byte_range_ok(spec_lines(text)[m.line], m.start_col, m.end_col)
                &&& search_ok(self.spec_query(), self.spec_options(), t2)
            },
        }
    }

    /// The text that replacing every match in `text` gives.
    pub open spec fn replaced_all(&self, text: Seq<char>, repl: Seq<char>) -> Option<Seq<char>> {
        match replace_matches(spec_lines(text), self.spec_matches(), repl) {
            Some(lines) => Some(join_lines(lines)),
            None => None,
        }
    }

    /// Whether every match can be replaced in `text` (each falls inside its
    /// line when its turn comes), and the result can be searched again.
    pub open spec fn replace_all_ok(&self, text: Seq<char>, repl: Seq<char>) -> bool {
        self.spec_matches().len() > 0 ==> match self.replaced_all(text, repl) {
            Some(t2) => search_ok(self.spec_query(), self.spec_options(), t2),
            None => false,
        }
    }

    pub fn set_options(&mut self, options: SearchOptions)
        requires
            old(self).wf(),
        ensures
            final(self).wf(),
            final(self).spec_query() == old(self).spec_query(),
            final(self).spec_options() == options,
            final(self).spec_matches() == old(self).spec_matches(),
            final(self).spec_current() == old(self).spec_current(),
    {
        self.options = options;
    }

    /// Searches `text` for the query and returns the matches, in reading
    /// order; the first match, if any, becomes current.
    pub fn search(&mut self, text: &str) -> (r: Vec<SearchMatch>)
        requires
            old(self).wf(),
            search_ok(old(self).spec_query(), old(self).spec_options(), text@),
        ensures
            final(self).wf(),
            final(self).spec_query() == old(self).spec_query(),
            final(self).spec_options() == old(self).spec_options(),
            final(self).searched(text@),
            ordered(final(self).spec_matches()),
            views(r@) == final(self).spec_matches(),
    {
        self.matches = Vec::new();
        self.current_match_index = None;
        if self.query.as_str().is_empty() {
            assert(self.spec_matches() =~= Seq::<MatchSpec>::empty());
            let r: Vec<SearchMatch> = Vec::new();
            assert(views(r@) =~= Seq::<MatchSpec>::empty());
            return r;
        }
        let ghost o = self.options;
        let ghost query = self.query@;
        let lines = text_lines(text);
        let ghost sl = spec_lines(text@);
        let n = lines.len();
        let lo: usize = if self.options.in_selection {
            match self.options.selection_start_line {
                Some(s) => s,
                None => 0,
            }
        } else {
            0
        };
        let e: usize = if self.options.in_selection {
            match self.options.selection_end_line {
                Some(x) => x,
                None => n,
            }
        } else {
            n
        };
        let hi = if e < n { e } else { n };
        let ww = self.options.whole_word;
        let mut found: Vec<SearchMatch> = Vec::new();
        assert(views(found@) =~= Seq::<MatchSpec>::empty());
        assert(lines@.len() == sl.len());
        if self.options.use_regex {
            let qc = chars_of(self.query.as_str());
            let pat = if self.options.case_sensitive {
                qc
            } else {
                let prefix = vec!['(', '?', 'i', ')'];
                concat_chars(&prefix, &qc)
            };
            assert(pat@ == regex_pattern(query, o));
            let pattern = string_from_chars(&pat);
            match regex_new(pattern.as_str()) {
                Ok(re) => {
                    let mut idx = lo;
                    while idx < hi
                        invariant
                            lines_view(lines@) == sl,
                            lines@.len() == sl.len(),
                            hi <= sl.len(),
                            lo <= idx,
                            idx <= hi || idx == lo,
                            o.use_regex,
                            ww == o.whole_word,
                            re.spec_pattern() == regex_pattern(query, o),
                            lo == first_line(o),
                            forall|i: int| lo <= i < hi ==> #[trigger] line_ok(sl[i], query, o),
                            views(found@) == matches_in_lines(sl, query, o, lo as int, idx as int),
                            ordered(views(found@)),
                            forall|i: int| 0 <= i < views(found@).len() ==> (#[trigger] views(found@)[i]).line < idx,
                        decreases hi - idx,
                    {
                        let line = &lines[idx];
                        assert(line@ == sl[idx as int]);
                        assert(line_ok(sl[idx as int], query, o));
                        let line_str = string_from_chars(line.as_slice());
                        let spans = regex_find_spans(&re, line_str.as_str());
                        let ghost before = views(found@);
                        push_regex_matches(&mut found, line.as_slice(), &spans, idx, ww);
                        proof {
                            lemma_regex_matches_line(line@, idx as int, spans@, ww, 0);
                            lemma_regex_matches_ordered(line@, idx as int, spans@, ww, 0);
                            lemma_ordered_append(before, regex_matches_from(line@, idx as int, spans@, ww, 0), idx as int);
                        }
                        idx += 1;
                    }
                },
                Err(_) => {},
            }
        } else {
            let q = if self.options.case_sensitive {
                chars_of(self.query.as_str())
            } else {
                let lq = to_lowercase(self.query.as_str());
                chars_of(lq.as_str())
            };
            let cs = self.options.case_sensitive;
            let mut idx = lo;
            while idx < hi
                invariant
                    lines_view(lines@) == sl,
                    lines@.len() == sl.len(),
                    hi <= sl.len(),
                    lo <= idx,
                    idx <= hi || idx == lo,
                    !o.use_regex,
                    ww == o.whole_word,
                    cs == o.case_sensitive,
                    q@ == folded(query, o),
                    lo == first_line(o),
                    forall|i: int| lo <= i < hi ==> #[trigger] line_ok(sl[i], query, o),
                    views(found@) == matches_in_lines(sl, query, o, lo as int, idx as int),
                    ordered(views(found@)),
                    forall|i: int| 0 <= i < views(found@).len() ==> (#[trigger] views(found@)[i]).line < idx,
                decreases hi - idx,
            {
                let line = &lines[idx];
                assert(line@ == sl[idx as int]);
                assert(line_ok(sl[idx as int], query, o));
                let ghost before = views(found@);
                if cs {
                    push_literal_matches(&mut found, line.as_slice(), line.as_slice(), q.as_slice(), idx, ww);
                } else {
                    let line_str = string_from_chars(line.as_slice());
                    let lower = to_lowercase(line_str.as_str());
                    let t = chars_of(lower.as_str());
                    push_literal_matches(&mut found, line.as_slice(), t.as_slice(), q.as_slice(), idx, ww);
                }
                proof {
                    lemma_literal_matches_from(line@, folded(line@, o), folded(query, o), idx as int, ww, 0);
                    lemma_ordered_append(before, literal_line_matches(line@, idx as int, query, o), idx as int);
                }
                idx += 1;
            }
        }
        self.matches = found;
        if self.matches.len() > 0 {
            self.current_match_index = Some(0);
        }
        copy_matches(&self.matches)
    }

    /// Whether a search of `text` can run to its end (see `search_ok`).
    pub fn can_search(&self, text: &str) -> (r: bool)
        ensures
            r == search_ok(self.spec_query(), self.spec_options(), text@),
    {
        if self.query.as_str().is_empty() {
            return true;
        }
        let ghost o = self.options;
        let ghost query = self.query@;
        let lines = text_lines(text);
        let ghost sl = spec_lines(text@);
        let n = lines.len();
        let lo: usize = if self.options.in_selection {
            match self.options.selection_start_line {
                Some(s) => s,
                None => 0,
            }
        } else {
            0
        };
        let e: usize = if self.options.in_selection {
            match self.options.selection_end_line {
                Some(x) => x,
                None => n,
            }
        } else {
            n
        };
        let hi = if e < n { e } else { n };
        let ww = self.options.whole_word;
        assert(lines@.len() == sl.len());
        if self.options.use_regex {
            let qc = chars_of(self.query.as_str());
            let pat = if self.options.case_sensitive {
                qc
            } else {
                let prefix = vec!['(', '?', 'i', ')'];
                concat_chars(&prefix, &qc)
            };
            assert(pat@ == regex_pattern(query, o));
            let pattern = string_from_chars(&pat);
            match regex_new(pattern.as_str()) {
                Ok(re) => {
                    if lo > e {
                        return false;
                    }
                    let mut idx = lo;
                    while idx < hi
                        invariant
                            lines_view(lines@) == sl,
                            lines@.len() == sl.len(),
                            hi <= sl.len(),
                            lo <= idx,
                            o.use_regex,
                            ww == o.whole_word,
                            re.spec_pattern() == regex_pattern(query, o),
                            spec_regex_valid(regex_pattern(query, o)),
                            query.len() > 0,
                            query == self.query@,
                            o == self.options,
                            sl == spec_lines(text@),
                            lo == first_line(o),
                            hi == (if end_line(o, sl.len() as int) < sl.len() { end_line(o, sl.len() as int) } else { sl.len() as int }),
                            forall|i: int| lo <= i < idx ==> #[trigger] line_ok(sl[i], query, o),
                        decreases hi - idx,
                    {
                        let line = &lines[idx];
                        assert(line@ == sl[idx as int]);
                        let line_str = string_from_chars(line.as_slice());
                        let spans = regex_find_spans(&re, line_str.as_str());
                        if !regex_line_ok_exec(line.as_slice(), &spans, ww) {
                            assert(!line_ok(sl[idx as int], query, o));
                            return false;
                        }
                        idx += 1;
                    }
                    true
                },
                Err(_) => true,
            }
        } else {
            if lo > e {
                return false;
            }
            let q = if self.options.case_sensitive {
                chars_of(self.query.as_str())
            } else {
                let lq = to_lowercase(self.query.as_str());
                chars_of(lq.as_str())
            };
            let cs = self.options.case_sensitive;
            let mut idx = lo;
            while idx < hi
                invariant
                    lines_view(lines@) == sl,
                    lines@.len() == sl.len(),
                    hi <= sl.len(),
                    lo <= idx,
                    !o.use_regex,
                    ww == o.whole_word,
                    cs == o.case_sensitive,
                    q@ == folded(query, o),
                    query.len() > 0,
                    query == self.query@,
                    o == self.options,
                    sl == spec_lines(text@),
                    lo == first_line(o),
                    hi == (if end_line(o, sl.len() as int) < sl.len() { end_line(o, sl.len() as int) } else { sl.len() as int }),
                    forall|i: int| lo <= i < idx ==> #[trigger] line_ok(sl[i], query, o),
                decreases hi - idx,
            {
                let line = &lines[idx];
                assert(line@ == sl[idx as int]);
                let ok = if cs {
                    literal_line_ok_exec(line.as_slice(), line.as_slice(), q.as_slice(), ww)
                } else {
                    let line_str = string_from_chars(line.as_slice());
                    let lower = to_lowercase(line_str.as_str());
                    let t = chars_of(lower.as_str());
                    literal_line_ok_exec(line.as_slice(), t.as_slice(), q.as_slice(), ww)
                };
                if !ok {
                    assert(!line_ok(sl[idx as int], query, o));
                    return false;
                }
                idx += 1;
            }
            true
        }
    }

    /// Searches `text` when the search can run to its end, as `search`
    /// does; otherwise returns `None` and changes nothing.
    pub fn search_if_ok(&mut self, text: &str) -> (r: Option<Vec<SearchMatch>>)
        requires
            old(self).wf(),
        ensures
            final(self).wf(),
            final(self).spec_query() == old(self).spec_query(),
            final(self).spec_options() == old(self).spec_options(),
            match r {
                Some(v) => search_ok(old(self).spec_query(), old(self).spec_options(), text@)
                    && final(self).searched(text@) && ordered(final(self).spec_matches())
                    && views(v@) == final(self).spec_matches(),
                None => !search_ok(old(self).spec_query(), old(self).spec_options(), text@)
                    && final(self).spec_matches() == old(self).spec_matches()
                    && final(self).spec_current() == old(self).spec_current(),
            },
    {
        if self.can_search(text) {
            Some(self.search(text))
        } else {
            None
        }
    }

    /// Moves to the next match, wrapping around, and returns it; `None`
    /// when there are no matches or no current match.
    pub fn find_next(&mut self) -> (r: Option<SearchMatch>)
        requires
            old(self).wf(),
        ensures
            final(self).wf(),
            final(self).spec_query() == old(self).spec_query(),
            final(self).spec_options() == old(self).spec_options(),
            final(self).spec_matches() == old(self).spec_matches(),
            match old(self).spec_current() {
                Some(c) if old(self).spec_matches().len() > 0 => {
                    let next = next_index(old(self).spec_matches().len(), c);
                    &&& final(self).spec_current() == Some(next)
                    &&& r matches Some(m) && m@ == old(self).spec_matches()[next as int]
                },
                _ => r is None && final(self).spec_current() == old(self).spec_current(),
            },
    {
        if self.matches.len() == 0 {
            return None;
        }
        let current = match self.current_match_index {
            Some(c) => c,
            None => return None,
        };
        let next = (current + 1) % self.matches.len();
        self.current_match_index = Some(next);
        Some(self.matches[next].duplicate())
    }

    /// Moves to the previous match, wrapping around, and returns it; `None`
    /// when there are no matches or no current match.
    pub fn find_previous(&mut self) -> (r: Option<SearchMatch>)
        requires
            old(self).wf(),
        ensures
            final(self).wf(),
            final(self).spec_query() == old(self).spec_query(),
            final(self).spec_options() == old(self).spec_options(),
            final(self).spec_matches() == old(self).spec_matches(),
            match old(self).spec_current() {
                Some(c) if old(self).spec_matches().len() > 0 => {
                    let prev = prev_index(old(self).spec_matches().len(), c);
                    &&& final(self).spec_current() == Some(prev)
                    &&& r matches Some(m) && m@ == old(self).spec_matches()[prev as int]
                },
                _ => r is None && final(self).spec_current() == old(self).spec_current(),
            },
    {
        if self.matches.len() == 0 {
            return None;
        }
        let current = match self.current_match_index {
            Some(c) => c,
            None => return None,
        };
        let prev = if current == 0 { self.matches.len() - 1 } else { current - 1 };
        self.current_match_index = Some(prev);
        Some(self.matches[prev].duplicate())
    }

    /// The current match, if any.
    pub fn get_current_match(&self) -> (r: Option<SearchMatch>)
        requires
            self.wf(),
        ensures
            match self.spec_current() {
                Some(i) => r matches Some(m) && m@ == self.spec_matches()[i as int],
                None => r is None,
            },
    {
        match self.current_match_index {
            Some(i) => Some(self.matches[i].duplicate()),
            None => None,
        }
    }

    pub fn get_matches(&self) -> (r: &[SearchMatch])
        ensures
            views(r@) == self.spec_matches(),
    {
        self.matches.as_slice()
    }

    pub fn match_count(&self) -> (r: usize)
        ensures
            r == self.spec_matches().len(),
    {
        self.matches.len()
    }

    pub fn current_match_index(&self) -> (r: Option<usize>)
        ensures
            r == self.spec_current(),
    {
        self.current_match_index
    }

    /// Replaces the current match in `text` and searches the new text
    /// again. Returns false, changing nothing, when there is no current
    /// match or its line is not in the text.
    pub fn replace_current(&mut self, text: &mut String, replacement: &str) -> (r: bool)
        requires
            old(self).wf(),
            old(self).replace_current_ok(old(text)@, replacement@),
        ensures
            final(self).wf(),
            final(self).spec_query() == old(self).spec_query(),
            final(self).spec_options() == old(self).spec_options(),
            match old(self).replaced_current(old(text)@, replacement@) {
                None => !r && final(text)@ == old(text)@ && final(self).spec_matches() == old(self).spec_matches()
                    && final(self).spec_current() == old(self).spec_current(),
                Some(t2) => r && final(text)@ == t2 && final(self).searched(t2),
            },
    {
        let current = match self.current_match_index {
            Some(c) => c,
            None => return false,
        };
        let m_line = self.matches[current].line;
        let m_start = self.matches[current].start_col;
        let m_end = self.matches[current].end_col;
        let mut lines = text_lines(text.as_str());
        if m_line >= lines.len() {
            return false;
        }
        let repl = chars_of(replacement);
        let ghost lv0 = lines_view(lines@);
        assert(lines@[m_line as int]@ == lv0[m_line as int]);
        let new_line = replace_bytes_exec(lines[m_line].as_slice(), m_start, m_end, repl.as_slice());
        lines.set(m_line, new_line);
        assert(lines_view(lines@) =~= lv0.update(m_line as int, replace_bytes(lv0[m_line as int], m_start as int, m_end as int, replacement@)));
        let joined = join_chars(&lines);
        *text = string_from_chars(joined.as_slice());
        self.search(text.as_str());
        true
    }

    /// Replaces every match in `text`, the last one first, and searches the
    /// new text again. Returns the number of matches replaced (a match whose
    /// line is not in the text is counted, and skipped); with no matches,
    /// returns 0 and changes nothing.
    pub fn replace_all(&mut self, text: &mut String, replacement: &str) -> (r: usize)
        requires
            old(self).wf(),
            old(self).replace_all_ok(old(text)@, replacement@),
        ensures
            final(self).wf(),
            final(self).spec_query() == old(self).spec_query(),
            final(self).spec_options() == old(self).spec_options(),
            old(self).spec_matches().len() == 0 ==> r == 0 && final(text)@ == old(text)@
                && final(self).spec_matches() == old(self).spec_matches()
                && final(self).spec_current() == old(self).spec_current(),
            old(self).spec_matches().len() > 0 ==> r == old(self).spec_matches().len()
                && Some(final(text)@) == old(self).replaced_all(old(text)@, replacement@)
                && final(self).searched(final(text)@),
    {
        let count = self.matches.len();
        if count == 0 {
            return 0;
        }
        let ghost ms = self.spec_matches();
        let repl = chars_of(replacement);
        let mut lines = text_lines(text.as_str());
        let ghost lv0 = lines_view(lines@);
        let mut k = count;
        assert(ms.take(count as int) =~= ms);
        while k > 0
            invariant
                k <= count,
                count == ms.len(),
                ms == self.spec_matches(),
                self.wf(),
                repl@ == replacement@,
                replace_matches(lv0, ms, replacement@) == replace_matches(lines_view(lines@), ms.take(k as int), replacement@),
                replace_matches(lv0, ms, replacement@) is Some,
            decreases k,
        {
            let ghost cur = lines_view(lines@);
            let ghost mk = ms.take(k as int);
            assert(mk.last() == ms[k - 1]);
            assert(mk.drop_last() =~= ms.take(k - 1));
            let m_line = self.matches[k - 1].line;
            let m_start = self.matches[k - 1].start_col;
            let m_end = self.matches[k - 1].end_col;
            assert(ms[k - 1] == self.matches@[k - 1]@);
            if m_line < lines.len() {
                assert(lines@[m_line as int]@ == cur[m_line as int]);
                let new_line = replace_bytes_exec(lines[m_line].as_slice(), m_start, m_end, repl.as_slice());
                lines.set(m_line, new_line);
                assert(lines_view(lines@) =~= cur.update(m_line as int, replace_bytes(cur[m_line as int], m_start as int, m_end as int, replacement@)));
            }
            k -= 1;
        }
        assert(ms.take(0) =~= Seq::<MatchSpec>::empty());
        let joined = join_chars(&lines);
        *text = string_from_chars(joined.as_slice());
        self.search(text.as_str());
        count
    }
}

impl SearchEngine {
    /// Whether `replace_current` can replace in `text` and search again
    /// (see `replace_current_ok`).
    pub fn replace_current_allowed(&self, text: &str, replacement: &str) -> (r: bool)
        requires
            self.wf(),
        ensures
            r == self.replace_current_ok(text@, replacement@),
    {
        let current = match self.current_match_index {
            Some(c) => c,
            None => return true,
        };
        let m_line = self.matches[current].line;
        let m_start = self.matches[current].start_col;
        let m_end = self.matches[current].end_col;
        let mut lines = text_lines(text);
        if m_line >= lines.len() {
            return true;
        }
        let ghost lv0 = lines_view(lines@);
        assert(lines@[m_line as int]@ == lv0[m_line as int]);
        if m_start > m_end || !is_boundary_exec(lines[m_line].as_slice(), m_start)
            || !is_boundary_exec(lines[m_line].as_slice(), m_end) {
            return false;
        }
        let repl = chars_of(replacement);
        let new_line = replace_bytes_exec(lines[m_line].as_slice(), m_start, m_end, repl.as_slice());
        lines.set(m_line, new_line);
        assert(lines_view(lines@) =~= lv0.update(m_line as int, replace_bytes(lv0[m_line as int], m_start as int, m_end as int, replacement@)));
        let joined = join_chars(&lines);
        let t2 = string_from_chars(joined.as_slice());
        self.can_search(t2.as_str())
    }

    /// Replaces the current match as `replace_current` does when that can
    /// run to its end; otherwise returns `None` and changes nothing.
    pub fn replace_current_if_ok(&mut self, text: &mut String, replacement: &str) -> (r: Option<bool>)
        requires
            old(self).wf(),
        ensures
            final(self).wf(),
            final(self).spec_query() == old(self).spec_query(),
            final(self).spec_options() == old(self).spec_options(),
            match r {
                None => !old(self).replace_current_ok(old(text)@, replacement@) && final(text)@ == old(text)@
                    && final(self).spec_matches() == old(self).spec_matches()
                    && final(self).spec_current() == old(self).spec_current(),
                Some(b) => old(self).replace_current_ok(old(text)@, replacement@)
                    && match old(self).replaced_current(old(text)@, replacement@) {
                        None => !b && final(text)@ == old(text)@ && final(self).spec_matches() == old(self).spec_matches()
                            && final(self).spec_current() == old(self).spec_current(),
                        Some(t2) => b && final(text)@ == t2 && final(self).searched(t2),
                    },
            },
    {
        if self.replace_current_allowed(text.as_str(), replacement) {
            Some(self.replace_current(text, replacement))
        } else {
            None
        }
    }

    /// Whether `replace_all` can replace in `text` and search again (see
    /// `replace_all_ok`).
    pub fn replace_all_allowed(&self, text: &str, replacement: &str) -> (r: bool)
        requires
            self.wf(),
        ensures
            r == self.replace_all_ok(text@, replacement@),
    {
        let count = self.matches.len();
        if count == 0 {
            return true;
        }
        let ghost ms = self.spec_matches();
        let repl = chars_of(replacement);
        let mut lines = text_lines(text);
        let ghost lv0 = lines_view(lines@);
        let mut k = count;
        assert(ms.take(count as int) =~= ms);
        while k > 0
            invariant
                k <= count,
                count == ms.len(),
                ms == self.spec_matches(),
                self.wf(),
                repl@ == replacement@,
                lv0 == spec_lines(text@),
                count > 0,
                replace_matches(lv0, ms, replacement@) == replace_matches(lines_view(lines@), ms.take(k as int), replacement@),
            decreases k,
        {
            let ghost cur = lines_view(lines@);
            let ghost mk = ms.take(k as int);
            assert(mk.last() == ms[k - 1]);
            assert(mk.drop_last() =~= ms.take(k - 1));
            let m_line = self.matches[k - 1].line;
            let m_start = self.matches[k - 1].start_col;
            let m_end = self.matches[k - 1].end_col;
            assert(ms[k - 1] == self.matches@[k - 1]@);
            if m_line < lines.len() {
                assert(lines@[m_line as int]@ == cur[m_line as int]);
                if m_start > m_end || !is_boundary_exec(lines[m_line].as_slice(), m_start)
                    || !is_boundary_exec(lines[m_line].as_slice(), m_end) {
                    assert(replace_matches(cur, mk, replacement@) is None);
                    return false;
                }
                let new_line = replace_bytes_exec(lines[m_line].as_slice(), m_start, m_end, repl.as_slice());
                lines.set(m_line, new_line);
                assert(lines_view(lines@) =~= cur.update(m_line as int, replace_bytes(cur[m_line as int], m_start as int, m_end as int, replacement@)));
            }
            k -= 1;
        }
        assert(ms.take(0) =~= Seq::<MatchSpec>::empty());
        let joined = join_chars(&lines);
        let t2 = string_from_chars(joined.as_slice());
        self.can_search(t2.as_str())
    }

    /// Replaces every match as `replace_all` does when that can run to its
    /// end; otherwise returns `None` and changes nothing.
    pub fn replace_all_if_ok(&mut self, text: &mut String, replacement: &str) -> (r: Option<usize>)
        requires
            old(self).wf(),
        ensures
            final(self).wf(),
            final(self).spec_query() == old(self).spec_query(),
            final(self).spec_options() == old(self).spec_options(),
            match r {
                None => !old(self).replace_all_ok(old(text)@, replacement@) && final(text)@ == old(text)@
                    && final(self).spec_matches() == old(self).spec_matches()
                    && final(self).spec_current() == old(self).spec_current(),
                Some(n) => old(self).replace_all_ok(old(text)@, replacement@)
                    && (old(self).spec_matches().len() == 0 ==> n == 0 && final(text)@ == old(text)@
                        && final(self).spec_matches() == old(self).spec_matches()
                        && final(self).spec_current() == old(self).spec_current())
                    && (old(self).spec_matches().len() > 0 ==> n == old(self).spec_matches().len()
                        && Some(final(text)@) == old(self).replaced_all(old(text)@, replacement@)
                        && final(self).searched(final(text)@)),
            },
    {
        if self.replace_all_allowed(text.as_str(), replacement) {
            Some(self.replace_all(text, replacement))
        } else {
            None
        }
    }
}

impl Default for SearchEngine {
    fn default() -> (r: Self)
        ensures
            r.wf(),
            r.spec_query() == Seq::<char>::empty(),
            r.spec_options() == SearchOptions::spec_default(),
            r.spec_matches() == Seq::<MatchSpec>::empty(),
            r.spec_current() == None::<usize>,
    {
        Self::new()
    }
}

} // verus!
