//! Completion and hover helpers: when to ask for completions, which
//! completions fit what was typed, in what order to offer them, and the
//! word under the cursor.

use vstd::prelude::*;
use crate::lsp::{CompletionItem, Position};
use crate::text::{
    chars_of, contains_chars, contains_seq, is_alphanumeric, spec_is_alphanumeric, spec_lines,
    spec_to_lowercase, split_lines, starts_with, starts_with_chars, chars_eq, to_lowercase,
};

verus! {

broadcast use vstd::string::group_string_axioms;

/// Whether to ask for completions: after `.` or `:`, or once the text has
/// at least two bytes.
pub fn should_trigger_completion(text: &str, cursor_char: char) -> (r: bool)
    ensures
        r == (cursor_char == '.' || cursor_char == ':' || text.len() >= 2),
{
    cursor_char == '.' || cursor_char == ':' || text.len() >= 2
}

/// Whether a character belongs to a word: alphanumeric or `_`.
pub open spec fn word_char(c: char) -> bool {
    spec_is_alphanumeric(c) || c == '_'
}

/// Whether a character belongs to a word.
pub fn is_word_char(c: char) -> (r: bool)
    ensures
        r == word_char(c),
{
    is_alphanumeric(c) || c == '_'
}

/// Whether a completion fits the typed text `pl` (in lower case): its
/// label, or its insert text, contains it, ignoring case.
pub open spec fn completion_fits(item: CompletionItem, pl: Seq<char>) -> bool {
    contains_seq(spec_to_lowercase(item.label@), pl) || match item.insert_text {
        Some(t) => contains_seq(spec_to_lowercase(t@), pl),
        None => false,
    }
}

/// The completions that fit `pl`, in their order.
pub open spec fn fitting(items: Seq<CompletionItem>, pl: Seq<char>) -> Seq<CompletionItem>
    decreases items.len(),
{
    if items.len() == 0 {
        Seq::empty()
    } else {
        let rest = fitting(items.drop_last(), pl);
        if completion_fits(items.last(), pl) {
            rest.push(items.last())
        } else {
            rest
        }
    }
}

/// The completions whose label or insert text contains `partial`, ignoring
/// case, in their order; all of them when `partial` is empty.
pub fn filter_completions(items: Vec<CompletionItem>, partial: &str) -> (r: Vec<CompletionItem>)
    ensures
        partial@.len() == 0 ==> r@ == items@,
        partial@.len() > 0 ==> r@ == fitting(items@, spec_to_lowercase(partial@)),
{
    if partial.is_empty() {
        return items;
    }
    let pl = to_lowercase(partial);
    let plc = chars_of(pl.as_str());
    let ghost all = items@;
    let mut out: Vec<CompletionItem> = Vec::new();
    let mut k: usize = 0;
    let n = items.len();
    for item in it: items
        invariant
            it.seq() == all,
            plc@ == spec_to_lowercase(partial@),
            out@ == fitting(all.take(it.index() as int), plc@),
    {
        let ghost idx = it.index();
        let lab = to_lowercase(item.label.as_str());
        let labc = chars_of(lab.as_str());
        let mut fits = contains_chars(labc.as_slice(), plc.as_slice());
        if !fits {
            match &item.insert_text {
                Some(t) => {
                    let tl = to_lowercase(t.as_str());
                    let tlc = chars_of(tl.as_str());
                    fits = contains_chars(tlc.as_slice(), plc.as_slice());
                },
                None => {},
            }
        }
        assert(fits == completion_fits(item, plc@));
        assert(all.take(idx + 1).drop_last() =~= all.take(idx));
        assert(all.take(idx + 1).last() == item);
        if fits {
            out.push(item);
        }
    }
    assert(all.take(all.len() as int) =~= all);
    out
}

// ---------------------------------------------------------------------
// Ordering by relevance
// ---------------------------------------------------------------------

/// How well a completion fits `pl`: 0 when its label is `pl` (ignoring
/// case), 1 when the label starts with it, else 2.
pub open spec fn relevance(item: CompletionItem, pl: Seq<char>) -> int {
    let l = spec_to_lowercase(item.label@);
    if l == pl {
        0
    } else if starts_with(l, pl) {
        1
    } else {
        2
    }
}

/// Lexicographic order of strings, by character code.
pub open spec fn lex_le(a: Seq<char>, b: Seq<char>) -> bool
    decreases a.len(),
{
    if a.len() == 0 {
        true
    } else if b.len() == 0 {
        false
    } else if a[0] != b[0] {
        a[0] < b[0]
    } else {
        lex_le(a.drop_first(), b.drop_first())
    }
}

/// Whether `a` may come before `b`: more relevant first, then by label.
pub open spec fn comes_before(a: CompletionItem, b: CompletionItem, pl: Seq<char>) -> bool {
    relevance(a, pl) < relevance(b, pl) || (relevance(a, pl) == relevance(b, pl) && lex_le(a.label@, b.label@))
}

/// `x` inserted into `s` after every item that may come before it.
pub open spec fn insert_by_relevance(s: Seq<CompletionItem>, x: CompletionItem, pl: Seq<char>) -> Seq<CompletionItem>
    decreases s.len(),
{
    if s.len() == 0 {
        seq![x]
    } else if comes_before(s.last(), x, pl) {
        s.push(x)
    } else {
        insert_by_relevance(s.drop_last(), x, pl).push(s.last())
    }
}

/// The completions stably sorted by relevance, then label.
pub open spec fn sort_by_relevance(s: Seq<CompletionItem>, pl: Seq<char>) -> Seq<CompletionItem>
    decreases s.len(),
{
    if s.len() == 0 {
        Seq::empty()
    } else {
        insert_by_relevance(sort_by_relevance(s.drop_last(), pl), s.last(), pl)
    }
}

/// Whether a sequence is in relevance order.
pub open spec fn sorted_by_relevance(s: Seq<CompletionItem>, pl: Seq<char>) -> bool {
    forall|i: int, j: int| 0 <= i < j < s.len() ==> comes_before(#[trigger] s[i], #[trigger] s[j], pl)
}

proof fn lemma_lex_total(a: Seq<char>, b: Seq<char>)
    ensures
        lex_le(a, b) || lex_le(b, a),
    decreases a.len(),
{
    if a.len() > 0 && b.len() > 0 && a[0] == b[0] {
        lemma_lex_total(a.drop_first(), b.drop_first());
    }
}

proof fn lemma_lex_trans(a: Seq<char>, b: Seq<char>, c: Seq<char>)
    requires
        lex_le(a, b),
        lex_le(b, c),
    ensures
        lex_le(a, c),
    decreases a.len(),
{
    if a.len() > 0 && b.len() > 0 && c.len() > 0 && a[0] == b[0] && b[0] == c[0] {
        lemma_lex_trans(a.drop_first(), b.drop_first(), c.drop_first());
    }
}

proof fn lemma_comes_before_total(a: CompletionItem, b: CompletionItem, pl: Seq<char>)
    ensures
        comes_before(a, b, pl) || comes_before(b, a, pl),
{
    lemma_lex_total(a.label@, b.label@);
}

proof fn lemma_comes_before_trans(a: CompletionItem, b: CompletionItem, c: CompletionItem, pl: Seq<char>)
    requires
        comes_before(a, b, pl),
        comes_before(b, c, pl),
    ensures
        comes_before(a, c, pl),
{
    if relevance(a, pl) == relevance(b, pl) && relevance(b, pl) == relevance(c, pl) {
        lemma_lex_trans(a.label@, b.label@, c.label@);
    }
}

proof fn lemma_insert_by_relevance(s: Seq<CompletionItem>, x: CompletionItem, pl: Seq<char>)
    requires
        sorted_by_relevance(s, pl),
    ensures
        sorted_by_relevance(insert_by_relevance(s, x, pl), pl),
        insert_by_relevance(s, x, pl).to_multiset() == s.to_multiset().insert(x),
        insert_by_relevance(s, x, pl).len() == s.len() + 1,
        forall|i: int| 0 <= i < s.len() + 1 ==>
            (#[trigger] insert_by_relevance(s, x, pl)[i] == x || s.contains(insert_by_relevance(s, x, pl)[i])),
    decreases s.len(),
{
    broadcast use vstd::multiset::group_multiset_axioms;
    if s.len() == 0 {
        broadcast use vstd::seq_lib::group_seq_properties;
        assert(seq![x] == s.push(x));
    } else if comes_before(s.last(), x, pl) {
        broadcast use vstd::seq_lib::group_seq_properties;
        assert forall|i: int, j: int| 0 <= i < j < s.len() + 1 implies comes_before(#[trigger] s.push(x)[i], #[trigger] s.push(x)[j], pl) by {
            if j == s.len() && i < s.len() - 1 {
                lemma_comes_before_trans(s[i], s.last(), x, pl);
            }
        }
        assert forall|i: int| 0 <= i < s.len() + 1 implies #[trigger] s.push(x)[i] == x || s.contains(s.push(x)[i]) by {
            if i < s.len() {
                assert(s.contains(s[i]));
            }
        }
    } else {
        let d = s.drop_last();
        let y = s.last();
        assert(sorted_by_relevance(d, pl));
        lemma_insert_by_relevance(d, x, pl);
        let r = insert_by_relevance(d, x, pl);
        lemma_comes_before_total(y, x, pl);
        broadcast use vstd::seq_lib::group_seq_properties;
        assert(s == d.push(y));
        assert forall|i: int, j: int| 0 <= i < j < r.len() + 1 implies comes_before(#[trigger] r.push(y)[i], #[trigger] r.push(y)[j], pl) by {
            if j == r.len() {
                assert(r[i] == x || d.contains(r[i]));
                if r[i] != x {
                    let k = choose|k: int| 0 <= k < d.len() && d[k] == r[i];
                    assert(s[k] == d[k]);
                    assert(comes_before(s[k], s[s.len() - 1], pl));
                }
            }
        }
        assert forall|i: int| 0 <= i < r.len() + 1 implies #[trigger] r.push(y)[i] == x || s.contains(r.push(y)[i]) by {
            if i < r.len() {
                if r[i] != x {
                    let k = choose|k: int| 0 <= k < d.len() && d[k] == r[i];
                    assert(s[k] == d[k]);
                }
            } else {
                assert(s[s.len() - 1] == y);
            }
        }
        assert(s.to_multiset() == d.to_multiset().insert(y));
        assert(r.push(y).to_multiset() == r.to_multiset().insert(y));
        assert(r.push(y).to_multiset() =~= s.to_multiset().insert(x));
    }
}

/// Sorting by relevance keeps every completion, each as often as before,
/// and puts exact matches of the typed text first, then those it starts,
/// then the rest, each group by label.
pub proof fn lemma_sort_by_relevance(s: Seq<CompletionItem>, pl: Seq<char>)
    ensures
        sorted_by_relevance(sort_by_relevance(s, pl), pl),
        sort_by_relevance(s, pl).len() == s.len(),
        sort_by_relevance(s, pl).to_multiset() == s.to_multiset(),
    decreases s.len(),
{
    broadcast use vstd::multiset::group_multiset_axioms;
    if s.len() > 0 {
        lemma_sort_by_relevance(s.drop_last(), pl);
        lemma_insert_by_relevance(sort_by_relevance(s.drop_last(), pl), s.last(), pl);
        broadcast use vstd::seq_lib::group_seq_properties;
        assert(s == s.drop_last().push(s.last()));
    } else {
        broadcast use vstd::seq_lib::group_seq_properties;
    }
}

/// Whether `a` precedes `b` in lexicographic order.
fn lex_le_exec(a: &[char], b: &[char]) -> (r: bool)
    ensures
        r == lex_le(a@, b@),
{
    let mut i: usize = 0;
    assert(a@.skip(0) =~= a@ && b@.skip(0) =~= b@);
    while i < a.len() && i < b.len() && a[i] == b[i]
        invariant
            i <= a@.len(),
            i <= b@.len(),
            lex_le(a@, b@) == lex_le(a@.skip(i as int), b@.skip(i as int)),
        decreases a@.len() - i,
    {
        assert(a@.skip(i as int).drop_first() =~= a@.skip(i + 1));
        assert(b@.skip(i as int).drop_first() =~= b@.skip(i + 1));
        i += 1;
    }
    if i == a.len() {
        true
    } else if i == b.len() {
        false
    } else {
        a[i] < b[i]
    }
}

/// How well a completion fits the lower-case typed text `plc`.
fn relevance_exec(item: &CompletionItem, plc: &[char]) -> (r: u8)
    ensures
        r == relevance(*item, plc@),
{
    let l = to_lowercase(item.label.as_str());
    let lc = chars_of(l.as_str());
    if chars_eq(lc.as_slice(), plc) {
        0
    } else if starts_with_chars(lc.as_slice(), plc) {
        1
    } else {
        2
    }
}

fn comes_before_exec(a: &CompletionItem, b: &CompletionItem, plc: &[char]) -> (r: bool)
    ensures
        r == comes_before(*a, *b, plc@),
{
    let ra = relevance_exec(a, plc);
    let rb = relevance_exec(b, plc);
    if ra != rb {
        return ra < rb;
    }
    let la = chars_of(a.label.as_str());
    let lb = chars_of(b.label.as_str());
    lex_le_exec(la.as_slice(), lb.as_slice())
}

fn insert_completion(s: Vec<CompletionItem>, x: CompletionItem, plc: &[char]) -> (r: Vec<CompletionItem>)
    ensures
        r@ == insert_by_relevance(s@, x, plc@),
{
    let mut s = s;
    let ghost s0 = s@;
    let mut k = s.len();
    assert(s0.take(k as int) =~= s0);
    assert(s0.skip(k as int) =~= Seq::<CompletionItem>::empty());
    while k > 0 && !comes_before_exec(&s[k - 1], &x, plc)
        invariant
            s@ == s0,
            k <= s0.len(),
            insert_by_relevance(s0, x, plc@) == insert_by_relevance(s0.take(k as int), x, plc@) + s0.skip(k as int),
        decreases k,
    {
        assert(s0.take(k as int).drop_last() =~= s0.take(k - 1));
        assert(s0.take(k as int).last() == s0[k - 1]);
        assert(s0.skip(k - 1) =~= seq![s0[k - 1]] + s0.skip(k as int));
        assert(insert_by_relevance(s0.take(k as int), x, plc@) == insert_by_relevance(s0.take(k - 1), x, plc@).push(s0[k - 1]));
        assert(insert_by_relevance(s0.take(k - 1), x, plc@).push(s0[k - 1]) + s0.skip(k as int)
            =~= insert_by_relevance(s0.take(k - 1), x, plc@) + s0.skip(k - 1));
        k -= 1;
    }
    proof {
        if k > 0 {
            assert(s0.take(k as int).last() == s0[k - 1]);
        }
    }
    s.insert(k, x);
    assert(s@ =~= insert_by_relevance(s0.take(k as int), x, plc@) + s0.skip(k as int));
    s
}

/// The completions ordered by relevance to `partial` (ignoring case):
/// exact matches of the label first, then labels it starts, then the rest;
/// each group by label, and items that tie keep their order.
pub fn sort_completions_by_relevance(items: Vec<CompletionItem>, partial: &str) -> (r: Vec<CompletionItem>)
    ensures
        r@ == sort_by_relevance(items@, spec_to_lowercase(partial@)),
{
    let pl = to_lowercase(partial);
    let plc = chars_of(pl.as_str());
    let ghost all = items@;
    let mut res: Vec<CompletionItem> = Vec::new();
    for item in it: items
        invariant
            it.seq() == all,
            plc@ == spec_to_lowercase(partial@),
            res@ == sort_by_relevance(all.take(it.index() as int), plc@),
    {
        let ghost idx = it.index();
        assert(all.take(idx + 1).drop_last() =~= all.take(idx));
        assert(all.take(idx + 1).last() == item);
        res = insert_completion(res, item, plc.as_slice());
    }
    assert(all.take(all.len() as int) =~= all);
    res
}

// ---------------------------------------------------------------------
// The word under the cursor
// ---------------------------------------------------------------------

/// Where the word around column `c` of a line starts.
pub open spec fn word_start(line: Seq<char>, c: int) -> int
    decreases c,
{
    if c > 0 && c <= line.len() && word_char(line[c - 1]) {
        word_start(line, c - 1)
    } else {
        c
    }
}

/// Where the word around column `c` of a line ends.
pub open spec fn word_end(line: Seq<char>, c: int) -> int
    decreases line.len() - c,
{
    if 0 <= c < line.len() && word_char(line[c]) {
        word_end(line, c + 1)
    } else {
        c
    }
}

/// The word at a position of a text: the longest run of word characters
/// around the character at the position; `None` when the text has no such
/// line or character, or the run is empty.
pub open spec fn word_at(text: Seq<char>, line: int, character: int) -> Option<Seq<char>> {
    let lines = spec_lines(text);
    if line >= lines.len() || character >= lines[line].len() {
        None
    } else {
        let l = lines[line];
        let s = word_start(l, character);
        let e = word_end(l, character);
        if s == e {
            None
        } else {
            Some(l.subrange(s, e))
        }
    }
}

proof fn lemma_word_start_bounds(line: Seq<char>, c: int)
    requires
        0 <= c <= line.len(),
    ensures
        0 <= word_start(line, c) <= c,
    decreases c,
{
    if c > 0 && word_char(line[c - 1]) {
        lemma_word_start_bounds(line, c - 1);
    }
}

proof fn lemma_word_end_bounds(line: Seq<char>, c: int)
    requires
        0 <= c <= line.len(),
    ensures
        c <= word_end(line, c) <= line.len(),
    decreases line.len() - c,
{
    if c < line.len() && word_char(line[c]) {
        lemma_word_end_bounds(line, c + 1);
    }
}

/// The word at `position` in `text`, for hover.
pub fn get_word_at_position(text: &str, position: Position) -> (r: Option<String>)
    ensures
        match word_at(text@, position.line as int, position.character as int) {
            Some(w) => r matches Some(s) && s@ == w,
            None => r is None,
        },
{
    let tc = chars_of(text);
    let lines = split_lines(tc.as_slice());
    let li = position.line as usize;
    if li >= lines.len() {
        return None;
    }
    let chars = &lines[li];
    let c = position.character as usize;
    if c >= chars.len() {
        return None;
    }
    let ghost l = chars@;
    assert(l == spec_lines(text@)[li as int]);
    let mut start = c;
    let mut end = c;
    while start > 0 && is_word_char(chars[start - 1])
        invariant
            start <= c < l.len(),
            l == chars@,
            word_start(l, c as int) == word_start(l, start as int),
        decreases start,
    {
        start -= 1;
    }
    while end < chars.len() && is_word_char(chars[end])
        invariant
            c <= end <= l.len(),
            l == chars@,
            word_end(l, c as int) == word_end(l, end as int),
        decreases l.len() - end,
    {
        end += 1;
    }
    if start == end {
        return None;
    }
    let mut out = String::new();
    let mut k = start;
    while k < end
        invariant
            start <= k <= end,
            end <= l.len(),
            l == chars@,
            out@ == l.subrange(start as int, k as int),
        decreases end - k,
    {
        crate::text::push_char(&mut out, chars[k]);
        k += 1;
        assert(l.subrange(start as int, k as int) =~= l.subrange(start as int, k - 1).push(l[k - 1]));
    }
    Some(out)
}

} // verus!
