//! Text helpers shared by the editor modules: character access, line
//! splitting in the manner of `str::lines`, Unicode character classes and
//! case mapping, and string building.

use vstd::prelude::*;

verus! {

broadcast use vstd::string::group_string_axioms;

/// The characters of `s`, in order.
pub fn chars_of(s: &str) -> (r: Vec<char>)
    ensures
        r@ == s@,
{
    let mut out: Vec<char> = Vec::new();
    for c in it: s.chars()
        invariant
            out@ == it.seq().take(it.index() as int),
    {
        out.push(c);
    }
    out
}

/// Appends one character to a string.
#[verifier::external_body]
pub(crate) fn push_char(s: &mut String, c: char)
    ensures
        final(s)@ == old(s)@.push(c),
{
    s.push(c);
}

/// The string `s` followed by `tail`.
pub fn append(s: String, tail: &str) -> (r: String)
    ensures
        r@ == s@ + tail@,
{
    let tc = chars_of(tail);
    let mut out = s;
    let ghost base = out@;
    let mut i: usize = 0;
    while i < tc.len()
        invariant
            i <= tc@.len(),
            tc@ == tail@,
            out@ == base + tc@.take(i as int),
        decreases tc@.len() - i,
    {
        push_char(&mut out, tc[i]);
        i += 1;
        assert(base + tc@.take(i as int) =~= (base + tc@.take(i - 1)).push(tc@[i - 1]));
    }
    assert(tc@.take(tc@.len() as int) =~= tc@);
    out
}

/// Builds a string holding exactly the given characters.
pub fn string_from_chars(cs: &[char]) -> (r: String)
    ensures
        r@ == cs@,
{
    let mut out = String::new();
    let mut i: usize = 0;
    while i < cs.len()
        invariant
            i <= cs@.len(),
            out@ == cs@.take(i as int),
        decreases cs@.len() - i,
    {
        push_char(&mut out, cs[i]);
        i += 1;
        assert(cs@.take(i as int) == cs@.take(i - 1).push(cs@[i - 1]));
    }
    assert(cs@.take(cs@.len() as int) == cs@);
    out
}

/// A copy of a string.
pub fn copy_string(s: &String) -> (r: String)
    ensures
        r@ == s@,
{
    s.clone()
}

// ---------------------------------------------------------------------
// Line splitting
// ---------------------------------------------------------------------

/// A line without its trailing carriage return, if it has one.
pub open spec fn strip_cr(l: Seq<char>) -> Seq<char> {
    if l.len() > 0 && l.last() == '\r' {
        l.drop_last()
    } else {
        l
    }
}

/// The lines of `cur + rest`, where `cur` is the (newline-free) start of
/// the line being read and `rest` the text still to read: a line ends at each
/// `'\n'`, loses a `'\r'` just before it, and a final line is kept only when
/// it is not empty.
pub open spec fn lines_from(cur: Seq<char>, rest: Seq<char>) -> Seq<Seq<char>>
    decreases rest.len(),
{
    if rest.len() == 0 {
        if cur.len() == 0 {
            Seq::empty()
        } else {
            seq![cur]
        }
    } else if rest[0] == '\n' {
        seq![strip_cr(cur)] + lines_from(Seq::empty(), rest.drop_first())
    } else {
        lines_from(cur.push(rest[0]), rest.drop_first())
    }
}

/// The lines of a text, as `str::lines` yields them.
pub open spec fn spec_lines(text: Seq<char>) -> Seq<Seq<char>> {
    lines_from(Seq::empty(), text)
}

/// The lines joined with `'\n'` between them, as `join("\n")` builds them.
pub open spec fn join_lines(lines: Seq<Seq<char>>) -> Seq<char>
    decreases lines.len(),
{
    if lines.len() == 0 {
        Seq::empty()
    } else if lines.len() == 1 {
        lines[0]
    } else {
        join_lines(lines.drop_last()) + seq!['\n'] + lines.last()
    }
}

/// Drops a trailing carriage return from a line buffer.
fn strip_cr_vec(v: Vec<char>) -> (r: Vec<char>)
    ensures
        r@ == strip_cr(v@),
{
    let mut v = v;
    let n = v.len();
    if n > 0 && v[n - 1] == '\r' {
        v.pop();
    }
    v
}

/// Splits a text into its lines, as `str::lines` does.
pub fn split_lines(text: &[char]) -> (r: Vec<Vec<char>>)
    ensures
        r@.len() == spec_lines(text@).len(),
        forall|i: int| 0 <= i < r@.len() ==> #[trigger] r@[i]@ == spec_lines(text@)[i],
{
    let ghost t = text@;
    let mut out: Vec<Vec<char>> = Vec::new();
    let mut cur: Vec<char> = Vec::new();
    let mut i: usize = 0;
    let ghost mut done: Seq<Seq<char>> = Seq::empty();
    assert(t.skip(0) =~= t);
    assert(done + lines_from(cur@, t) =~= lines_from(cur@, t));
    while i < text.len()
        invariant
            i <= t.len(),
            t == text@,
            out@.len() == done.len(),
            forall|k: int| 0 <= k < done.len() ==> #[trigger] out@[k]@ == done[k],
            done + lines_from(cur@, t.skip(i as int)) == spec_lines(t),
        decreases t.len() - i,
    {
        let c = text[i];
        assert(t.skip(i as int).drop_first() == t.skip(i + 1));
        if c == '\n' {
            let line = strip_cr_vec(cur);
            proof {
                done = done.push(line@);
                assert(done.drop_last() + seq![line@] == done);
            }
            out.push(line);
            cur = Vec::new();
            assert(seq![strip_cr(cur@)] =~= seq![strip_cr(cur@)]);
        } else {
            cur.push(c);
        }
        i += 1;
        proof {
            assert forall|k: int| 0 <= k < done.len() implies #[trigger] out@[k]@ == done[k] by {}
        }
    }
    if cur.len() > 0 {
        proof {
            done = done.push(cur@);
        }
        out.push(cur);
    }
    assert(t.skip(t.len() as int) =~= Seq::<char>::empty());
    assert(done == spec_lines(t));
    out
}

/// The pieces of `cur + rest` between the separators, where `cur` is the
/// start of the piece being read: as `str::split` gives them, an empty
/// piece before a leading separator, after a trailing one and between two
/// in a row included.
pub open spec fn pieces_from(cur: Seq<char>, rest: Seq<char>, sep: char) -> Seq<Seq<char>>
    decreases rest.len(),
{
    if rest.len() == 0 {
        seq![cur]
    } else if rest[0] == sep {
        seq![cur] + pieces_from(Seq::empty(), rest.drop_first(), sep)
    } else {
        pieces_from(cur.push(rest[0]), rest.drop_first(), sep)
    }
}

/// The pieces of a text between the separators, as `str::split` gives
/// them.
pub open spec fn spec_split(text: Seq<char>, sep: char) -> Seq<Seq<char>> {
    pieces_from(Seq::empty(), text, sep)
}

/// Splits a text at each separator, as `str::split` does.
pub fn split_on(text: &[char], sep: char) -> (r: Vec<Vec<char>>)
    ensures
        r@.len() == spec_split(text@, sep).len(),
        forall|i: int| 0 <= i < r@.len() ==> #[trigger] r@[i]@ == spec_split(text@, sep)[i],
{
    let ghost t = text@;
    let mut out: Vec<Vec<char>> = Vec::new();
    let mut cur: Vec<char> = Vec::new();
    let mut i: usize = 0;
    let ghost mut done: Seq<Seq<char>> = Seq::empty();
    assert(t.skip(0) =~= t);
    assert(done + pieces_from(cur@, t, sep) =~= pieces_from(cur@, t, sep));
    while i < text.len()
        invariant
            i <= t.len(),
            t == text@,
            out@.len() == done.len(),
            forall|k: int| 0 <= k < done.len() ==> #[trigger] out@[k]@ == done[k],
            done + pieces_from(cur@, t.skip(i as int), sep) == spec_split(t, sep),
        decreases t.len() - i,
    {
        let c = text[i];
        assert(t.skip(i as int).drop_first() == t.skip(i + 1));
        if c == sep {
            let piece = cur;
            proof {
                done = done.push(piece@);
                assert(done.drop_last() + seq![piece@] == done);
            }
            out.push(piece);
            cur = Vec::new();
        } else {
            cur.push(c);
        }
        i += 1;
        proof {
            assert forall|k: int| 0 <= k < done.len() implies #[trigger] out@[k]@ == done[k] by {}
        }
    }
    proof {
        done = done.push(cur@);
    }
    out.push(cur);
    assert(t.skip(t.len() as int) =~= Seq::<char>::empty());
    assert(done == spec_split(t, sep));
    out
}

/// The pieces of `cur + rest` between the occurrences of `pat`, where
/// `cur` is the start of the piece being read: as `str::split` with a
/// string pattern gives them, each occurrence taken leftmost first.
pub open spec fn pattern_pieces_from(cur: Seq<char>, rest: Seq<char>, pat: Seq<char>) -> Seq<Seq<char>>
    decreases rest.len(),
{
    if rest.len() == 0 {
        seq![cur]
    } else if pat.len() > 0 && occurs_at(rest, pat, 0) {
        seq![cur] + pattern_pieces_from(Seq::empty(), rest.skip(pat.len() as int), pat)
    } else {
        pattern_pieces_from(cur.push(rest[0]), rest.drop_first(), pat)
    }
}

/// The pieces of a text between the occurrences of `pat`.
pub open spec fn spec_split_pattern(text: Seq<char>, pat: Seq<char>) -> Seq<Seq<char>> {
    pattern_pieces_from(Seq::empty(), text, pat)
}

/// Splits a text at each occurrence of a non-empty pattern, as
/// `str::split` does.
pub fn split_on_pattern(text: &[char], pat: &[char]) -> (r: Vec<Vec<char>>)
    requires
        pat@.len() > 0,
    ensures
        r@.len() == spec_split_pattern(text@, pat@).len(),
        forall|i: int| 0 <= i < r@.len() ==> #[trigger] r@[i]@ == spec_split_pattern(text@, pat@)[i],
{
    let ghost t = text@;
    let ghost p = pat@;
    let mut out: Vec<Vec<char>> = Vec::new();
    let mut cur: Vec<char> = Vec::new();
    let mut i: usize = 0;
    let ghost mut done: Seq<Seq<char>> = Seq::empty();
    assert(t.skip(0) =~= t);
    assert(done + pattern_pieces_from(cur@, t, p) =~= pattern_pieces_from(cur@, t, p));
    while i < text.len()
        invariant
            i <= t.len(),
            t == text@,
            p == pat@,
            p.len() > 0,
            out@.len() == done.len(),
            forall|k: int| 0 <= k < done.len() ==> #[trigger] out@[k]@ == done[k],
            done + pattern_pieces_from(cur@, t.skip(i as int), p) == spec_split_pattern(t, p),
        decreases t.len() - i,
    {
        let ghost rest = t.skip(i as int);
        let hit = matches_at(text, pat, i);
        proof {
            if i + p.len() <= t.len() {
                assert(rest.subrange(0, p.len() as int) =~= t.subrange(i as int, i + p.len()));
            }
            assert(hit == occurs_at(rest, p, 0));
        }
        if hit {
            let piece = cur;
            proof {
                done = done.push(piece@);
                assert(done.drop_last() + seq![piece@] == done);
                assert(rest.skip(p.len() as int) =~= t.skip(i + p.len()));
            }
            out.push(piece);
            cur = Vec::new();
            i += pat.len();
        } else {
            assert(rest.drop_first() == t.skip(i + 1));
            cur.push(text[i]);
            i += 1;
        }
        proof {
            assert forall|k: int| 0 <= k < done.len() implies #[trigger] out@[k]@ == done[k] by {}
        }
    }
    proof {
        done = done.push(cur@);
    }
    out.push(cur);
    assert(t.skip(t.len() as int) =~= Seq::<char>::empty());
    assert(done == spec_split_pattern(t, p));
    out
}

// ---------------------------------------------------------------------
// Unicode character classes and case mapping (std)
// ---------------------------------------------------------------------

/// Whether a character has the Unicode `Alphabetic` or a numeric property.
pub uninterp spec fn spec_is_alphanumeric(c: char) -> bool;

/// Whether a character has the Unicode `Alphabetic` property.
pub uninterp spec fn spec_is_alphabetic(c: char) -> bool;

/// Whether a character has the Unicode `White_Space` property: tab, line
/// feed, vertical tab, form feed, carriage return, space, next line,
/// no-break space, ogham space mark, the spaces from en quad to hair space,
/// line and paragraph separators, narrow no-break space, medium
/// mathematical space and ideographic space.
pub open spec fn spec_is_whitespace(c: char) -> bool {
    let v = c as u32;
    ||| 0x09 <= v <= 0x0D
    ||| v == 0x20
    ||| v == 0x85
    ||| v == 0xA0
    ||| v == 0x1680
    ||| 0x2000 <= v <= 0x200A
    ||| v == 0x2028
    ||| v == 0x2029
    ||| v == 0x202F
    ||| v == 0x205F
    ||| v == 0x3000
}

/// The lowercase mapping of a string.
pub uninterp spec fn spec_to_lowercase(s: Seq<char>) -> Seq<char>;

/// The uppercase mapping of a string.
pub uninterp spec fn spec_to_uppercase(s: Seq<char>) -> Seq<char>;

/// `char::is_alphanumeric`: whether `c` is alphabetic or numeric in the
/// Unicode sense. The result is named, not stated.
#[verifier::external_body]
pub(crate) fn is_alphanumeric(c: char) -> (r: bool)
    ensures
        r == spec_is_alphanumeric(c),
{
    c.is_alphanumeric()
}

/// `char::is_alphabetic`: whether `c` has the Unicode `Alphabetic`
/// property. The result is named, not stated.
#[verifier::external_body]
pub(crate) fn is_alphabetic(c: char) -> (r: bool)
    ensures
        r == spec_is_alphabetic(c),
{
    c.is_alphabetic()
}

/// Whether `c` has the Unicode `White_Space` property, as
/// `char::is_whitespace` tells.
pub(crate) fn is_whitespace(c: char) -> (r: bool)
    ensures
        r == spec_is_whitespace(c),
{
    let v = c as u32;
    (0x09 <= v && v <= 0x0D) || v == 0x20 || v == 0x85 || v == 0xA0 || v == 0x1680
        || (0x2000 <= v && v <= 0x200A) || v == 0x2028 || v == 0x2029 || v == 0x202F
        || v == 0x205F || v == 0x3000
}

/// `str::to_lowercase`: the lowercase equivalent of `s` under the Unicode
/// case mapping. The result is named, not stated.
#[verifier::external_body]
pub(crate) fn to_lowercase(s: &str) -> (r: String)
    ensures
        r@ == spec_to_lowercase(s@),
{
    s.to_lowercase()
}

/// `str::to_uppercase`: the uppercase equivalent of `s` under the Unicode
/// case mapping. The result is named, not stated.
#[verifier::external_body]
pub(crate) fn to_uppercase(s: &str) -> (r: String)
    ensures
        r@ == spec_to_uppercase(s@),
{
    s.to_uppercase()
}

// ---------------------------------------------------------------------
// Substrings
// ---------------------------------------------------------------------

/// Whether `pat` occurs in `s` starting at position `i`.
pub open spec fn occurs_at(s: Seq<char>, pat: Seq<char>, i: int) -> bool {
    0 <= i && i + pat.len() <= s.len() && s.subrange(i, i + pat.len()) == pat
}

/// Whether `pat` occurs anywhere in `s`.
pub open spec fn contains_seq(s: Seq<char>, pat: Seq<char>) -> bool {
    exists|i: int| occurs_at(s, pat, i)
}

/// Whether `pat` occurs in `s` at position `i`.
pub fn matches_at(s: &[char], pat: &[char], i: usize) -> (r: bool)
    ensures
        r == occurs_at(s@, pat@, i as int),
{
    if i > s.len() || pat.len() > s.len() - i {
        return false;
    }
    let mut k: usize = 0;
    while k < pat.len()
        invariant
            i + pat@.len() <= s@.len(),
            s@.len() <= usize::MAX,
            k <= pat@.len(),
            forall|j: int| 0 <= j < k ==> s@[i + j] == pat@[j],
        decreases pat@.len() - k,
    {
        if s[i + k] != pat[k] {
            assert(s@.subrange(i as int, i + pat@.len())[k as int] != pat@[k as int]);
            return false;
        }
        k += 1;
    }
    assert(s@.subrange(i as int, i + pat@.len()) =~= pat@);
    true
}

/// The first position at or after `from` where `pat` occurs in `s`.
pub fn find_from(s: &[char], pat: &[char], from: usize) -> (r: Option<usize>)
    ensures
        match r {
            Some(p) => from <= p && occurs_at(s@, pat@, p as int) && forall|j: int|
                from <= j < p ==> !occurs_at(s@, pat@, j),
            None => forall|j: int| from <= j ==> !occurs_at(s@, pat@, j),
        },
{
    if from > s.len() {
        return None;
    }
    let mut j = from;
    loop
        invariant
            from <= j <= s@.len(),
            forall|k: int| from <= k < j ==> !occurs_at(s@, pat@, k),
        decreases s@.len() - j,
    {
        if matches_at(s, pat, j) {
            return Some(j);
        }
        if j == s.len() {
            return None;
        }
        j += 1;
    }
}

/// Whether `pat` occurs anywhere in `s`.
pub fn contains_chars(s: &[char], pat: &[char]) -> (r: bool)
    ensures
        r == contains_seq(s@, pat@),
{
    match find_from(s, pat, 0) {
        Some(p) => true,
        None => {
            assert forall|i: int| !occurs_at(s@, pat@, i) by {
                if i >= 0 {
                }
            }
            false
        }
    }
}

/// Whether `s` starts with `pat`.
pub open spec fn starts_with(s: Seq<char>, pat: Seq<char>) -> bool {
    occurs_at(s, pat, 0)
}

/// Whether `s` starts with `pat`.
pub fn starts_with_chars(s: &[char], pat: &[char]) -> (r: bool)
    ensures
        r == starts_with(s@, pat@),
{
    matches_at(s, pat, 0)
}

/// Whether two character sequences are equal.
pub fn chars_eq(a: &[char], b: &[char]) -> (r: bool)
    ensures
        r == (a@ == b@),
{
    if a.len() != b.len() {
        return false;
    }
    let r = matches_at(a, b, 0);
    proof {
        if r {
            assert(a@.subrange(0, b@.len() as int) == a@);
        } else {
            assert(a@.subrange(0, b@.len() as int) =~= a@);
        }
    }
    r
}

/// Whether two strings are equal.
pub fn str_eq(a: &str, b: &str) -> (r: bool)
    ensures
        r == (a@ == b@),
{
    let ac = chars_of(a);
    let bc = chars_of(b);
    chars_eq(ac.as_slice(), bc.as_slice())
}

// ---------------------------------------------------------------------
// Trimming
// ---------------------------------------------------------------------

/// `s` without the white space (Unicode `White_Space`) at its start, as
/// `str::trim_start` gives it.
pub open spec fn trim_start(s: Seq<char>) -> Seq<char>
    decreases s.len(),
{
    if s.len() > 0 && spec_is_whitespace(s[0]) {
        trim_start(s.drop_first())
    } else {
        s
    }
}

/// `s` without the white space at its end, as `str::trim_end` gives it.
pub open spec fn trim_end(s: Seq<char>) -> Seq<char>
    decreases s.len(),
{
    if s.len() > 0 && spec_is_whitespace(s.last()) {
        trim_end(s.drop_last())
    } else {
        s
    }
}

/// `s` without the white space at both ends, as `str::trim` gives it.
pub open spec fn trim(s: Seq<char>) -> Seq<char> {
    trim_end(trim_start(s))
}

/// The characters `[lo, hi)` of `s`, as a new buffer.
pub fn sub_chars(s: &[char], lo: usize, hi: usize) -> (r: Vec<char>)
    requires
        lo <= hi <= s@.len(),
    ensures
        r@ == s@.subrange(lo as int, hi as int),
{
    let mut out: Vec<char> = Vec::new();
    let mut k = lo;
    while k < hi
        invariant
            lo <= k <= hi,
            hi <= s@.len(),
            out@ == s@.subrange(lo as int, k as int),
        decreases hi - k,
    {
        out.push(s[k]);
        k += 1;
        assert(s@.subrange(lo as int, k as int) =~= s@.subrange(lo as int, k - 1).push(s@[k - 1]));
    }
    out
}

/// `s` without white space at its start.
pub fn trim_start_exec(s: &[char]) -> (r: Vec<char>)
    ensures
        r@ == trim_start(s@),
{
    let mut lo: usize = 0;
    assert(s@.skip(0) =~= s@);
    while lo < s.len() && is_whitespace(s[lo])
        invariant
            lo <= s@.len(),
            trim_start(s@) == trim_start(s@.skip(lo as int)),
        decreases s@.len() - lo,
    {
        assert(s@.skip(lo as int).drop_first() =~= s@.skip(lo + 1));
        lo += 1;
    }
    let r = sub_chars(s, lo, s.len());
    assert(r@ =~= s@.skip(lo as int));
    r
}

/// `s` without white space at both ends.
pub fn trim_exec(s: &[char]) -> (r: Vec<char>)
    ensures
        r@ == trim(s@),
{
    let mut lo: usize = 0;
    assert(s@.skip(0) =~= s@);
    while lo < s.len() && is_whitespace(s[lo])
        invariant
            lo <= s@.len(),
            trim_start(s@) == trim_start(s@.skip(lo as int)),
        decreases s@.len() - lo,
    {
        assert(s@.skip(lo as int).drop_first() =~= s@.skip(lo + 1));
        lo += 1;
    }
    assert(trim_start(s@.skip(lo as int)) == s@.skip(lo as int));
    let mut hi: usize = s.len();
    let ghost t = s@.skip(lo as int);
    assert(t.take(t.len() as int) =~= t);
    while hi > lo && is_whitespace(s[hi - 1])
        invariant
            lo <= hi <= s@.len(),
            t == s@.skip(lo as int),
            trim_end(t) == trim_end(t.take(hi - lo)),
        decreases hi,
    {
        assert(t.take(hi - lo).drop_last() =~= t.take(hi - 1 - lo));
        assert(t.take(hi - lo).last() == s@[hi - 1]);
        hi -= 1;
    }
    proof {
        if hi > lo {
            assert(t.take(hi - lo).last() == s@[hi - 1]);
        }
    }
    let r = sub_chars(s, lo, hi);
    assert(r@ =~= t.take(hi - lo));
    r
}

/// Whether `s` ends with `suf`.
pub open spec fn ends_with(s: Seq<char>, suf: Seq<char>) -> bool {
    suf.len() <= s.len() && s.subrange(s.len() - suf.len(), s.len() as int) == suf
}

/// Whether `s` ends with `suf`.
pub fn ends_with_chars(s: &[char], suf: &[char]) -> (r: bool)
    ensures
        r == ends_with(s@, suf@),
{
    if suf.len() > s.len() {
        return false;
    }
    matches_at(s, suf, s.len() - suf.len())
}

} // verus!
