//! The hover tooltip's reading of what the language server says: text and
//! code blocks fenced by three backquotes.

use crate::search::{join_chars, lines_view};
use crate::text::{
    chars_of, join_lines, spec_lines, spec_split_pattern, split_lines, split_on_pattern, string_from_chars, trim,
    trim_exec,
};
use vstd::prelude::*;

verus! {

/// A block of a hover text: a line of prose, or a piece of code.
#[derive(Debug, Clone, PartialEq, Eq)]
pub enum HoverBlock {
    Text(String),
    Code(String),
}

/// A block as a flag (code or not) and its text.
pub open spec fn block_view(b: HoverBlock) -> (bool, Seq<char>) {
    match b {
        HoverBlock::Text(s) => (false, s@),
        HoverBlock::Code(s) => (true, s@),
    }
}

/// The prose blocks of some lines: each line that is not blank.
pub open spec fn text_blocks(lines: Seq<Seq<char>>) -> Seq<(bool, Seq<char>)>
    decreases lines.len(),
{
    if lines.len() == 0 {
        Seq::empty()
    } else {
        text_blocks(lines.drop_last()) + if trim(lines.last()).len() > 0 {
            seq![(false, lines.last())]
        } else {
            Seq::empty()
        }
    }
}

/// The blocks of the `i`-th piece between fences: nothing for an empty
/// piece; outside fences (even `i`) its non-blank lines; inside (odd `i`)
/// one code block, its lines after the first (the language) joined.
pub open spec fn piece_blocks(i: int, piece: Seq<char>) -> Seq<(bool, Seq<char>)> {
    let ls = spec_lines(piece);
    if piece.len() == 0 {
        Seq::empty()
    } else if i % 2 == 0 {
        text_blocks(ls)
    } else {
        seq![(true, join_lines(if ls.len() > 0 { ls.skip(1) } else { ls }))]
    }
}

/// The blocks of all the pieces, in order.
pub open spec fn blocks_of(pieces: Seq<Seq<char>>) -> Seq<(bool, Seq<char>)>
    decreases pieces.len(),
{
    if pieces.len() == 0 {
        Seq::empty()
    } else {
        blocks_of(pieces.drop_last()) + piece_blocks(pieces.len() - 1, pieces.last())
    }
}

/// The blocks of a hover text.
pub open spec fn hover_view(contents: Seq<char>) -> Seq<(bool, Seq<char>)> {
    blocks_of(spec_split_pattern(contents, "```"@))
}

/// The blocks of a hover text, split at its fences.
pub fn hover_blocks(contents: &str) -> (r: Vec<HoverBlock>)
    ensures
        r@.map_values(|b: HoverBlock| block_view(b)) == hover_view(contents@),
{
    let cs = chars_of(contents);
    let fence = chars_of("```");
    proof {
        reveal_strlit("```");
    }
    let parts = split_on_pattern(cs.as_slice(), fence.as_slice());
    let ghost pv = spec_split_pattern(cs@, fence@);
    let mut out: Vec<HoverBlock> = Vec::new();
    let mut i: usize = 0;
    while i < parts.len()
        invariant
            i <= parts@.len(),
            parts@.len() == pv.len(),
            forall|k: int| 0 <= k < parts@.len() ==> #[trigger] parts@[k]@ == pv[k],
            out@.map_values(|b: HoverBlock| block_view(b)) == blocks_of(pv.take(i as int)),
        decreases parts@.len() - i,
    {
        let ghost before = out@.map_values(|b: HoverBlock| block_view(b));
        let part = &parts[i];
        assert(pv.take(i + 1).drop_last() =~= pv.take(i as int));
        assert(pv.take(i + 1).last() == part@);
        if part.len() > 0 {
            let mut lines = split_lines(part.as_slice());
            let ghost lv = spec_lines(part@);
            if i % 2 == 0 {
                let mut j: usize = 0;
                while j < lines.len()
                    invariant
                        j <= lines@.len(),
                        lines@.len() == lv.len(),
                        forall|k: int| 0 <= k < lines@.len() ==> #[trigger] lines@[k]@ == lv[k],
                        out@.map_values(|b: HoverBlock| block_view(b)) == before + text_blocks(lv.take(j as int)),
                    decreases lines@.len() - j,
                {
                    let line = &lines[j];
                    assert(lv.take(j + 1).drop_last() =~= lv.take(j as int));
                    assert(lv.take(j + 1).last() == line@);
                    let t = trim_exec(line.as_slice());
                    if t.len() > 0 {
                        let ghost o0 = out@;
                        out.push(HoverBlock::Text(string_from_chars(line.as_slice())));
                        assert(out@.map_values(|b: HoverBlock| block_view(b)) =~= o0.map_values(|b: HoverBlock| block_view(b)).push((false, line@)));
                    }
                    j += 1;
                }
                assert(lv.take(lv.len() as int) =~= lv);
            } else {
                let ghost rest = if lv.len() > 0 { lv.skip(1) } else { lv };
                if lines.len() > 0 {
                    let _ = lines.remove(0);
                }
                assert(lines_view(lines@) =~= rest);
                let code = join_chars(&lines);
                let ghost o0 = out@;
                out.push(HoverBlock::Code(string_from_chars(code.as_slice())));
                assert(out@.map_values(|b: HoverBlock| block_view(b)) =~= o0.map_values(|b: HoverBlock| block_view(b)).push((true, join_lines(rest))));
            }
        } else {
            assert(piece_blocks(i as int, part@) =~= Seq::<(bool, Seq<char>)>::empty());
        }
        i += 1;
    }
    assert(pv.take(pv.len() as int) =~= pv);
    out
}

} // verus!
