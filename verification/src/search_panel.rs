//! The project search panel: the results it lists for a query, and their
//! grouping by file.

use vstd::prelude::*;
use crate::text::{append, str_eq};

verus! {

/// A hit of a project search: the file, the line and column, the line's
/// text and the span of the match in it.
pub struct SearchResult {
    pub path: String,
    pub line_number: usize,
    pub column: usize,
    pub line_text: String,
    pub match_start: usize,
    pub match_end: usize,
}

/// Whether a result is the one described.
pub open spec fn is_result(
    r: SearchResult,
    path: Seq<char>,
    line_number: usize,
    column: usize,
    line_text: Seq<char>,
    match_start: usize,
    match_end: usize,
) -> bool {
    &&& r.path@ == path
    &&& r.line_number == line_number
    &&& r.column == column
    &&& r.line_text@ == line_text
    &&& r.match_start == match_start
    &&& r.match_end == match_end
}

/// The results the panel lists for `query` under the project root `root`:
/// none for an empty query; otherwise its two sample hits, in `main.rs`
/// and `lib.rs` of the root's `src` directory.
pub fn panel_results(query: &str, root: &str) -> (r: Vec<SearchResult>)
    ensures
        query@.len() == 0 ==> r@.len() == 0,
        query@.len() > 0 ==> r@.len() == 2
            && is_result(r@[0], root@ + "/src/main.rs"@, 10, 5, "fn main() {"@, 3, 7)
            && is_result(r@[1], root@ + "/src/lib.rs"@, 25, 12, "    // Main module"@, 7, 11),
{
    if query.is_empty() {
        return Vec::new();
    }
    let main = SearchResult {
        path: append(String::from_str(root), "/src/main.rs"),
        line_number: 10,
        column: 5,
        line_text: String::from_str("fn main() {"),
        match_start: 3,
        match_end: 7,
    };
    let lib = SearchResult {
        path: append(String::from_str(root), "/src/lib.rs"),
        line_number: 25,
        column: 12,
        line_text: String::from_str("    // Main module"),
        match_start: 7,
        match_end: 11,
    };
    let mut v = Vec::new();
    v.push(main);
    v.push(lib);
    v
}

/// The index of the group of `path`, if there is one.
pub open spec fn group_index(groups: Seq<(Seq<char>, Seq<usize>)>, path: Seq<char>) -> Option<int>
    decreases groups.len(),
{
    if groups.len() == 0 {
        None
    } else {
        match group_index(groups.drop_last(), path) {
            Some(i) => Some(i),
            None => if groups.last().0 == path { Some(groups.len() - 1) } else { None },
        }
    }
}

/// The groups after the result at `i`, in file `path`, is added: to the
/// group of its file, or to a new group at the end.
pub open spec fn add_to_group(groups: Seq<(Seq<char>, Seq<usize>)>, path: Seq<char>, i: usize) -> Seq<(Seq<char>, Seq<usize>)> {
    match group_index(groups, path) {
        Some(k) => groups.update(k, (path, groups[k].1.push(i))),
        None => groups.push((path, seq![i])),
    }
}

/// The first `n` results grouped by file: the files in the order they
/// first appear, each with the indices of its results in order.
pub open spec fn grouped(paths: Seq<Seq<char>>, n: int) -> Seq<(Seq<char>, Seq<usize>)>
    decreases n,
{
    if n <= 0 {
        Seq::empty()
    } else {
        add_to_group(grouped(paths, n - 1), paths[n - 1], (n - 1) as usize)
    }
}

/// The files of the results.
pub open spec fn result_paths(results: Seq<SearchResult>) -> Seq<Seq<char>> {
    results.map_values(|r: SearchResult| r.path@)
}

/// The groups as values.
pub open spec fn groups_view(g: Seq<(String, Vec<usize>)>) -> Seq<(Seq<char>, Seq<usize>)> {
    g.map_values(|x: (String, Vec<usize>)| (x.0@, x.1@))
}

fn find_group(groups: &Vec<(String, Vec<usize>)>, path: &str) -> (r: Option<usize>)
    ensures
        match r {
            Some(k) => group_index(groups_view(groups@), path@) == Some(k as int),
            None => group_index(groups_view(groups@), path@) is None,
        },
{
    let ghost gv = groups_view(groups@);
    let mut k: usize = 0;
    while k < groups.len()
        invariant
            k <= groups@.len(),
            gv == groups_view(groups@),
            group_index(gv.take(k as int), path@) is None,
        decreases groups@.len() - k,
    {
        assert(gv.take(k + 1).drop_last() =~= gv.take(k as int));
        assert(gv.take(k + 1).last() == gv[k as int]);
        if str_eq(groups[k].0.as_str(), path) {
            proof { lemma_group_index_prefix(gv, path@, k as int + 1); }
            return Some(k);
        }
        k += 1;
    }
    assert(gv.take(k as int) =~= gv);
    None
}

/// A group found is a group of the list, of that file.
proof fn lemma_group_index_found(g: Seq<(Seq<char>, Seq<usize>)>, path: Seq<char>)
    ensures
        group_index(g, path) matches Some(k) ==> 0 <= k < g.len() && g[k].0 == path,
    decreases g.len(),
{
    if g.len() > 0 {
        lemma_group_index_found(g.drop_last(), path);
    }
}

/// A group found in a prefix is the group found in the whole list.
proof fn lemma_group_index_prefix(g: Seq<(Seq<char>, Seq<usize>)>, path: Seq<char>, n: int)
    requires
        0 <= n <= g.len(),
        group_index(g.take(n), path) is Some,
    ensures
        group_index(g, path) == group_index(g.take(n), path),
    decreases g.len() - n,
{
    if n < g.len() {
        assert(g.take(n + 1).drop_last() =~= g.take(n));
        lemma_group_index_prefix(g, path, n + 1);
    } else {
        assert(g.take(n) =~= g);
    }
}

/// The results grouped by file: the files in the order they first appear,
/// each with the indices of its results, in order.
pub fn group_by_file(results: &Vec<SearchResult>) -> (r: Vec<(String, Vec<usize>)>)
    ensures
        groups_view(r@) == grouped(result_paths(results@), results@.len() as int),
{
    let ghost ps = result_paths(results@);
    let mut groups: Vec<(String, Vec<usize>)> = Vec::new();
    let mut i: usize = 0;
    assert(groups_view(groups@) =~= Seq::<(Seq<char>, Seq<usize>)>::empty());
    while i < results.len()
        invariant
            i <= results@.len(),
            ps == result_paths(results@),
            groups_view(groups@) == grouped(ps, i as int),
        decreases results@.len() - i,
    {
        let ghost before = groups_view(groups@);
        assert(ps[i as int] == results@[i as int].path@);
        match find_group(&groups, results[i].path.as_str()) {
            Some(k) => {
                proof { lemma_group_index_found(before, ps[i as int]); }
                let (p, mut idx) = groups.remove(k);
                idx.push(i);
                groups.insert(k, (p, idx));
                assert(groups_view(groups@) =~= before.update(k as int, (ps[i as int], before[k as int].1.push(i))));
            },
            None => {
                let p = append(String::new(), results[i].path.as_str());
                let mut idx: Vec<usize> = Vec::new();
                idx.push(i);
                groups.push((p, idx));
                assert(groups_view(groups@) =~= before.push((ps[i as int], seq![i])));
            },
        }
        i += 1;
    }
    groups
}

} // verus!
