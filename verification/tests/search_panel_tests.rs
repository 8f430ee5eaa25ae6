use berry_editor::search::{literal_matches_in_line, regex_matches_in_line};
use berry_editor::search_panel::{group_by_file, panel_results, SearchResult};
use berry_editor::text::trim_exec;

#[test]
fn panel_lists_nothing_for_an_empty_query() {
    assert!(panel_results("", "/p").is_empty());
}

#[test]
fn panel_sample_results() {
    let r = panel_results("main", "/p");
    assert_eq!(r.len(), 2);
    assert_eq!(r[0].path, "/p/src/main.rs");
    assert_eq!((r[0].line_number, r[0].column, r[0].match_start, r[0].match_end), (10, 5, 3, 7));
    assert_eq!(r[0].line_text, "fn main() {");
    assert_eq!(r[1].path, "/p/src/lib.rs");
    assert_eq!((r[1].line_number, r[1].column, r[1].match_start, r[1].match_end), (25, 12, 7, 11));
    assert_eq!(r[1].line_text, "    // Main module");
}

fn hit(path: &str) -> SearchResult {
    SearchResult {
        path: path.to_string(),
        line_number: 1,
        column: 0,
        line_text: String::new(),
        match_start: 0,
        match_end: 0,
    }
}

#[test]
fn results_are_grouped_by_file_in_order_of_first_appearance() {
    let results = vec![hit("a.rs"), hit("b.rs"), hit("a.rs"), hit("c.rs"), hit("b.rs")];
    let g = group_by_file(&results);
    assert_eq!(
        g,
        vec![
            ("a.rs".to_string(), vec![0, 2]),
            ("b.rs".to_string(), vec![1, 4]),
            ("c.rs".to_string(), vec![3]),
        ]
    );
    assert!(group_by_file(&vec![]).is_empty());
}

#[test]
fn literal_matches_of_a_folded_line() {
    let m = literal_matches_in_line("Tést TEST", "tést test", "test", false, 4);
    assert_eq!(m.len(), 1);
    assert_eq!((m[0].line, m[0].start_col, m[0].end_col), (4, 6, 10));
    assert_eq!(m[0].text, "TEST");
    let m = literal_matches_in_line("aaa", "aaa", "aa", false, 0);
    assert_eq!(m.len(), 2);
    assert_eq!((m[1].start_col, m[1].end_col), (1, 3));
}

#[test]
fn regex_matches_of_given_spans() {
    let m = regex_matches_in_line("ab ab", &vec![(0, 2), (3, 5)], true, 1);
    assert_eq!(m.len(), 2);
    assert_eq!((m[1].line, m[1].start_col, m[1].end_col), (1, 3, 5));
    assert_eq!(m[1].text, "ab");
    let m = regex_matches_in_line("abc", &vec![(0, 2)], true, 0);
    assert!(m.is_empty());
}

#[test]
fn whitespace_is_what_std_says() {
    for v in 0u32..=0x10FFFF {
        if let Some(c) = char::from_u32(v) {
            assert_eq!(trim_exec(&[c]).is_empty(), c.is_whitespace(), "{:x}", v);
        }
    }
}
