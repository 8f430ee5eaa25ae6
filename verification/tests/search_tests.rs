use berry_editor::search::{SearchEngine, SearchMatch, SearchOptions};

#[test]
fn test_literal_search() {
    let mut engine = SearchEngine::new();
    engine.set_query("test".to_string());
    let text = "This is a test\nAnother test line\nNo match here";
    let matches = engine.search(text);
    assert_eq!(matches.len(), 2);
    assert_eq!(matches[0].line, 0);
    assert_eq!(matches[1].line, 1);
}

#[test]
fn test_case_insensitive() {
    let mut engine = SearchEngine::new();
    engine.set_query("TEST".to_string());
    let mut options = SearchOptions::default();
    options.case_sensitive = false;
    engine.set_options(options);
    let text = "This is a test\nAnother Test line";
    let matches = engine.search(text);
    assert_eq!(matches.len(), 2);
}

#[test]
fn case_sensitive_search() {
    let mut engine = SearchEngine::new();
    engine.set_query("Test".to_string());
    let mut options = SearchOptions::default();
    options.case_sensitive = true;
    engine.set_options(options);
    let matches = engine.search("test Test tEST");
    assert_eq!(matches.len(), 1);
    assert_eq!(matches[0].start_col, 5);
    assert_eq!(matches[0].end_col, 9);
    assert_eq!(matches[0].text, "Test");
}

#[test]
fn test_whole_word() {
    let mut engine = SearchEngine::new();
    engine.set_query("test".to_string());
    let mut options = SearchOptions::default();
    options.whole_word = true;
    engine.set_options(options);
    let text = "test testing tested test";
    let matches = engine.search(text);
    assert_eq!(matches.len(), 2);
}

#[test]
fn test_regex_search() {
    let mut engine = SearchEngine::new();
    engine.set_query(r"\d+".to_string());
    let mut options = SearchOptions::default();
    options.use_regex = true;
    engine.set_options(options);
    let text = "Line 42 has 100 numbers";
    let matches = engine.search(text);
    assert_eq!(matches.len(), 2);
    assert_eq!(matches[0].text, "42");
    assert_eq!(matches[1].text, "100");
}

#[test]
fn invalid_regex_finds_nothing() {
    let mut engine = SearchEngine::new();
    engine.set_query("(".to_string());
    let mut options = SearchOptions::default();
    options.use_regex = true;
    engine.set_options(options);
    assert_eq!(engine.search("((("), Vec::<SearchMatch>::new());
    assert_eq!(engine.current_match_index(), None);
}

#[test]
fn regex_columns_count_bytes() {
    let mut engine = SearchEngine::new();
    engine.set_query("b+".to_string());
    let mut options = SearchOptions::default();
    options.use_regex = true;
    options.case_sensitive = true;
    engine.set_options(options);
    let matches = engine.search("ééabb");
    assert_eq!(matches.len(), 1);
    assert_eq!(matches[0].start_col, 5);
    assert_eq!(matches[0].end_col, 7);
    assert_eq!(matches[0].text, "bb");
}

#[test]
fn search_in_selection() {
    let mut engine = SearchEngine::new();
    engine.set_query("x".to_string());
    let mut options = SearchOptions::default();
    options.in_selection = true;
    options.selection_start_line = Some(1);
    options.selection_end_line = Some(2);
    engine.set_options(options);
    let matches = engine.search("x\nx\nx");
    assert_eq!(matches.len(), 1);
    assert_eq!(matches[0].line, 1);
}

#[test]
fn empty_query_finds_nothing() {
    let mut engine = SearchEngine::new();
    assert!(engine.search("anything").is_empty());
    assert_eq!(engine.match_count(), 0);
    assert!(engine.find_next().is_none());
    assert!(engine.get_current_match().is_none());
}

#[test]
fn test_replace_current() {
    let mut engine = SearchEngine::new();
    engine.set_query("old".to_string());
    let mut text = "This is old text with old values".to_string();
    engine.search(&text);
    let replaced = engine.replace_current(&mut text, "new");
    assert!(replaced);
    assert!(text.contains("new"));
}

#[test]
fn replace_current_exact_text() {
    let mut engine = SearchEngine::new();
    engine.set_query("old".to_string());
    let mut text = "old one\nold two".to_string();
    engine.search(&text);
    assert!(engine.replace_current(&mut text, "fresh"));
    assert_eq!(text, "fresh one\nold two");
    assert_eq!(engine.match_count(), 1);
    assert_eq!(engine.current_match_index(), Some(0));
}

#[test]
fn test_replace_all() {
    let mut engine = SearchEngine::new();
    engine.set_query("old".to_string());
    let mut text = "This is old text with old values".to_string();
    engine.search(&text);
    let count = engine.replace_all(&mut text, "new");
    assert_eq!(count, 2);
    assert!(!text.contains("old"));
    assert_eq!(text.matches("new").count(), 2);
}

#[test]
fn replace_all_exact_text() {
    let mut engine = SearchEngine::new();
    engine.set_query("ab".to_string());
    let mut text = "ab ab\nxab".to_string();
    engine.search(&text);
    assert_eq!(engine.replace_all(&mut text, "c"), 3);
    assert_eq!(text, "c c\nxc");
    assert_eq!(engine.match_count(), 0);
}

#[test]
fn replace_all_without_matches() {
    let mut engine = SearchEngine::new();
    let mut text = "abc".to_string();
    assert_eq!(engine.replace_all(&mut text, "x"), 0);
    assert_eq!(text, "abc");
}

#[test]
fn test_find_next_previous() {
    let mut engine = SearchEngine::new();
    engine.set_query("test".to_string());
    let text = "test1 test2 test3";
    engine.search(text);
    let first = engine.get_current_match();
    assert_eq!(first.unwrap().start_col, 0);
    let second = engine.find_next();
    assert_eq!(second.unwrap().start_col, 6);
    let first_again = engine.find_previous();
    assert_eq!(first_again.unwrap().start_col, 0);
}

#[test]
fn find_wraps_around() {
    let mut engine = SearchEngine::new();
    engine.set_query("a".to_string());
    engine.search("a a");
    assert_eq!(engine.find_previous().unwrap().start_col, 2);
    assert_eq!(engine.find_next().unwrap().start_col, 0);
    assert_eq!(engine.find_next().unwrap().start_col, 2);
    assert_eq!(engine.find_next().unwrap().start_col, 0);
}

#[test]
fn match_range_and_new() {
    let m = SearchMatch::new(2, 3, 7, "word".to_string());
    assert_eq!(m.range(), 3..7);
    assert_eq!(m.line, 2);
    assert_eq!(m.text, "word");
}

#[test]
fn default_engine_is_empty() {
    let engine = SearchEngine::default();
    assert_eq!(engine.match_count(), 0);
    assert!(engine.get_matches().is_empty());
}

#[test]
fn literal_columns_count_bytes() {
    let mut engine = SearchEngine::new();
    engine.set_query("test".to_string());
    let mut options = SearchOptions::default();
    options.case_sensitive = true;
    engine.set_options(options);
    let matches = engine.search("é test");
    assert_eq!(matches.len(), 1);
    assert_eq!(matches[0].start_col, 3);
    assert_eq!(matches[0].end_col, 7);
    assert_eq!(matches[0].text, "test");
}

#[test]
fn empty_query_ignores_a_reversed_range() {
    let mut engine = SearchEngine::new();
    let mut options = SearchOptions::default();
    options.in_selection = true;
    options.selection_start_line = Some(3);
    options.selection_end_line = Some(1);
    engine.set_options(options);
    assert!(engine.search("a\nb").is_empty());
    assert_eq!(engine.current_match_index(), None);
}

#[test]
fn selection_keeps_the_whole_text_matches_on_its_lines() {
    let text = "ab\nb\nbab\nb";
    let mut whole = SearchEngine::new();
    whole.set_query("b".to_string());
    let all = whole.search(text);
    let mut part = SearchEngine::new();
    part.set_query("b".to_string());
    let mut options = SearchOptions::default();
    options.in_selection = true;
    options.selection_start_line = Some(1);
    options.selection_end_line = Some(3);
    part.set_options(options);
    let some = part.search(text);
    let expected: Vec<SearchMatch> = all.into_iter().filter(|m| 1 <= m.line && m.line < 3).collect();
    assert_eq!(some, expected);
    assert_eq!(some.len(), 3);
}

#[test]
fn regex_matches_come_in_reading_order() {
    let mut engine = SearchEngine::new();
    engine.set_query("a*".to_string());
    let mut options = SearchOptions::default();
    options.use_regex = true;
    engine.set_options(options);
    let matches = engine.search("baab\naa");
    for w in matches.windows(2) {
        assert!(w[0].line < w[1].line || (w[0].line == w[1].line && w[0].start_col < w[1].start_col));
    }
    assert_eq!(matches[1].start_col, 1);
    assert_eq!(matches[1].end_col, 3);
}

#[test]
fn searches_that_would_fault_are_refused() {
    let mut engine = SearchEngine::new();
    engine.set_query("é".to_string());
    let mut options = SearchOptions::default();
    options.case_sensitive = true;
    engine.set_options(options);
    assert!(!engine.can_search("aé"));
    assert_eq!(engine.search_if_ok("aé"), None);
    assert!(engine.can_search("abc"));
    assert_eq!(engine.search_if_ok("abc"), Some(vec![]));
    engine.set_query("b".to_string());
    let found = engine.search_if_ok("abc").unwrap();
    assert_eq!(found.len(), 1);
    assert_eq!(found[0].start_col, 1);
}

#[test]
fn checked_replacements() {
    let mut engine = SearchEngine::new();
    engine.set_query("old".to_string());
    let mut text = "old and old".to_string();
    engine.search(&text);
    assert!(engine.replace_current_allowed(&text, "new"));
    assert_eq!(engine.replace_current_if_ok(&mut text, "new"), Some(true));
    assert_eq!(text, "new and old");
    assert!(engine.replace_all_allowed(&text, "x"));
    assert_eq!(engine.replace_all_if_ok(&mut text, "x"), Some(1));
    assert_eq!(text, "new and x");
}
