use berry_editor::buffer::TextBuffer;

#[test]
fn large_file_lines() {
    let large_text = (0..100000)
        .map(|i| format!("Line {}: some repetitive text to fill memory and simulate real files...\n", i))
        .collect::<String>();
    let buffer = TextBuffer::from_str(&large_text);
    let cloned_buffer = buffer.clone();
    assert_eq!(buffer.len_lines(), 100001);
    assert_eq!(cloned_buffer.len_lines(), 100001);
    assert!(buffer.line(0).unwrap().contains("Line 0:"));
    assert!(buffer.line(50000).unwrap().contains("Line 50000:"));
}

#[test]
fn test_new_buffer() {
    let buffer = TextBuffer::new();
    assert_eq!(buffer.len_chars(), 0);
    assert_eq!(buffer.len_lines(), 1);
    assert!(!buffer.is_modified());
    assert_eq!(buffer.language(), "plaintext");
}

#[test]
fn test_from_str() {
    let text = "Hello\nWorld";
    let buffer = TextBuffer::from_str(text);
    assert_eq!(buffer.to_string(), text);
    assert_eq!(buffer.len_lines(), 2);
    assert!(!buffer.is_modified());
}

#[test]
fn test_insert() {
    let mut buffer = TextBuffer::from_str("Hello");
    buffer.insert(5, " World");
    assert_eq!(buffer.to_string(), "Hello World");
    assert!(buffer.is_modified());
}

#[test]
fn test_remove() {
    let mut buffer = TextBuffer::from_str("Hello World");
    buffer.remove(5, 11);
    assert_eq!(buffer.to_string(), "Hello");
    assert!(buffer.is_modified());
}

#[test]
fn test_len_lines() {
    let buffer = TextBuffer::from_str("Line1\nLine2\nLine3");
    assert_eq!(buffer.len_lines(), 3);
}

#[test]
fn test_line() {
    let buffer = TextBuffer::from_str("Line1\nLine2\nLine3");
    assert_eq!(buffer.line(0).unwrap(), "Line1\n");
    assert_eq!(buffer.line(1).unwrap(), "Line2\n");
    assert_eq!(buffer.line(2).unwrap(), "Line3");
    assert!(buffer.line(3).is_none());
}

#[test]
fn lines_with_other_breaks() {
    let buffer = TextBuffer::from_str("a\r\nb\rc\u{2028}d\n");
    assert_eq!(buffer.len_lines(), 5);
    assert_eq!(buffer.line(0).unwrap(), "a\r\n");
    assert_eq!(buffer.line(1).unwrap(), "b\r");
    assert_eq!(buffer.line(2).unwrap(), "c\u{2028}");
    assert_eq!(buffer.line(3).unwrap(), "d\n");
    assert_eq!(buffer.line(4).unwrap(), "");
    assert_eq!(buffer.char_to_line(1), 0);
    assert_eq!(buffer.char_to_line(2), 0);
    assert_eq!(buffer.char_to_line(3), 1);
    assert_eq!(buffer.line_to_char(5), buffer.len_chars());
}

#[test]
fn test_mark_saved() {
    let mut buffer = TextBuffer::from_str("Hello");
    buffer.insert(5, " World");
    assert!(buffer.is_modified());
    buffer.mark_saved();
    assert!(!buffer.is_modified());
}

#[test]
fn test_set_file_path() {
    let mut buffer = TextBuffer::new();
    assert!(buffer.file_path().is_none());
    buffer.set_file_path("/path/to/file.rs".to_string());
    assert_eq!(buffer.file_path(), Some("/path/to/file.rs"));
}

#[test]
fn test_set_language() {
    let mut buffer = TextBuffer::new();
    assert_eq!(buffer.language(), "plaintext");
    buffer.set_language("rust".to_string());
    assert_eq!(buffer.language(), "rust");
}

#[test]
fn test_multiple_operations() {
    let mut buffer = TextBuffer::from_str("Hello");
    buffer.insert(0, "Well, ");
    buffer.insert(buffer.len_chars(), "!");
    assert_eq!(buffer.to_string(), "Well, Hello!");
    buffer.remove(0, 6);
    assert_eq!(buffer.to_string(), "Hello!");
    assert!(buffer.is_modified());
    buffer.mark_saved();
    assert!(!buffer.is_modified());
}

#[test]
fn test_empty_buffer_operations() {
    let mut buffer = TextBuffer::new();
    buffer.remove(0, 0);
    assert_eq!(buffer.len_chars(), 0);
    buffer.insert(0, "First");
    assert_eq!(buffer.to_string(), "First");
    buffer.remove(0, buffer.len_chars());
    assert_eq!(buffer.len_chars(), 0);
}

#[test]
fn test_out_of_bounds_insert() {
    let mut buffer = TextBuffer::from_str("Hello");
    let initial_len = buffer.len_chars();
    buffer.insert(100, " World");
    assert_eq!(buffer.to_string(), "Hello World");
    assert_eq!(buffer.len_chars(), initial_len + 6);
}

#[test]
fn test_out_of_bounds_remove() {
    let mut buffer = TextBuffer::from_str("Hello");
    buffer.remove(0, 1000);
    assert_eq!(buffer.len_chars(), 0);
}

#[test]
fn test_remove_with_start_greater_than_length() {
    let mut buffer = TextBuffer::from_str("Hello");
    buffer.remove(100, 200);
    assert!(buffer.len_chars() <= 5);
    assert_eq!(buffer.to_string(), "Hello");
    assert!(!buffer.is_modified());
    assert_eq!(buffer.version(), 0);
}

#[test]
fn test_slice_boundary_conditions() {
    let buffer = TextBuffer::from_str("Hello");
    assert_eq!(buffer.slice(0, 5), Some("Hello".to_string()));
    assert_eq!(buffer.slice(2, 2), Some("".to_string()));
    assert_eq!(buffer.slice(5, 2), None);
    assert_eq!(buffer.slice(0, 100), None);
    assert_eq!(buffer.slice(100, 200), None);
}

#[test]
fn test_line_segment_boundary_conditions() {
    let buffer = TextBuffer::from_str("Short");
    assert_eq!(buffer.line_segment(0, 10, 20), Some("".to_string()));
    assert_eq!(buffer.line_segment(0, 100, 200), Some("".to_string()));
    assert_eq!(buffer.line_segment(10, 0, 5), None);
    let buffer2 = TextBuffer::from_str("Hello World");
    assert_eq!(buffer2.line_segment(0, 0, 5), Some("Hello".to_string()));
    assert_eq!(buffer2.line_segment(0, 6, 100), Some("World".to_string()));
}

#[test]
fn test_cache_operations() {
    let mut buffer = TextBuffer::from_str("Line1\nLine2\nLine3");
    assert_eq!(buffer.get_cached_highlight(0), None);
    buffer.cache_highlight(0, "<html>Line1</html>".to_string());
    buffer.cache_highlight(1, "<html>Line2</html>".to_string());
    buffer.cache_highlight(2, "<html>Line3</html>".to_string());
    assert_eq!(buffer.get_cached_highlight(0), Some("<html>Line1</html>"));
    assert_eq!(buffer.get_cached_highlight(1), Some("<html>Line2</html>"));
    assert_eq!(buffer.get_cached_highlight(2), Some("<html>Line3</html>"));
    assert_eq!(buffer.get_cached_highlight(10), None);
}

#[test]
fn test_trim_cache_precision() {
    let mut buffer = TextBuffer::from_str("L1\nL2\nL3\nL4\nL5");
    for i in 0..5 {
        buffer.cache_highlight(i, format!("<html>L{}</html>", i + 1));
    }
    buffer.trim_cache(1, 3, 0);
    assert_eq!(buffer.get_cached_highlight(0), None);
    assert!(buffer.get_cached_highlight(1).is_some());
    assert!(buffer.get_cached_highlight(2).is_some());
    assert!(buffer.get_cached_highlight(3).is_some());
    assert_eq!(buffer.get_cached_highlight(4), None);
}

#[test]
fn test_trim_cache_with_margin() {
    let mut buffer = TextBuffer::from_str("L1\nL2\nL3\nL4\nL5\nL6\nL7");
    for i in 0..7 {
        buffer.cache_highlight(i, format!("<html>L{}</html>", i + 1));
    }
    buffer.trim_cache(2, 4, 1);
    assert!(buffer.get_cached_highlight(1).is_some());
    assert!(buffer.get_cached_highlight(2).is_some());
    assert!(buffer.get_cached_highlight(3).is_some());
    assert!(buffer.get_cached_highlight(4).is_some());
    assert!(buffer.get_cached_highlight(5).is_some());
    assert_eq!(buffer.get_cached_highlight(0), None);
    assert_eq!(buffer.get_cached_highlight(6), None);
}

#[test]
fn trim_cache_margin_below_zero() {
    let mut buffer = TextBuffer::new();
    buffer.cache_highlight(0, "a".to_string());
    buffer.cache_highlight(9, "b".to_string());
    buffer.trim_cache(1, 2, 5);
    assert_eq!(buffer.get_cached_highlight(0), Some("a"));
    assert_eq!(buffer.get_cached_highlight(9), None);
}

#[test]
fn test_cache_invalidation_on_insert() {
    let mut buffer = TextBuffer::from_str("Line1\nLine2\nLine3\nLine4");
    for i in 0..4 {
        buffer.cache_highlight(i, format!("<cached>{}</cached>", i));
    }
    let initial_version = buffer.version();
    let insert_pos = buffer.line_to_char(1);
    buffer.insert(insert_pos, "NEW");
    assert_eq!(buffer.version(), initial_version + 1);
    assert_eq!(buffer.get_cached_highlight(1), None);
    assert_eq!(buffer.get_cached_highlight(2), None);
    assert_eq!(buffer.get_cached_highlight(3), None);
    assert!(buffer.get_cached_highlight(0).is_some());
}

#[test]
fn test_cache_invalidation_on_remove() {
    let mut buffer = TextBuffer::from_str("Line1\nLine2\nLine3\nLine4\nLine5");
    for i in 0..5 {
        buffer.cache_highlight(i, format!("<cached>{}</cached>", i));
    }
    let start = buffer.line_to_char(2);
    let end = buffer.line_to_char(3);
    buffer.remove(start, end);
    assert_eq!(buffer.get_cached_highlight(2), None);
    assert_eq!(buffer.get_cached_highlight(3), None);
    assert_eq!(buffer.get_cached_highlight(4), None);
    assert!(buffer.get_cached_highlight(1).is_some());
}

#[test]
fn test_line_char_conversion_boundary() {
    let buffer = TextBuffer::from_str("L1\nL2\nL3");
    assert_eq!(buffer.line_to_char(0), 0);
    assert_eq!(buffer.line_to_char(1), 3);
    assert_eq!(buffer.line_to_char(2), 6);
    assert_eq!(buffer.char_to_line(0), 0);
    assert_eq!(buffer.char_to_line(2), 0);
    assert_eq!(buffer.char_to_line(3), 1);
    assert_eq!(buffer.char_to_line(6), 2);
}

#[test]
fn test_snapshot_immutability() {
    let mut buffer = TextBuffer::from_str("Original");
    let snapshot = buffer.snapshot();
    buffer.insert(8, " Modified");
    assert_eq!(snapshot.to_string(), "Original");
    assert_eq!(buffer.to_string(), "Original Modified");
}

#[test]
fn test_line_from_snapshot() {
    let buffer = TextBuffer::from_str("Line1\nLine2\nLine3");
    let snapshot = buffer.snapshot();
    assert_eq!(TextBuffer::line_from_snapshot(&snapshot, 0), Some("Line1\n".to_string()));
    assert_eq!(TextBuffer::line_from_snapshot(&snapshot, 2), Some("Line3".to_string()));
    assert_eq!(TextBuffer::line_from_snapshot(&snapshot, 10), None);
}

#[test]
fn test_default_trait() {
    let buffer = TextBuffer::default();
    assert_eq!(buffer.len_chars(), 0);
    assert_eq!(buffer.len_lines(), 1);
    assert!(!buffer.is_modified());
}

#[test]
fn test_version_increment() {
    let mut buffer = TextBuffer::new();
    let v0 = buffer.version();
    buffer.insert(0, "A");
    let v1 = buffer.version();
    assert_eq!(v1, v0 + 1);
    buffer.remove(0, 1);
    let v2 = buffer.version();
    assert_eq!(v2, v1 + 1);
    buffer.mark_saved();
    assert_eq!(buffer.version(), v2);
}

#[test]
fn test_multiline_insert_cache_invalidation() {
    let mut buffer = TextBuffer::from_str("Line1\nLine2\nLine3");
    for i in 0..3 {
        buffer.cache_highlight(i, format!("cached{}", i));
    }
    buffer.insert(0, "New1\nNew2\n");
    assert_eq!(buffer.get_cached_highlight(0), None);
    assert_eq!(buffer.get_cached_highlight(1), None);
    assert_eq!(buffer.get_cached_highlight(2), None);
}

#[test]
fn insert_keeps_far_cache_entries() {
    let mut buffer = TextBuffer::from_str("a\nb\nc\nd\ne\nf\ng");
    for i in 0..7 {
        buffer.cache_highlight(i, format!("h{}", i));
    }
    buffer.insert(buffer.line_to_char(1), "x\n");
    assert!(buffer.get_cached_highlight(0).is_some());
    assert_eq!(buffer.get_cached_highlight(1), None);
    assert_eq!(buffer.get_cached_highlight(4), None);
    assert_eq!(buffer.get_cached_highlight(5), Some("h5"));
}

#[test]
fn insert_then_slice_gives_text() {
    let mut buffer = TextBuffer::from_str("héllo");
    buffer.insert(2, "ÿz");
    assert_eq!(buffer.slice(2, 4), Some("ÿz".to_string()));
    buffer.remove(2, 4);
    assert_eq!(buffer.to_string(), "héllo");
}
