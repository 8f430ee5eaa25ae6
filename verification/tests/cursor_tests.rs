use berry_editor::cursor::{CursorPosition, MultiCursor, Selection};

fn two_selections(a: (CursorPosition, CursorPosition), b: (CursorPosition, CursorPosition)) -> MultiCursor {
    let mut mc = MultiCursor::from_position(a.0);
    mc.add_cursor(b.0);
    mc.select_word_at_cursors(move |p: CursorPosition| if p == a.0 { a } else { b });
    mc
}

#[test]
fn test_cursor_position_new() {
    let pos = CursorPosition::new(5, 10);
    assert_eq!(pos.line, 5);
    assert_eq!(pos.column, 10);
}

#[test]
fn test_selection_new() {
    let sel = Selection::new(CursorPosition::new(1, 5), CursorPosition::new(1, 10));
    assert_eq!(sel.anchor, CursorPosition::new(1, 5));
    assert_eq!(sel.cursor, CursorPosition::new(1, 10));
}

#[test]
fn test_selection_collapsed() {
    let pos = CursorPosition::new(1, 5);
    let sel = Selection::collapsed(pos);
    assert!(sel.is_collapsed());
    assert_eq!(sel.anchor, pos);
    assert_eq!(sel.cursor, pos);
}

#[test]
fn test_selection_is_collapsed() {
    let collapsed = Selection::collapsed(CursorPosition::new(1, 5));
    assert!(collapsed.is_collapsed());
    let not_collapsed = Selection::new(CursorPosition::new(1, 5), CursorPosition::new(1, 10));
    assert!(!not_collapsed.is_collapsed());
}

#[test]
fn test_selection_start_end() {
    let sel = Selection::new(CursorPosition::new(1, 10), CursorPosition::new(1, 5));
    assert_eq!(sel.start(), CursorPosition::new(1, 5));
    assert_eq!(sel.end(), CursorPosition::new(1, 10));
}

#[test]
fn test_selection_start_end_multiline() {
    let sel = Selection::new(CursorPosition::new(2, 0), CursorPosition::new(1, 5));
    assert_eq!(sel.start(), CursorPosition::new(1, 5));
    assert_eq!(sel.end(), CursorPosition::new(2, 0));
}

#[test]
fn test_multi_cursor_add() {
    let mut mc = MultiCursor::new();
    mc.add_cursor(CursorPosition::new(1, 5));
    mc.add_cursor(CursorPosition::new(2, 10));
    assert_eq!(mc.count(), 3);
}

#[test]
fn test_multi_cursor_no_duplicate() {
    let mut mc = MultiCursor::new();
    let pos = CursorPosition::new(1, 5);
    mc.add_cursor(pos);
    mc.add_cursor(pos);
    assert_eq!(mc.count(), 2);
}

#[test]
fn test_selection_contains() {
    let sel = Selection::new(CursorPosition::new(1, 5), CursorPosition::new(1, 10));
    assert!(sel.contains(CursorPosition::new(1, 7)));
    assert!(!sel.contains(CursorPosition::new(1, 3)));
    assert!(!sel.contains(CursorPosition::new(2, 7)));
}

#[test]
fn selection_contains_its_ends() {
    let sel = Selection::new(CursorPosition::new(3, 4), CursorPosition::new(1, 2));
    assert!(sel.contains(CursorPosition::new(1, 2)));
    assert!(sel.contains(CursorPosition::new(3, 4)));
    assert!(sel.contains(CursorPosition::new(2, 100)));
    assert!(!sel.contains(CursorPosition::new(3, 5)));
}

#[test]
fn test_multi_cursor_remove() {
    let mut mc = MultiCursor::new();
    let pos = CursorPosition::new(1, 5);
    mc.add_cursor(pos);
    assert_eq!(mc.count(), 2);
    mc.remove_cursor_at(pos);
    assert_eq!(mc.count(), 1);
}

#[test]
fn test_multi_cursor_always_keeps_one() {
    let mut mc = MultiCursor::new();
    mc.remove_cursor_at(CursorPosition::new(0, 0));
    assert_eq!(mc.count(), 1);
}

#[test]
fn test_has_cursor_at() {
    let mut mc = MultiCursor::new();
    let pos = CursorPosition::new(1, 5);
    assert!(!mc.has_cursor_at(pos));
    mc.add_cursor(pos);
    assert!(mc.has_cursor_at(pos));
}

#[test]
fn test_get_cursors() {
    let mut mc = MultiCursor::new();
    mc.add_cursor(CursorPosition::new(1, 5));
    mc.add_cursor(CursorPosition::new(2, 10));
    let cursors = mc.get_cursors();
    assert_eq!(cursors.len(), 3);
}

#[test]
fn test_clear_secondary_cursors() {
    let mut mc = MultiCursor::new();
    mc.add_cursor(CursorPosition::new(1, 5));
    mc.add_cursor(CursorPosition::new(2, 10));
    assert_eq!(mc.count(), 3);
    mc.clear_secondary_cursors();
    assert_eq!(mc.count(), 1);
}

#[test]
fn test_move_all() {
    let mut mc = MultiCursor::new();
    mc.add_cursor(CursorPosition::new(1, 5));
    mc.move_all(1, 2);
    let cursors = mc.get_cursors();
    assert!(cursors.iter().any(|c| c.line == 1 && c.column == 2));
}

#[test]
fn test_move_all_no_negative() {
    let mut mc = MultiCursor::new();
    mc.move_all(-10, -10);
    let cursors = mc.get_cursors();
    assert!(cursors.iter().all(|c| c.line == 0 && c.column == 0));
}

#[test]
fn move_all_then_back() {
    let mut mc = MultiCursor::from_position(CursorPosition::new(4, 7));
    mc.move_all(2, 3);
    assert_eq!(mc.get_cursors(), vec![CursorPosition::new(6, 10)]);
    mc.move_all(-2, -3);
    assert_eq!(mc.get_cursors(), vec![CursorPosition::new(4, 7)]);
    assert!(mc.primary_selection().is_collapsed());
}

#[test]
fn test_select_all_occurrences() {
    let text = "test test test";
    let mut mc = MultiCursor::new();
    mc.select_all_occurrences(text, "test");
    assert_eq!(mc.count(), 3);
}

#[test]
fn select_all_occurrences_positions() {
    let mut mc = MultiCursor::new();
    mc.select_all_occurrences("ab\nxab ab", "ab");
    let sels = mc.get_selections();
    assert_eq!(sels.len(), 3);
    assert_eq!(sels[0], Selection::new(CursorPosition::new(0, 0), CursorPosition::new(0, 2)));
    assert_eq!(sels[1], Selection::new(CursorPosition::new(1, 1), CursorPosition::new(1, 3)));
    assert_eq!(sels[2], Selection::new(CursorPosition::new(1, 4), CursorPosition::new(1, 6)));
    assert_eq!(*mc.primary_selection(), sels[0]);
}

#[test]
fn test_select_all_occurrences_empty() {
    let text = "test test test";
    let mut mc = MultiCursor::new();
    mc.select_all_occurrences(text, "");
    assert_eq!(mc.count(), 1);
}

#[test]
fn test_merge_overlapping() {
    let mut mc = two_selections(
        (CursorPosition::new(1, 0), CursorPosition::new(1, 5)),
        (CursorPosition::new(1, 3), CursorPosition::new(1, 8)),
    );
    mc.merge_overlapping();
    assert_eq!(mc.count(), 1);
    assert_eq!(mc.get_selections()[0].start(), CursorPosition::new(1, 0));
    assert_eq!(mc.get_selections()[0].end(), CursorPosition::new(1, 8));
}

#[test]
fn test_merge_non_overlapping() {
    let mut mc = two_selections(
        (CursorPosition::new(1, 0), CursorPosition::new(1, 5)),
        (CursorPosition::new(2, 0), CursorPosition::new(2, 5)),
    );
    mc.merge_overlapping();
    assert_eq!(mc.count(), 2);
}

#[test]
fn merge_touching_selections() {
    let mut mc = two_selections(
        (CursorPosition::new(0, 6), CursorPosition::new(0, 9)),
        (CursorPosition::new(0, 2), CursorPosition::new(0, 6)),
    );
    mc.merge_overlapping();
    assert_eq!(mc.count(), 1);
    assert_eq!(mc.get_selections()[0].start(), CursorPosition::new(0, 2));
    assert_eq!(mc.get_selections()[0].end(), CursorPosition::new(0, 9));
}

#[test]
fn test_from_position() {
    let pos = CursorPosition::new(5, 10);
    let mc = MultiCursor::from_position(pos);
    assert_eq!(mc.count(), 1);
    assert_eq!(mc.primary_selection().cursor, pos);
}

#[test]
fn test_primary_selection() {
    let mc = MultiCursor::new();
    let primary = mc.primary_selection();
    assert!(primary.is_collapsed());
    assert_eq!(primary.cursor, CursorPosition::new(0, 0));
}

#[test]
fn primary_stays_after_add() {
    let mut mc = MultiCursor::new();
    mc.add_cursor(CursorPosition::new(5, 5));
    assert_eq!(mc.primary_selection().cursor, CursorPosition::new(0, 0));
}

#[test]
fn default_is_one_cursor_at_start() {
    let mc = MultiCursor::default();
    assert_eq!(mc.get_cursors(), vec![CursorPosition::new(0, 0)]);
}

#[test]
fn select_all_occurrences_uses_byte_columns() {
    let mut mc = MultiCursor::new();
    mc.select_all_occurrences("é ab\nab", "ab");
    let sels = mc.get_selections();
    assert_eq!(sels.len(), 2);
    assert_eq!(sels[0], Selection::new(CursorPosition::new(0, 3), CursorPosition::new(0, 5)));
    assert_eq!(sels[1], Selection::new(CursorPosition::new(1, 0), CursorPosition::new(1, 2)));
}

#[test]
fn merged_selection_covers_both_ranges() {
    let mut mc = MultiCursor::new();
    mc.add_cursor(CursorPosition::new(1, 3));
    mc.select_all_occurrences("abcdefgh\nabcdefgh", "bcd");
    mc.merge_overlapping();
    let sels = mc.get_selections();
    assert_eq!(sels.len(), 2);
    assert_eq!(sels[0].start(), CursorPosition::new(0, 1));
    assert_eq!(sels[0].end(), CursorPosition::new(0, 4));
}
