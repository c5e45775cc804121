use oxidy::buffer::{Buffer, BufferLocation, BufferView};
use oxidy::types::{BufferId, Cursor, EditorMode, ScrollOffset, Size, ViewId};

fn buffer(lines: &[&str]) -> Buffer {
    Buffer::new(lines.iter().map(|l| l.to_string()).collect(), "x.rs".to_string())
}

fn view(rows: u16, cols: u16) -> BufferView {
    BufferView::new(ViewId(0), BufferId(0), Size { cols, rows })
}

#[test]
fn text_joins_lines_with_line_feeds() {
    let b = buffer(&["ab", "", "c"]);
    assert_eq!(b.text(), "ab\n\nc");
    assert_eq!(b.version, 1);
}

#[test]
fn text_of_one_empty_line_is_empty() {
    assert_eq!(buffer(&[""]).text(), "");
    assert_eq!(buffer(&[]).text(), "");
}

#[test]
fn line_and_len() {
    let b = buffer(&["one", "two"]);
    assert_eq!(b.len(), 2);
    assert_eq!(b.line(1), Some("two"));
    assert_eq!(b.line(2), None);
    assert_eq!(b.line_len(0), 3);
    assert_eq!(b.line_len(7), 0);
}

#[test]
fn line_at_scroll_adds_the_scroll() {
    let b = buffer(&["a", "b", "c"]);
    let scroll = ScrollOffset { horizontal: 0, vertical: 1 };
    assert_eq!(b.line_at_scroll(&scroll, 0), Some("b"));
    assert_eq!(b.line_at_scroll(&scroll, 1), Some("c"));
    assert_eq!(b.line_at_scroll(&scroll, 2), None);
    let far = ScrollOffset { horizontal: 0, vertical: usize::MAX };
    assert_eq!(b.line_at_scroll(&far, 1), None);
}

#[test]
fn set_replaces_lines_and_path() {
    let mut b = buffer(&["a"]);
    b.set(vec!["x".to_string(), "y".to_string()], "new".to_string());
    assert_eq!(b.lines, vec!["x".to_string(), "y".to_string()]);
    assert_eq!(b.path, "new");
    assert_eq!(b.version, 1);
}

#[test]
fn insert_char_counts_characters_not_bytes() {
    let mut b = buffer(&["héllo"]);
    assert!(b.insert_char(0, 2, 'x'));
    assert_eq!(b.lines[0], "héxllo");
    assert_eq!(b.version, 2);
}

#[test]
fn insert_char_past_the_end_appends() {
    let mut b = buffer(&["ab"]);
    assert!(b.insert_char(0, 9, '!'));
    assert_eq!(b.lines[0], "ab!");
}

#[test]
fn insert_char_in_a_missing_row_is_a_no_op() {
    let mut b = buffer(&["ab"]);
    assert!(!b.insert_char(1, 0, '!'));
    assert_eq!(b.lines, vec!["ab".to_string()]);
    assert_eq!(b.version, 1);
}

#[test]
fn delete_char_removes_the_character_before_the_column() {
    let mut b = buffer(&["héllo"]);
    let c = b.delete_char(0, 2);
    assert_eq!(b.lines[0], "hllo");
    assert_eq!(c, Cursor { row: 0, col: 1 });
    assert_eq!(b.version, 2);
}

#[test]
fn delete_char_at_column_zero_joins_lines() {
    let mut b = buffer(&["ab", "cd", "ef"]);
    let c = b.delete_char(1, 0);
    assert_eq!(b.lines, vec!["abcd".to_string(), "ef".to_string()]);
    assert_eq!(c, Cursor { row: 0, col: 2 });
}

#[test]
fn delete_char_at_the_very_start_is_a_no_op() {
    let mut b = buffer(&["ab"]);
    let c = b.delete_char(0, 0);
    assert_eq!(b.lines, vec!["ab".to_string()]);
    assert_eq!(c, Cursor { row: 0, col: 0 });
    assert_eq!(b.version, 1);
}

#[test]
fn delete_char_past_the_end_is_a_no_op() {
    let mut b = buffer(&["ab"]);
    let c = b.delete_char(0, 3);
    assert_eq!(b.lines, vec!["ab".to_string()]);
    assert_eq!(c, Cursor { row: 0, col: 3 });
    let d = b.delete_char(4, 0);
    assert_eq!(d, Cursor { row: 4, col: 0 });
    assert_eq!(b.version, 1);
}

#[test]
fn insert_newline_splits_the_line() {
    let mut b = buffer(&["héllo", "x"]);
    assert!(b.insert_newline(0, 2));
    assert_eq!(b.lines, vec!["hé".to_string(), "llo".to_string(), "x".to_string()]);
    assert!(b.insert_newline(2, 1));
    assert_eq!(b.lines[2], "x");
    assert_eq!(b.lines[3], "");
    assert!(!b.insert_newline(9, 0));
    assert_eq!(b.version, 3);
}

#[test]
fn insert_tab_inserts_spaces() {
    let mut b = buffer(&["ab"]);
    assert!(b.insert_tab(0, 1, 4));
    assert_eq!(b.lines[0], "a    b");
    assert!(b.insert_tab(0, 0, 0));
    assert_eq!(b.lines[0], "a    b");
    assert!(!b.insert_tab(3, 0, 2));
}

#[test]
fn version_stops_at_the_largest_value() {
    let mut b = buffer(&["a"]);
    b.version = u32::MAX;
    assert!(b.insert_char(0, 0, 'x'));
    assert_eq!(b.version, u32::MAX);
}

#[test]
fn clamp_cursor_brings_the_cursor_into_the_buffer() {
    let b = buffer(&["abc", "d"]);
    assert_eq!(b.clamp_cursor(Cursor { row: 5, col: 9 }), Cursor { row: 1, col: 1 });
    assert_eq!(b.clamp_cursor(Cursor { row: 0, col: 9 }), Cursor { row: 0, col: 3 });
    assert_eq!(b.clamp_cursor(Cursor { row: 0, col: 2 }), Cursor { row: 0, col: 2 });
    assert_eq!(buffer(&[]).clamp_cursor(Cursor { row: 5, col: 9 }), Cursor { row: 0, col: 0 });
}

#[test]
fn new_view_starts_at_the_origin() {
    let v = view(24, 80);
    assert_eq!(v.cursor, Cursor { row: 0, col: 0 });
    assert_eq!(v.scroll, ScrollOffset { horizontal: 0, vertical: 0 });
    assert_eq!(v.mode, EditorMode::Normal);
    assert!(v.selection.is_none());
    assert_eq!(v.visible_top(), 0);
    assert_eq!(v.visible_bottom(), 23);
}

#[test]
fn visible_bottom_of_an_empty_view_is_its_top() {
    let mut v = view(0, 80);
    v.scroll.vertical = 7;
    assert_eq!(v.visible_top(), 7);
    assert_eq!(v.visible_bottom(), 7);
    let mut w = view(10, 80);
    w.scroll.vertical = usize::MAX - 2;
    assert_eq!(w.visible_bottom(), usize::MAX);
}

#[test]
fn moving_down_scrolls_by_one_row_per_crossing() {
    let lines: Vec<String> = (0..50).map(|i| format!("line {}", i)).collect();
    let b = Buffer::new(lines, String::new());
    let mut v = view(5, 80);
    for step in 1..=20usize {
        let before = v.scroll.vertical;
        v.move_down(&b);
        assert_eq!(v.cursor.row, step);
        let expected = if step >= 5 { step - 4 } else { 0 };
        assert_eq!(v.scroll.vertical, expected);
        assert!(v.scroll.vertical - before <= 1);
        assert!(v.scroll.vertical <= v.cursor.row);
        assert!(v.cursor.row <= v.scroll.vertical + 4);
    }
}

#[test]
fn moving_down_stops_at_the_last_line() {
    let b = buffer(&["a", "b"]);
    let mut v = view(5, 80);
    v.move_down(&b);
    v.move_down(&b);
    assert_eq!(v.cursor.row, 1);
    assert_eq!(v.scroll.vertical, 0);
    let empty = buffer(&[]);
    let mut w = view(5, 80);
    w.move_down(&empty);
    assert_eq!(w.cursor.row, 0);
}

#[test]
fn moving_up_scrolls_back() {
    let lines: Vec<String> = (0..50).map(|i| format!("line {}", i)).collect();
    let b = Buffer::new(lines, String::new());
    let mut v = view(5, 80);
    for _ in 0..10 {
        v.move_down(&b);
    }
    assert_eq!((v.cursor.row, v.scroll.vertical), (10, 6));
    for _ in 0..4 {
        v.move_up();
    }
    assert_eq!((v.cursor.row, v.scroll.vertical), (6, 6));
    v.move_up();
    assert_eq!((v.cursor.row, v.scroll.vertical), (5, 5));
    for _ in 0..9 {
        v.move_up();
    }
    assert_eq!((v.cursor.row, v.scroll.vertical), (0, 0));
}

#[test]
fn moving_right_is_blocked_at_the_end_of_the_line() {
    let b = buffer(&["hé"]);
    let mut v = view(5, 80);
    v.move_right(&b);
    v.move_right(&b);
    assert_eq!(v.cursor.col, 2);
    v.move_right(&b);
    assert_eq!(v.cursor.col, 2);
}

#[test]
fn moving_left_repairs_a_column_past_the_end() {
    let b = buffer(&["abc"]);
    let mut v = view(5, 80);
    v.cursor.col = 10;
    v.move_left(&b);
    assert_eq!(v.cursor.col, 2);
    v.move_left(&b);
    v.move_left(&b);
    v.move_left(&b);
    assert_eq!(v.cursor.col, 0);
}

#[test]
fn moving_sideways_in_a_missing_row_changes_nothing() {
    let b = buffer(&["abc"]);
    let mut v = view(5, 80);
    v.cursor = Cursor { row: 3, col: 2 };
    v.move_left(&b);
    assert_eq!(v.cursor, Cursor { row: 3, col: 2 });
    v.move_right(&b);
    assert_eq!(v.cursor, Cursor { row: 3, col: 2 });
}

#[test]
fn horizontal_scroll_reserves_the_gutter() {
    let b = buffer(&["0123456789abcdef"]);
    let mut v = view(5, 10);
    for _ in 0..3 {
        v.move_right(&b);
    }
    assert_eq!((v.cursor.col, v.scroll.horizontal), (3, 0));
    v.move_right(&b);
    assert_eq!((v.cursor.col, v.scroll.horizontal), (4, 1));
    v.move_right(&b);
    assert_eq!((v.cursor.col, v.scroll.horizontal), (5, 2));
    for _ in 0..3 {
        v.move_left(&b);
    }
    assert_eq!((v.cursor.col, v.scroll.horizontal), (2, 2));
    v.move_left(&b);
    assert_eq!((v.cursor.col, v.scroll.horizontal), (1, 1));
}

#[test]
fn jump_to_top_and_bottom() {
    let lines: Vec<String> = (0..50).map(|i| format!("line {}", i)).collect();
    let b = Buffer::new(lines, String::new());
    let mut v = view(5, 80);
    v.jump_to(&BufferLocation::Bottom, &b);
    assert_eq!((v.cursor.row, v.scroll.vertical), (49, 45));
    v.jump_to(&BufferLocation::Top, &b);
    assert_eq!((v.cursor.row, v.scroll.vertical), (0, 0));
    let short = buffer(&["a", "b"]);
    v.jump_to(&BufferLocation::Bottom, &short);
    assert_eq!((v.cursor.row, v.scroll.vertical), (1, 0));
}

#[test]
fn jump_to_start_and_end_of_line() {
    let b = buffer(&["  \tfoo bar", "   ", ""]);
    let mut v = view(5, 80);
    v.jump_to(&BufferLocation::EndLine, &b);
    assert_eq!(v.cursor.col, 10);
    v.jump_to(&BufferLocation::StartLine, &b);
    assert_eq!(v.cursor.col, 3);
    v.cursor = Cursor { row: 1, col: 2 };
    v.jump_to(&BufferLocation::StartLine, &b);
    assert_eq!(v.cursor.col, 0);
    v.cursor = Cursor { row: 2, col: 0 };
    v.jump_to(&BufferLocation::EndLine, &b);
    assert_eq!(v.cursor.col, 0);
    v.cursor = Cursor { row: 1, col: 1 };
    v.jump_to(&BufferLocation::NextWord, &b);
    v.jump_to(&BufferLocation::PreviousWord, &b);
    assert_eq!(v.cursor, Cursor { row: 1, col: 1 });
}
