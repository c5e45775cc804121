use oxidy::editor::{split_lines, Editor};
use oxidy::types::{
    BufferId, Cursor, Direction, EditorAction, EditorEvent, EditorMode, Size, Token, ViewId,
};

fn editor_with(content: &str, rows: u16) -> Editor {
    let mut e = Editor::new();
    e.open_buffer("a.rs".to_string(), content.to_string(), Size { cols: 80, rows });
    e
}

fn lines(e: &Editor) -> Vec<String> {
    e.active_buffer().unwrap().lines.clone()
}

fn cursor(e: &Editor) -> Cursor {
    e.active_view().unwrap().cursor
}

fn token(text: &str, offset: usize) -> Token {
    Token { text: text.to_string(), offset, style: None }
}

#[test]
fn split_lines_takes_all_three_terminators() {
    assert_eq!(split_lines("a\nb\r\nc\rd"), vec!["a", "b", "c", "d"]);
    assert_eq!(split_lines(""), vec![""]);
    assert_eq!(split_lines("a\n"), vec!["a", ""]);
    assert_eq!(split_lines("\r\n\r\n"), vec!["", "", ""]);
    assert_eq!(split_lines("\n\r"), vec!["", "", ""]);
    assert_eq!(split_lines("héllo"), vec!["héllo"]);
}

#[test]
fn a_new_editor_is_empty() {
    let e = Editor::new();
    assert!(e.active_view().is_none());
    assert!(e.active_buffer().is_none());
    assert!(e.views().is_empty());
    assert!(e.buffer(&BufferId(0)).is_none());
}

#[test]
fn open_buffer_numbers_buffers_and_views() {
    let mut e = editor_with("one\ntwo", 24);
    e.open_buffer("b.rs".to_string(), "x".to_string(), Size { cols: 10, rows: 5 });
    assert_eq!(e.views().len(), 2);
    assert_eq!(e.views()[1].id, ViewId(1));
    assert_eq!(e.views()[1].buffer, BufferId(1));
    assert_eq!(e.buffer(&BufferId(0)).unwrap().lines, vec!["one", "two"]);
    assert_eq!(e.buffer(&BufferId(1)).unwrap().path, "b.rs");
    assert_eq!(e.buffer(&BufferId(1)).unwrap().version, 1);
    assert!(e.buffer(&BufferId(2)).is_none());
    assert_eq!(e.active_view().unwrap().id, ViewId(0));
}

#[test]
fn insert_then_delete_restores_line_and_cursor() {
    let mut e = editor_with("héllo\nwörld", 24);
    e.handle_action(&EditorAction::MoveCursor(Direction::Down));
    e.handle_action(&EditorAction::MoveCursor(Direction::Right));
    e.handle_action(&EditorAction::MoveCursor(Direction::Right));
    let before = (lines(&e), cursor(&e));
    e.handle_action(&EditorAction::InsertChar('ß'));
    assert_eq!(lines(&e), vec!["héllo", "wößrld"]);
    assert_eq!(cursor(&e), Cursor { row: 1, col: 3 });
    e.handle_action(&EditorAction::DeleteChar);
    assert_eq!((lines(&e), cursor(&e)), before);
}

#[test]
fn insert_char_keeps_multi_byte_characters_whole() {
    let mut e = editor_with("héllo", 24);
    e.handle_action(&EditorAction::MoveCursor(Direction::Right));
    e.handle_action(&EditorAction::MoveCursor(Direction::Right));
    assert_eq!(cursor(&e), Cursor { row: 0, col: 2 });
    let event = e.handle_action(&EditorAction::InsertChar('x'));
    assert_eq!(event, EditorEvent::Idle);
    assert_eq!(lines(&e), vec!["héxllo"]);
    assert_eq!(cursor(&e), Cursor { row: 0, col: 3 });
    assert_eq!(e.active_buffer().unwrap().version, 2);
}

#[test]
fn newline_then_delete_restores_the_line() {
    let mut e = editor_with("héllo wörld", 24);
    for _ in 0..5 {
        e.handle_action(&EditorAction::MoveCursor(Direction::Right));
    }
    e.handle_action(&EditorAction::InsertNewline);
    assert_eq!(lines(&e), vec!["héllo", " wörld"]);
    assert_eq!(cursor(&e), Cursor { row: 1, col: 0 });
    e.handle_action(&EditorAction::DeleteChar);
    assert_eq!(lines(&e), vec!["héllo wörld"]);
    assert_eq!(cursor(&e), Cursor { row: 0, col: 5 });
}

#[test]
fn newline_at_both_ends_of_a_line() {
    let mut e = editor_with("ab", 24);
    e.handle_action(&EditorAction::InsertNewline);
    assert_eq!(lines(&e), vec!["", "ab"]);
    e.handle_action(&EditorAction::MoveCursor(Direction::Right));
    e.handle_action(&EditorAction::MoveCursor(Direction::Right));
    e.handle_action(&EditorAction::InsertNewline);
    assert_eq!(lines(&e), vec!["", "ab", ""]);
    assert_eq!(cursor(&e), Cursor { row: 2, col: 0 });
}

#[test]
fn newline_scrolls_when_the_cursor_leaves_the_view() {
    let mut e = editor_with("a", 2);
    e.handle_action(&EditorAction::InsertNewline);
    assert_eq!(e.active_view().unwrap().scroll.vertical, 0);
    e.handle_action(&EditorAction::InsertNewline);
    assert_eq!(cursor(&e).row, 2);
    assert_eq!(e.active_view().unwrap().scroll.vertical, 1);
}

#[test]
fn moving_down_scrolls_by_exactly_one_line_per_crossing() {
    let content: Vec<String> = (0..30).map(|i| i.to_string()).collect();
    let mut e = editor_with(&content.join("\n"), 4);
    for step in 1..=12usize {
        let before = e.active_view().unwrap().scroll.vertical;
        e.handle_action(&EditorAction::MoveCursor(Direction::Down));
        let v = e.active_view().unwrap();
        assert_eq!(v.cursor.row, step);
        assert!(v.scroll.vertical == before || v.scroll.vertical == before + 1);
        assert_eq!(v.scroll.vertical == before + 1, step >= 4);
        assert!(v.scroll.vertical <= v.cursor.row && v.cursor.row <= v.scroll.vertical + 3);
    }
    e.move_cursor_up();
    e.move_cursor_left();
    e.move_cursor_right();
    e.move_cursor_down();
    assert_eq!(cursor(&e).row, 12);
}

#[test]
fn edits_shift_the_tokens_of_the_row() {
    let mut e = editor_with("abcdefghijkl", 24);
    e.update_tokens(vec![vec![token("f", 5), token("k", 10)]]);
    for _ in 0..6 {
        e.handle_action(&EditorAction::MoveCursor(Direction::Right));
    }
    e.handle_action(&EditorAction::InsertChar('!'));
    let offsets: Vec<usize> =
        e.active_view().unwrap().highlighter.tokens[0].iter().map(|t| t.offset).collect();
    assert_eq!(offsets, vec![5, 11]);
    e.handle_action(&EditorAction::DeleteChar);
    let offsets: Vec<usize> =
        e.active_view().unwrap().highlighter.tokens[0].iter().map(|t| t.offset).collect();
    assert_eq!(offsets, vec![5, 10]);
}

#[test]
fn insert_tab_moves_cursor_and_tokens() {
    let mut e = editor_with("ab", 24);
    e.update_tokens(vec![vec![token("a", 0), token("b", 1)]]);
    e.handle_action(&EditorAction::MoveCursor(Direction::Right));
    e.insert_tab(4);
    assert_eq!(lines(&e), vec!["a    b"]);
    assert_eq!(cursor(&e), Cursor { row: 0, col: 5 });
    let offsets: Vec<usize> =
        e.active_view().unwrap().highlighter.tokens[0].iter().map(|t| t.offset).collect();
    assert_eq!(offsets, vec![0, 5]);
}

#[test]
fn clamp_cursor_repairs_the_active_view() {
    let mut e = editor_with("ab\nc", 24);
    e.views[0].cursor = Cursor { row: 9, col: 9 };
    e.clamp_cursor();
    assert_eq!(cursor(&e), Cursor { row: 1, col: 1 });
}

#[test]
fn change_mode_only_changes_the_mode() {
    let mut e = editor_with("ab", 24);
    let event = e.handle_action(&EditorAction::ChangeMode(EditorMode::Insert));
    assert_eq!(event, EditorEvent::Idle);
    assert_eq!(e.active_view().unwrap().mode, EditorMode::Insert);
    assert_eq!(lines(&e), vec!["ab"]);
    assert_eq!(e.active_buffer().unwrap().version, 1);
}

#[test]
fn save_and_quit_are_handed_back() {
    let mut e = editor_with("ab", 24);
    assert_eq!(
        e.handle_action(&EditorAction::SaveCurrentBuffer),
        EditorEvent::SaveRequested(BufferId(0))
    );
    assert_eq!(e.handle_action(&EditorAction::QuitRequested), EditorEvent::QuitRequested);
    assert_eq!(e.handle_action(&EditorAction::Undo), EditorEvent::Idle);
    assert_eq!(lines(&e), vec!["ab"]);
    let mut empty = Editor::new();
    assert_eq!(empty.handle_action(&EditorAction::SaveCurrentBuffer), EditorEvent::Idle);
    assert_eq!(empty.handle_action(&EditorAction::QuitRequested), EditorEvent::QuitRequested);
}

#[test]
fn actions_without_a_view_change_nothing() {
    let mut e = Editor::new();
    assert_eq!(e.handle_action(&EditorAction::InsertChar('x')), EditorEvent::Idle);
    assert_eq!(e.handle_action(&EditorAction::DeleteChar), EditorEvent::Idle);
    assert_eq!(e.handle_action(&EditorAction::InsertNewline), EditorEvent::Idle);
    assert_eq!(e.handle_action(&EditorAction::MoveCursor(Direction::Down)), EditorEvent::Idle);
    assert!(e.views().is_empty());
    e.update_tokens(vec![vec![token("a", 0)]]);
    assert!(e.active_view().is_none());
}

#[test]
fn update_tokens_replaces_the_table() {
    let mut e = editor_with("ab", 24);
    e.update_tokens(vec![vec![token("a", 0)], vec![]]);
    assert_eq!(e.active_view().unwrap().highlighter.tokens.len(), 2);
    e.update_tokens(vec![]);
    assert!(e.active_view().unwrap().highlighter.tokens.is_empty());
    e.update_tokens(vec![vec![token("a", 0)]]);
    e.views[0].highlighter.highlight("ab", 0);
    e.invalidate_tokens();
    assert!(e.active_view().unwrap().highlighter.tokens.is_empty());
    assert!(e.active_view().unwrap().highlighter.cache.is_empty());
}
