use avim::buffer::Buffer;

fn chars(s: &str) -> Vec<char> {
    s.chars().collect()
}

fn line_str(buffer: &Buffer, idx: usize) -> String {
    buffer.get_line(idx).expect("line missing").iter().collect()
}

#[test]
fn new_buffer_has_one_empty_line() {
    let b = Buffer::new();
    assert_eq!(b.line_count(), 1);
    assert_eq!(line_str(&b, 0), "");
    assert!(!b.is_modified());
}

#[test]
fn insert_char_and_undo_redo_round_trip() {
    let mut b = Buffer::from_text("abc", None);
    b.insert_char(0, 1, 'x');
    assert_eq!(line_str(&b, 0), "axbc");
    assert!(b.is_modified());

    let undo_pos = b.undo();
    assert_eq!(undo_pos, Some((0, 1)));
    assert_eq!(line_str(&b, 0), "abc");

    let redo_pos = b.redo();
    assert_eq!(redo_pos, Some((0, 1)));
    assert_eq!(line_str(&b, 0), "axbc");
}

#[test]
fn undo_without_history_returns_none() {
    let mut b = Buffer::from_text("abc", None);
    assert_eq!(b.undo(), None);
    assert_eq!(line_str(&b, 0), "abc");
    assert_eq!(b.redo(), None);
}

#[test]
fn undo_stack_is_bounded_and_drops_oldest_first() {
    let mut b = Buffer::new();
    for _ in 0..150 {
        b.insert_char(0, 0, 'z');
    }
    let mut undos = 0;
    while b.undo().is_some() {
        undos += 1;
        assert!(undos <= 100, "undo stack exceeded its bound");
    }
    assert_eq!(undos, 100);
    // the oldest 50 edits were discarded, so 50 characters remain
    assert_eq!(line_str(&b, 0).len(), 50);
}

#[test]
fn redo_stack_cleared_by_new_edit() {
    let mut b = Buffer::from_text("abc", None);
    b.insert_char(0, 0, 'x');
    b.undo();
    b.insert_char(0, 0, 'y');
    assert_eq!(b.redo(), None);
    assert_eq!(line_str(&b, 0), "yabc");
}

#[test]
fn delete_char_in_and_out_of_range() {
    let mut b = Buffer::from_text("abc", None);
    b.delete_char(0, 1);
    assert_eq!(line_str(&b, 0), "ac");
    b.delete_char(0, 5);
    assert_eq!(line_str(&b, 0), "ac");
    b.delete_char(3, 0);
    assert_eq!(line_str(&b, 0), "ac");
}

#[test]
fn insert_newline_splits_a_line() {
    let mut b = Buffer::from_text("hello", None);
    b.insert_newline(0, 2);
    assert_eq!(b.line_count(), 2);
    assert_eq!(line_str(&b, 0), "he");
    assert_eq!(line_str(&b, 1), "llo");
}

#[test]
fn delete_line_removes_a_line() {
    let mut b = Buffer::from_text("one\ntwo\nthree", None);
    let removed = b.delete_line(1);
    assert_eq!(removed, Some(chars("two")));
    assert_eq!(b.line_count(), 2);
    assert_eq!(line_str(&b, 0), "one");
    assert_eq!(line_str(&b, 1), "three");
}

#[test]
fn delete_line_on_single_line_buffer_clears_it() {
    let mut b = Buffer::from_text("only", None);
    let removed = b.delete_line(0);
    assert_eq!(removed, Some(chars("only")));
    assert_eq!(b.line_count(), 1);
    assert_eq!(line_str(&b, 0), "");
}

#[test]
fn delete_line_out_of_range_is_a_no_op() {
    let mut b = Buffer::from_text("a\nb", None);
    assert_eq!(b.delete_line(7), None);
    assert_eq!(b.line_count(), 2);
}

#[test]
fn join_lines_inserts_one_space_when_both_sides_are_non_empty() {
    let mut b = Buffer::from_text("abc\ndef", None);
    b.join_lines(0);
    assert_eq!(b.line_count(), 1);
    assert_eq!(line_str(&b, 0), "abc def");
}

#[test]
fn join_lines_adds_no_space_when_next_line_is_empty() {
    let mut b = Buffer::from_text("abc\n\ndef", None);
    b.join_lines(0);
    assert_eq!(b.line_count(), 2);
    assert_eq!(line_str(&b, 0), "abc");
    assert_eq!(line_str(&b, 1), "def");
}

#[test]
fn join_lines_trims_leading_whitespace_of_joined_content() {
    let mut b = Buffer::from_text("abc\n   def", None);
    b.join_lines(0);
    assert_eq!(line_str(&b, 0), "abc def");
}

#[test]
fn join_lines_undo_restores_both_lines() {
    let mut b = Buffer::from_text("abc\ndef", None);
    b.join_lines(0);
    let pos = b.undo();
    assert_eq!(pos, Some((0, 3)));
    assert_eq!(b.line_count(), 2);
    assert_eq!(line_str(&b, 0), "abc");
    assert_eq!(line_str(&b, 1), "def");
}

#[test]
fn from_text_splits_lines_like_a_file() {
    let b = Buffer::from_text("a\nb\nc", None);
    assert_eq!(b.line_count(), 3);

    let trailing = Buffer::from_text("a\n", None);
    assert_eq!(trailing.line_count(), 1);
    assert_eq!(line_str(&trailing, 0), "a");

    let empty = Buffer::from_text("", None);
    assert_eq!(empty.line_count(), 1);
    assert_eq!(line_str(&empty, 0), "");

    let crlf = Buffer::from_text("a\r\nb", None);
    assert_eq!(crlf.line_count(), 2);
    assert_eq!(line_str(&crlf, 0), "a");
    assert_eq!(line_str(&crlf, 1), "b");
}

#[test]
fn to_text_joins_lines_with_newlines() {
    let b = Buffer::from_text("a\nb\nc", None);
    assert_eq!(b.to_text(), "a\nb\nc");

    let single = Buffer::from_text("solo", None);
    assert_eq!(single.to_text(), "solo");
}

#[test]
fn file_path_is_kept_and_can_be_replaced() {
    let mut b = Buffer::from_text("x", Some("notes.txt".to_string()));
    assert_eq!(b.file_path().map(|p| p.as_str()), Some("notes.txt"));
    b.set_file_path(Some("other.txt".to_string()));
    assert_eq!(b.file_path().map(|p| p.as_str()), Some("other.txt"));
    b.mark_saved();
    assert!(!b.is_modified());
}

#[test]
fn replace_line_swaps_content_without_undo_history() {
    let mut b = Buffer::from_text("abc\ndef", None);
    let prev = b.replace_line(1, chars("DEF"));
    assert_eq!(prev, Some(chars("def")));
    assert_eq!(line_str(&b, 1), "DEF");
    // direct line edits bypass the undo stack
    assert_eq!(b.undo(), None);
}

#[test]
fn undo_after_delete_line_reports_the_recorded_cursor() {
    let mut b = Buffer::from_text("one\ntwo\nthree", None);
    b.delete_line(2);
    let pos = b.undo();
    assert_eq!(pos, Some((2, 0)));
    assert_eq!(b.line_count(), 3);
}
