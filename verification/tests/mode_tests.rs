use avim::buffer::Buffer;
use avim::command::{execute_command, CommandAction, CommandMode, CommandResult};
use avim::cursor::Cursor;
use avim::insert::InsertMode;
use avim::key::{Key, KeyInput};
use avim::mode::{Mode, VisualType};
use avim::normal::{NormalAction, NormalMode};
use avim::visual::VisualMode;

fn key(c: char) -> KeyInput {
    KeyInput::plain(Key::Char(c))
}

fn ctrl(c: char) -> KeyInput {
    KeyInput { code: Key::Char(c), ctrl: true, alt: false, shift: false }
}

fn line_str(buffer: &Buffer, idx: usize) -> String {
    buffer.get_line(idx).expect("line missing").iter().collect()
}

#[test]
fn insert_mode_types_characters() {
    let mut b = Buffer::new();
    let mut c = Cursor::new();
    assert_eq!(InsertMode::handle_key(key('h'), &mut c, &mut b), None);
    assert_eq!(InsertMode::handle_key(key('i'), &mut c, &mut b), None);
    assert_eq!(line_str(&b, 0), "hi");
    assert_eq!((c.line, c.col), (0, 2));
}

#[test]
fn insert_mode_auto_closes_brackets() {
    let mut b = Buffer::new();
    let mut c = Cursor::new();
    InsertMode::handle_key(key('('), &mut c, &mut b);
    assert_eq!(line_str(&b, 0), "()");
    assert_eq!(c.col, 1);
}

#[test]
fn insert_mode_backspace_deletes_a_bracket_pair_together() {
    let mut b = Buffer::new();
    let mut c = Cursor::new();
    InsertMode::handle_key(key('('), &mut c, &mut b);
    InsertMode::handle_key(KeyInput::plain(Key::Backspace), &mut c, &mut b);
    assert_eq!(line_str(&b, 0), "");
    assert_eq!(c.col, 0);
}

#[test]
fn insert_mode_tab_inserts_four_spaces() {
    let mut b = Buffer::new();
    let mut c = Cursor::new();
    InsertMode::handle_key(KeyInput::plain(Key::Tab), &mut c, &mut b);
    assert_eq!(line_str(&b, 0), "    ");
    assert_eq!(c.col, 4);
}

#[test]
fn insert_mode_enter_keeps_indent_and_adds_more_after_a_brace() {
    let mut b = Buffer::from_text("  if {", None);
    let mut c = Cursor { line: 0, col: 6, desired_col: 6 };
    InsertMode::handle_key(KeyInput::plain(Key::Enter), &mut c, &mut b);
    assert_eq!(b.line_count(), 2);
    assert_eq!(line_str(&b, 1), "      ");
    assert_eq!((c.line, c.col), (1, 6));
}

#[test]
fn insert_mode_backspace_at_line_start_joins_lines() {
    let mut b = Buffer::from_text("ab\ncd", None);
    let mut c = Cursor { line: 1, col: 0, desired_col: 0 };
    InsertMode::handle_key(KeyInput::plain(Key::Backspace), &mut c, &mut b);
    assert_eq!(b.line_count(), 1);
    assert_eq!(line_str(&b, 0), "ab cd");
    assert_eq!((c.line, c.col), (0, 2));
}

#[test]
fn insert_mode_escape_returns_to_normal_and_steps_left() {
    let mut b = Buffer::new();
    let mut c = Cursor { line: 0, col: 1, desired_col: 1 };
    let r = InsertMode::handle_key(KeyInput::plain(Key::Esc), &mut c, &mut b);
    assert_eq!(r, Some(Mode::Normal));
    assert_eq!(c.col, 0);
}

#[test]
fn normal_mode_x_deletes_under_cursor() {
    let mut nm = NormalMode::new();
    let mut b = Buffer::from_text("abc", None);
    let mut c = Cursor::new();
    assert_eq!(nm.handle_key(key('x'), &mut c, &mut b), NormalAction::NoOp);
    assert_eq!(line_str(&b, 0), "bc");
}

#[test]
fn normal_mode_dd_deletes_the_line_into_the_register() {
    let mut nm = NormalMode::new();
    let mut b = Buffer::from_text("one\ntwo", None);
    let mut c = Cursor::new();
    nm.handle_key(key('d'), &mut c, &mut b);
    nm.handle_key(key('d'), &mut c, &mut b);
    assert_eq!(b.line_count(), 1);
    assert_eq!(line_str(&b, 0), "two");
    let yank: Vec<String> = nm.yank_register().iter().map(|l| l.iter().collect()).collect();
    assert_eq!(yank, vec!["one".to_string()]);
}

#[test]
fn normal_mode_p_pastes_below() {
    let mut nm = NormalMode::new();
    let mut b = Buffer::from_text("one\ntwo", None);
    let mut c = Cursor::new();
    nm.handle_key(key('d'), &mut c, &mut b);
    nm.handle_key(key('d'), &mut c, &mut b);
    nm.handle_key(key('p'), &mut c, &mut b);
    assert_eq!(b.line_count(), 2);
    assert_eq!(line_str(&b, 0), "two");
    assert_eq!(line_str(&b, 1), "one");
    assert_eq!(c.line, 1);
}

#[test]
fn normal_mode_dw_deletes_a_word() {
    let mut nm = NormalMode::new();
    let mut b = Buffer::from_text("foo bar", None);
    let mut c = Cursor::new();
    nm.handle_key(key('d'), &mut c, &mut b);
    nm.handle_key(key('w'), &mut c, &mut b);
    assert_eq!(line_str(&b, 0), "bar");
    assert_eq!(c.col, 0);
}

#[test]
fn normal_mode_yy_copies_without_deleting() {
    let mut nm = NormalMode::new();
    let mut b = Buffer::from_text("keep", None);
    let mut c = Cursor::new();
    nm.handle_key(key('y'), &mut c, &mut b);
    nm.handle_key(key('y'), &mut c, &mut b);
    assert_eq!(line_str(&b, 0), "keep");
    let yank: Vec<String> = nm.yank_register().iter().map(|l| l.iter().collect()).collect();
    assert_eq!(yank, vec!["keep".to_string()]);
}

#[test]
fn normal_mode_join_and_undo_and_redo() {
    let mut nm = NormalMode::new();
    let mut b = Buffer::from_text("ab\ncd", None);
    let mut c = Cursor::new();
    nm.handle_key(key('J'), &mut c, &mut b);
    assert_eq!(line_str(&b, 0), "ab cd");
    nm.handle_key(key('u'), &mut c, &mut b);
    assert_eq!(b.line_count(), 2);
    nm.handle_key(ctrl('r'), &mut c, &mut b);
    assert_eq!(b.line_count(), 1);
    assert_eq!(line_str(&b, 0), "ab cd");
}

#[test]
fn normal_mode_mode_changes() {
    let mut nm = NormalMode::new();
    let mut b = Buffer::new();
    let mut c = Cursor::new();
    assert_eq!(
        nm.handle_key(key('i'), &mut c, &mut b),
        NormalAction::ModeChange(Mode::Insert)
    );
    assert_eq!(
        nm.handle_key(key('v'), &mut c, &mut b),
        NormalAction::ModeChange(Mode::Visual(VisualType::Character))
    );
    assert_eq!(
        nm.handle_key(key(':'), &mut c, &mut b),
        NormalAction::ModeChange(Mode::Command)
    );
    assert_eq!(nm.handle_key(key('/'), &mut c, &mut b), NormalAction::StartSearch(true));
    assert_eq!(nm.handle_key(key('n'), &mut c, &mut b), NormalAction::NextMatch);
}

#[test]
fn normal_mode_gg_and_g_jump_to_first_and_last_line() {
    let mut nm = NormalMode::new();
    let mut b = Buffer::from_text("a\nb\nc", None);
    let mut c = Cursor { line: 1, col: 0, desired_col: 0 };
    nm.handle_key(key('G'), &mut c, &mut b);
    assert_eq!(c.line, 2);
    nm.handle_key(key('g'), &mut c, &mut b);
    nm.handle_key(key('g'), &mut c, &mut b);
    assert_eq!(c.line, 0);
}

#[test]
fn normal_mode_o_opens_a_line_below() {
    let mut nm = NormalMode::new();
    let mut b = Buffer::from_text("top", None);
    let mut c = Cursor::new();
    let r = nm.handle_key(key('o'), &mut c, &mut b);
    assert_eq!(r, NormalAction::ModeChange(Mode::Insert));
    assert_eq!(b.line_count(), 2);
    assert_eq!(line_str(&b, 1), "");
    assert_eq!((c.line, c.col), (1, 0));
}

#[test]
fn visual_mode_character_delete_removes_the_span() {
    let mut b = Buffer::from_text("abcdef", None);
    let mut c = Cursor { line: 0, col: 1, desired_col: 1 };
    let mut vm = VisualMode::new(VisualType::Character, &c);
    vm.handle_key(key('l'), &mut c, &mut b);
    vm.handle_key(key('l'), &mut c, &mut b);
    let r = vm.handle_key(key('d'), &mut c, &mut b);
    assert_eq!(r, Some(Mode::Normal));
    assert_eq!(line_str(&b, 0), "aef");
    assert_eq!(c.col, 1);
}

#[test]
fn visual_mode_line_delete_removes_whole_lines() {
    let mut b = Buffer::from_text("a\nb\nc", None);
    let mut c = Cursor::new();
    let mut vm = VisualMode::new(VisualType::Line, &c);
    vm.handle_key(key('j'), &mut c, &mut b);
    let r = vm.handle_key(key('d'), &mut c, &mut b);
    assert_eq!(r, Some(Mode::Normal));
    assert_eq!(b.line_count(), 1);
    assert_eq!(line_str(&b, 0), "c");
    assert_eq!((c.line, c.col), (0, 0));
}

#[test]
fn visual_mode_selection_is_normalized() {
    let c = Cursor { line: 0, col: 1, desired_col: 1 };
    let vm = VisualMode::new(VisualType::Character, &Cursor { line: 2, col: 5, desired_col: 5 });
    let (sl, sc, el, ec) = vm.get_selection(&c);
    assert_eq!((sl, sc, el, ec), (0, 1, 2, 5));
}

#[test]
fn command_mode_collects_input() {
    let mut cm = CommandMode::new();
    assert!(cm.handle_key(key('w')).is_none());
    assert!(cm.handle_key(key('q')).is_none());
    assert_eq!(cm.input(), "wq");
    cm.handle_key(KeyInput::plain(Key::Backspace));
    assert_eq!(cm.input(), "w");
    match cm.handle_key(KeyInput::plain(Key::Enter)) {
        Some(CommandResult::Execute(cmd)) => assert_eq!(cmd, "w"),
        other => panic!("expected an execute result, got {:?}", other.is_some()),
    }
    match cm.handle_key(KeyInput::plain(Key::Esc)) {
        Some(CommandResult::Cancel) => {},
        _ => panic!("expected a cancel result"),
    }
    cm.clear();
    assert_eq!(cm.input(), "");
}

#[test]
fn execute_command_parses_every_form() {
    assert!(matches!(execute_command(""), CommandAction::NoOp));
    assert!(matches!(execute_command("q"), CommandAction::Quit));
    assert!(matches!(execute_command(" quit "), CommandAction::Quit));
    assert!(matches!(execute_command("q!"), CommandAction::ForceQuit));
    assert!(matches!(execute_command("w"), CommandAction::Write));
    assert!(matches!(execute_command("wq"), CommandAction::WriteQuit));
    assert!(matches!(execute_command("x"), CommandAction::WriteQuit));
    match execute_command("w out.txt") {
        CommandAction::WriteAs(p) => assert_eq!(p, "out.txt"),
        _ => panic!("expected a write-as action"),
    }
    match execute_command("e in.txt") {
        CommandAction::Edit(p) => assert_eq!(p, "in.txt"),
        _ => panic!("expected an edit action"),
    }
    assert!(matches!(execute_command("split"), CommandAction::SplitHorizontal(None)));
    assert!(matches!(execute_command("sp"), CommandAction::SplitHorizontal(None)));
    assert!(matches!(execute_command("vsplit"), CommandAction::SplitVertical(None)));
    match execute_command("split notes.md") {
        CommandAction::SplitHorizontal(Some(p)) => assert_eq!(p, "notes.md"),
        _ => panic!("expected a split with a path"),
    }
    match execute_command("vs notes.md") {
        CommandAction::SplitVertical(Some(p)) => assert_eq!(p, "notes.md"),
        _ => panic!("expected a vertical split with a path"),
    }
    assert!(matches!(execute_command("close"), CommandAction::CloseWindow));
    assert!(matches!(execute_command("only"), CommandAction::CloseOtherWindows));
    match execute_command("bogus") {
        CommandAction::Error(m) => assert_eq!(m, "Unknown command: bogus"),
        _ => panic!("expected an error action"),
    }
}
