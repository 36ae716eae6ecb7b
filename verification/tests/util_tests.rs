use avim::buffer::Buffer;
use avim::config::{default_color_scheme, default_tab_size, default_true, Config};
use avim::cursor::Cursor;
use avim::executor::CommandExecutor;
use avim::gap_buffer::GapBuffer;
use avim::key::{Key, KeyInput};
use avim::keymap::KeyMap;
use avim::line::Line;
use avim::mode::{Mode, VisualType};
use avim::search::SearchState;
use avim::statusline::StatusLine;

fn chars(s: &str) -> Vec<char> {
    s.chars().collect()
}

#[test]
fn gap_buffer_edits_at_the_gap() {
    let mut g = GapBuffer::from_string("hello");
    assert_eq!(g.len(), 5);
    g.move_gap(2);
    g.insert('X');
    assert_eq!(g.to_string(), "heXllo");
    g.backspace();
    assert_eq!(g.to_string(), "hello");
    g.delete();
    assert_eq!(g.to_string(), "helo");
}

#[test]
fn gap_buffer_grows_past_its_initial_gap() {
    let mut g = GapBuffer::new();
    assert!(g.is_empty());
    for i in 0..40 {
        g.insert(if i % 2 == 0 { 'a' } else { 'b' });
    }
    assert_eq!(g.len(), 40);
    assert_eq!(g.to_string().len(), 40);
}

#[test]
fn gap_buffer_move_gap_keeps_the_text() {
    let mut g = GapBuffer::from_string("abcdef");
    g.move_gap(0);
    assert_eq!(g.to_string(), "abcdef");
    g.move_gap(6);
    assert_eq!(g.to_string(), "abcdef");
    g.move_gap(3);
    g.insert('-');
    assert_eq!(g.to_string(), "abc-def");
}

#[test]
fn line_edits_track_the_dirty_flag() {
    let mut l = Line::new(chars("ab"));
    assert_eq!(l.len(), 2);
    assert!(!l.is_dirty());
    l.insert(1, 'x');
    assert_eq!(l.content(), &chars("axb"));
    assert!(l.is_dirty());
    let removed = l.remove(0);
    assert_eq!(removed, 'a');
    assert_eq!(l.content(), &chars("xb"));
    l.mark_clean();
    assert!(!l.is_dirty());
    assert!(!l.is_empty());
}

#[test]
fn cursor_motions_follow_the_buffer() {
    let b = Buffer::from_text("hello\nhi", None);
    let mut c = Cursor::new();
    c.move_line_end(&b);
    assert_eq!(c.col, 5);
    c.move_down(&b);
    // the column clamps to the shorter line but the desired column sticks
    assert_eq!((c.line, c.col), (1, 2));
    c.move_up(&b);
    assert_eq!((c.line, c.col), (0, 5));
    c.move_line_start();
    assert_eq!(c.col, 0);
}

#[test]
fn cursor_word_motions() {
    let b = Buffer::from_text("foo  bar baz", None);
    let mut c = Cursor::new();
    c.move_word_forward(&b);
    assert_eq!(c.col, 5);
    c.move_word_forward(&b);
    assert_eq!(c.col, 9);
    c.move_word_backward(&b);
    assert_eq!(c.col, 5);
    c.move_word_backward(&b);
    assert_eq!(c.col, 0);
}

#[test]
fn search_finds_all_matches_in_order() {
    let b = Buffer::from_text("abab\nxxabx", None);
    let mut s = SearchState::new();
    s.search(&b, "ab", true);
    assert_eq!(s.match_count(), 3);
    assert_eq!(s.current(), Some((0, 0)));
    assert_eq!(s.next_match(), Some((0, 2)));
    assert_eq!(s.next_match(), Some((1, 2)));
    assert_eq!(s.next_match(), Some((0, 0)));
    assert_eq!(s.prev_match(), Some((1, 2)));
    assert!(s.is_active());
    s.clear();
    assert!(!s.is_active());
    assert_eq!(s.match_count(), 0);
}

#[test]
fn search_finds_overlapping_matches() {
    let b = Buffer::from_text("aaa", None);
    let mut s = SearchState::new();
    s.search(&b, "aa", true);
    assert_eq!(s.match_count(), 2);
}

#[test]
fn backward_search_steps_the_other_way() {
    let b = Buffer::from_text("x x x", None);
    let mut s = SearchState::new();
    s.search(&b, "x", false);
    assert_eq!(s.match_count(), 3);
    assert_eq!(s.next_match(), Some((0, 4)));
}

#[test]
fn empty_query_matches_nothing() {
    let b = Buffer::from_text("abc", None);
    let mut s = SearchState::new();
    s.search(&b, "", true);
    assert_eq!(s.match_count(), 0);
    assert_eq!(s.current(), None);
    assert_eq!(s.next_match(), None);
}

#[test]
fn keymap_stores_and_replaces_bindings() {
    let mut m = KeyMap::new();
    assert!(m.get_mapping("C-s").is_none());
    m.add_mapping("C-s", "save");
    assert_eq!(m.get_mapping("C-s").map(|s| s.as_str()), Some("save"));
    m.add_mapping("C-s", "sync");
    assert_eq!(m.get_mapping("C-s").map(|s| s.as_str()), Some("sync"));
}

#[test]
fn key_names_include_modifier_prefixes() {
    let plain = KeyInput::plain(Key::Char('s'));
    assert_eq!(KeyMap::key_to_string(&plain), "s");
    let ctrl = KeyInput { code: Key::Char('s'), ctrl: true, alt: false, shift: false };
    assert_eq!(KeyMap::key_to_string(&ctrl), "C-s");
    let esc = KeyInput::plain(Key::Esc);
    assert_eq!(KeyMap::key_to_string(&esc), "Esc");
    let all = KeyInput { code: Key::Tab, ctrl: true, alt: true, shift: true };
    assert_eq!(KeyMap::key_to_string(&all), "C-A-S-Tab");
}

#[test]
fn config_defaults_are_documented_values() {
    assert_eq!(default_tab_size(), 4);
    assert!(default_true());
    assert_eq!(default_color_scheme(), "default");
    let c = Config::default();
    assert_eq!(c.editor.tab_size, 4);
    assert!(!c.editor.expand_tabs);
    assert!(c.editor.auto_indent);
    assert!(c.editor.line_numbers);
    assert_eq!(c.ui.color_scheme, "default");
    assert!(c.ui.show_status_line);
    assert!(c.keybindings.is_empty());
}

#[test]
fn mode_names() {
    assert_eq!(Mode::Normal.name(), "NORMAL");
    assert_eq!(Mode::Insert.name(), "INSERT");
    assert_eq!(Mode::Visual(VisualType::Character).name(), "VISUAL");
    assert_eq!(Mode::Visual(VisualType::Line).name(), "VISUAL LINE");
    assert_eq!(Mode::Visual(VisualType::Block).name(), "VISUAL BLOCK");
    assert_eq!(Mode::Command.name(), "COMMAND");
}

#[test]
fn status_line_pads_between_the_two_segments() {
    let b = Buffer::new();
    let c = Cursor::new();
    let s = StatusLine::new(&Mode::Normal, &b, &c);
    let rendered = s.render(30);
    assert_eq!(rendered, " NORMAL [No Name]     1:1 1/1 ");
    assert_eq!(rendered.len(), 30);
}

#[test]
fn status_line_shows_path_and_modified_marker() {
    let mut b = Buffer::from_text("x", Some("f.txt".to_string()));
    b.insert_char(0, 0, 'y');
    let c = Cursor::new();
    let s = StatusLine::new(&Mode::Insert, &b, &c);
    let rendered = s.render(0);
    assert_eq!(rendered, " INSERT f.txt [+] 1:1 1/1 ");
}

type Cmd = fn(&[&str]) -> Result<String, String>;

fn greet(_args: &[&str]) -> Result<String, String> {
    Ok("hi".to_string())
}

fn greet_warmly(_args: &[&str]) -> Result<String, String> {
    Ok("hello there".to_string())
}

#[test]
fn executor_runs_registered_commands_and_rejects_unknown_names() {
    let mut e: CommandExecutor<Cmd> = CommandExecutor::new();
    assert_eq!(e.execute("greet", &[]), Err("Unknown command: greet".to_string()));
    e.register_command("greet", greet);
    assert_eq!(e.execute("greet", &[]), Ok("hi".to_string()));
    assert_eq!(e.execute("other", &[]), Err("Unknown command: other".to_string()));
}

#[test]
fn executor_re_registration_replaces_the_binding() {
    let mut e: CommandExecutor<Cmd> = CommandExecutor::new();
    e.register_command("greet", greet);
    e.register_command("greet", greet_warmly);
    // the most recent registration wins
    assert_eq!(e.execute("greet", &[]), Ok("hello there".to_string()));
}
