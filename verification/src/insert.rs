//! Insert mode: printable keys go into the buffer at the cursor, with
//! auto-closing bracket pairs, smart pair deletion on backspace, tab
//! expansion and auto-indent on line breaks.

use vstd::prelude::*;
use crate::buffer::{apply_edit, Buffer, BufView, EditOp};
use crate::cursor::{spec_move_left, spec_move_right, spec_move_up, spec_move_down, Cursor};
use crate::key::{Key, KeyInput};
use crate::mode::Mode;

verus! {

/// The closing partner inserted after an opening character, if it has one.
pub open spec fn closing_char_spec(opening: char) -> Option<char> {
    match opening {
        '(' => Some(')'),
        '[' => Some(']'),
        '{' => Some('}'),
        '"' => Some('"'),
        '\'' => Some('\''),
        '`' => Some('`'),
        _ => None,
    }
}

/// The closing partner of the character at `pos`, if any.
pub open spec fn closing_for_deletion_spec(line: Seq<char>, pos: int) -> Option<char> {
    if 0 <= pos < line.len() {
        closing_char_spec(line[pos])
    } else {
        None
    }
}

/// The width of a line's leading run of spaces.
pub open spec fn line_indent_spec(s: Seq<char>) -> int
    decreases s.len(),
{
    if s.len() > 0 && s[0] == ' ' {
        1 + line_indent_spec(s.drop_first())
    } else {
        0
    }
}

/// The buffer after `n` spaces inserted one by one from `col` on.
pub open spec fn insert_spaces(b: BufView, line: usize, col: usize, n: nat) -> BufView
    decreases n,
{
    if n == 0 {
        b
    } else {
        insert_spaces(
            apply_edit(EditOp::InsertChar { line, col, ch: ' ' }, b),
            line,
            (col + 1) as usize,
            (n - 1) as nat,
        )
    }
}

/// The line the cursor stands on, or the empty line when it is out of
/// range (a stale cursor reads as an empty line, as the handlers do).
pub open spec fn line_at(b: BufView, line: usize) -> Seq<char> {
    if line < b.lines.len() {
        b.lines[line as int]
    } else {
        Seq::empty()
    }
}

/// What one key does in insert mode: the new cursor, the new buffer and
/// the mode to switch to, if any.
pub open spec fn insert_transition(key: KeyInput, c: Cursor, b: BufView) -> (
    Cursor,
    BufView,
    Option<Mode>,
) {
    match key.code {
        Key::Esc => (spec_move_left(c), b, Some(Mode::Normal)),
        Key::Char(ch) => {
            let b1 = apply_edit(EditOp::InsertChar { line: c.line, col: c.col, ch }, b);
            let moved = Cursor {
                line: c.line,
                col: (c.col + 1) as usize,
                desired_col: (c.col + 1) as usize,
            };
            match closing_char_spec(ch) {
                Some(closing) => {
                    let b2 = apply_edit(
                        EditOp::InsertChar {
                            line: c.line,
                            col: (c.col + 1) as usize,
                            ch: closing,
                        },
                        b1,
                    );
                    (moved, b2, None::<Mode>)
                },
                None => (moved, b1, None::<Mode>),
            }
        },
        Key::Tab => (
            Cursor {
                line: c.line,
                col: (c.col + 4) as usize,
                desired_col: (c.col + 4) as usize,
            },
            insert_spaces(b, c.line, c.col, 4),
            None::<Mode>,
        ),
        Key::Backspace => {
            if c.col > 0 {
                let line = line_at(b, c.line);
                let moved = Cursor {
                    line: c.line,
                    col: (c.col - 1) as usize,
                    desired_col: (c.col - 1) as usize,
                };
                let b1 = apply_edit(
                    EditOp::DeleteChar { line: c.line, col: (c.col - 1) as usize },
                    b,
                );
                let pair = match closing_for_deletion_spec(line, c.col - 1) {
                    Some(closing) => c.col < line.len() && line[c.col as int] == closing,
                    None => false,
                };
                if pair {
                    let b2 = apply_edit(
                        EditOp::DeleteChar { line: c.line, col: (c.col - 1) as usize },
                        b1,
                    );
                    (moved, b2, None::<Mode>)
                } else {
                    (moved, b1, None::<Mode>)
                }
            } else if c.line > 0 && c.line - 1 < b.lines.len() {
                let prev_len = b.lines[c.line - 1].len() as usize;
                let b1 = apply_edit(EditOp::JoinLines { line: (c.line - 1) as usize }, b);
                (
                    Cursor {
                        line: (c.line - 1) as usize,
                        col: prev_len,
                        desired_col: prev_len,
                    },
                    b1,
                    None::<Mode>,
                )
            } else {
                (c, b, None::<Mode>)
            }
        },
        Key::Enter => {
            let line = line_at(b, c.line);
            let base_indent = line_indent_spec(line);
            let extra: int = if c.col > 0 && c.col - 1 < line.len()
                && (line[c.col - 1] == '{' || line[c.col - 1] == '(' || line[c.col - 1] == '[') {
                4
            } else {
                0
            };
            let total = (base_indent + extra) as nat;
            let b1 = apply_edit(EditOp::InsertNewline { line: c.line, col: c.col }, b);
            let b2 = insert_spaces(b1, (c.line + 1) as usize, 0, total);
            (
                Cursor {
                    line: (c.line + 1) as usize,
                    col: total as usize,
                    desired_col: total as usize,
                },
                b2,
                None::<Mode>,
            )
        },
        Key::Left => (spec_move_left(c), b, None::<Mode>),
        Key::Right => (spec_move_right(c, b.lines), b, None::<Mode>),
        Key::Up => (spec_move_up(c, b.lines), b, None::<Mode>),
        Key::Down => (spec_move_down(c, b.lines), b, None::<Mode>),
        _ => (c, b, None::<Mode>),
    }
}

pub struct InsertMode;

impl InsertMode {
    pub fn new() -> (m: InsertMode)
    {
        InsertMode
    }

    /// Applies one key press to the cursor and buffer, returning the mode
    /// to switch to (leaving insert mode on escape).
    pub fn handle_key(key: KeyInput, cursor: &mut Cursor, buffer: &mut Buffer) -> (r: Option<
        Mode,
    >)
        requires
            old(buffer).wf(),
            old(cursor).line < usize::MAX / 2,
            old(cursor).col < usize::MAX / 2,
            old(cursor).line < old(buffer)@.lines.len()
                ==> old(buffer)@.lines[old(cursor).line as int].len() < usize::MAX / 2,
        ensures
            final(buffer).wf(),
            (*final(cursor), final(buffer)@, r)
                == insert_transition(key, *old(cursor), old(buffer)@),
    {
        match key.code {
            Key::Esc => {
                if cursor.col > 0 {
                    cursor.col -= 1;
                    cursor.desired_col = cursor.col;
                }
                Some(Mode::Normal)
            },
            Key::Char(c) => {
                match Self::get_closing_char(c) {
                    Some(closing) => {
                        buffer.insert_char(cursor.line, cursor.col, c);
                        buffer.insert_char(cursor.line, cursor.col + 1, closing);
                        cursor.col += 1;
                        cursor.desired_col = cursor.col;
                    },
                    None => {
                        buffer.insert_char(cursor.line, cursor.col, c);
                        cursor.col += 1;
                        cursor.desired_col = cursor.col;
                    },
                }
                None
            },
            Key::Tab => {
                Self::insert_n_spaces(buffer, cursor.line, cursor.col, 4);
                cursor.col += 4;
                cursor.desired_col = cursor.col;
                None
            },
            Key::Backspace => {
                if cursor.col > 0 {
                    let pair = match buffer.get_line(cursor.line) {
                        Some(current_line) => {
                            match Self::get_closing_char_for_deletion(
                                current_line,
                                cursor.col - 1,
                            ) {
                                Some(closing) => cursor.col < current_line.len()
                                    && current_line[cursor.col] == closing,
                                None => false,
                            }
                        },
                        None => false,
                    };
                    if pair {
                        buffer.delete_char(cursor.line, cursor.col - 1);
                        buffer.delete_char(cursor.line, cursor.col - 1);
                        cursor.col -= 1;
                        cursor.desired_col = cursor.col;
                    } else {
                        buffer.delete_char(cursor.line, cursor.col - 1);
                        cursor.col -= 1;
                        cursor.desired_col = cursor.col;
                    }
                } else if cursor.line > 0 {
                    match buffer.get_line(cursor.line - 1) {
                        Some(prev_line) => {
                            let prev_len = prev_line.len();
                            buffer.join_lines(cursor.line - 1);
                            cursor.line -= 1;
                            cursor.col = prev_len;
                            cursor.desired_col = cursor.col;
                        },
                        None => {},
                    }
                }
                None
            },
            Key::Enter => {
                let (base_indent, extra) = match buffer.get_line(cursor.line) {
                    Some(current_line) => {
                        let base = Self::get_line_indent(current_line);
                        let extra: usize = if cursor.col > 0
                            && cursor.col - 1 < current_line.len() {
                            let before = current_line[cursor.col - 1];
                            if before == '{' || before == '(' || before == '[' {
                                4
                            } else {
                                0
                            }
                        } else {
                            0
                        };
                        (base, extra)
                    },
                    None => {
                        proof {
                            assert(line_at(old(buffer)@, old(cursor).line)
                                =~= Seq::<char>::empty());
                        }
                        (0, 0)
                    },
                };
                buffer.insert_newline(cursor.line, cursor.col);
                cursor.line += 1;
                cursor.col = 0;
                cursor.desired_col = 0;
                let total_indent = base_indent + extra;
                Self::insert_n_spaces(buffer, cursor.line, 0, total_indent);
                cursor.col = total_indent;
                cursor.desired_col = total_indent;
                None
            },
            Key::Left => {
                cursor.move_left(buffer);
                None
            },
            Key::Right => {
                cursor.move_right(buffer);
                None
            },
            Key::Up => {
                cursor.move_up(buffer);
                None
            },
            Key::Down => {
                cursor.move_down(buffer);
                None
            },
            _ => None,
        }
    }

    /// Inserts `n` spaces one after another, starting at `col`.
    fn insert_n_spaces(buffer: &mut Buffer, line: usize, col: usize, n: usize)
        requires
            old(buffer).wf(),
            col + n <= usize::MAX,
        ensures
            final(buffer).wf(),
            final(buffer)@ == insert_spaces(old(buffer)@, line, col, n as nat),
    {
        let mut k: usize = 0;
        while k < n
            invariant
                k <= n,
                col + n <= usize::MAX,
                buffer.wf(),
                insert_spaces(old(buffer)@, line, col, n as nat)
                    == insert_spaces(buffer@, line, (col + k) as usize, (n - k) as nat),
            decreases n - k,
        {
            let ghost before = buffer@;
            buffer.insert_char(line, col + k, ' ');
            proof {
                assert(insert_spaces(before, line, (col + k) as usize, (n - k) as nat)
                    == insert_spaces(buffer@, line, (col + k + 1) as usize, (n - k - 1) as nat));
            }
            k += 1;
        }
    }

    /// The auto-closing partner of an opening character.
    fn get_closing_char(opening: char) -> (r: Option<char>)
        ensures
            r == closing_char_spec(opening),
    {
        match opening {
            '(' => Some(')'),
            '[' => Some(']'),
            '{' => Some('}'),
            '"' => Some('"'),
            '\'' => Some('\''),
            '`' => Some('`'),
            _ => None,
        }
    }

    /// The width of the line's leading run of spaces.
    fn get_line_indent(line: &Vec<char>) -> (r: usize)
        ensures
            r == line_indent_spec(line@),
            r <= line@.len(),
    {
        let mut indent: usize = 0;
        proof {
            assert(line@.skip(0) =~= line@);
        }
        while indent < line.len()
            invariant
                indent <= line@.len(),
                line_indent_spec(line@)
                    == indent + line_indent_spec(line@.skip(indent as int)),
            decreases line@.len() - indent,
        {
            if line[indent] != ' ' {
                proof {
                    reveal_with_fuel(line_indent_spec, 1);
                    assert(line_indent_spec(line@.skip(indent as int)) == 0);
                }
                return indent;
            }
            proof {
                reveal_with_fuel(line_indent_spec, 2);
                assert(line@.skip(indent as int).drop_first()
                    =~= line@.skip(indent as int + 1));
                assert(line_indent_spec(line@.skip(indent as int))
                    == 1 + line_indent_spec(line@.skip(indent as int + 1)));
            }
            indent += 1;
        }
        proof {
            reveal_with_fuel(line_indent_spec, 1);
            assert(line@.skip(indent as int) =~= Seq::<char>::empty());
        }
        indent
    }

    /// The closing partner of the character at `pos`, used to decide a
    /// pair deletion.
    fn get_closing_char_for_deletion(line: &Vec<char>, pos: usize) -> (r: Option<char>)
        ensures
            r == closing_for_deletion_spec(line@, pos as int),
    {
        if pos < line.len() {
            Self::get_closing_char(line[pos])
        } else {
            None
        }
    }
}

impl Default for InsertMode {
    fn default() -> (m: InsertMode)
    {
        InsertMode::new()
    }
}

} // verus!
