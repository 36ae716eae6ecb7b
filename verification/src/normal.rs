//! Normal mode: motions, operators (delete, change, yank), line
//! operations, paste, undo and redo, and the keys that start searches or
//! other modes.

use vstd::prelude::*;
use crate::buffer::{
    apply_edit, spec_redo, spec_undo, Buffer, BufView, EditOp,
};
use crate::cursor::{
    lemma_word_forward_bounds, spec_move_left, spec_move_line_end, spec_move_line_start,
    spec_move_down, spec_move_right, spec_move_to_line, spec_move_up, spec_move_word_backward,
    spec_move_word_forward, Cursor,
};
use crate::key::{Key, KeyInput};
use crate::mode::{Mode, VisualType};
use crate::text::{copy_chars_vec, copy_prefix_suffix, copy_range};

verus! {

/// A pending operator awaiting its motion.
#[derive(Debug, Clone, Copy, PartialEq, Eq, Structural)]
pub enum Operator {
    Delete,
    Change,
    Yank,
}

/// What the caller should do after a key in normal mode.
#[derive(Debug, Clone, Copy, PartialEq, Eq, Structural)]
pub enum NormalAction {
    NoOp,
    ModeChange(Mode),
    StartSearch(bool),
    NextMatch,
    PrevMatch,
}

/// Mathematical image of the normal-mode state.
#[verifier::ext_equal]
pub ghost struct NormalView {
    pub pending: Option<char>,
    pub operator: Option<Operator>,
    pub yank: Seq<Seq<char>>,
}

pub struct NormalMode {
    pending_operator: Option<char>,
    yank_register: Vec<Vec<char>>,
    operator: Option<Operator>,
}

impl View for NormalMode {
    type V = NormalView;

    closed spec fn view(&self) -> NormalView {
        NormalView {
            pending: self.pending_operator,
            operator: self.operator,
            yank: Seq::new(self.yank_register@.len(), |i: int| self.yank_register@[i]@),
        }
    }
}

/// The line at an index, or the empty line out of range.
pub open spec fn line_at(b: BufView, line: usize) -> Seq<char> {
    if line < b.lines.len() {
        b.lines[line as int]
    } else {
        Seq::empty()
    }
}

/// The length of the line at an index, or zero out of range: the column
/// the end-of-line operations use.
pub open spec fn line_len_at(b: BufView, line: usize) -> usize {
    line_at(b, line).len() as usize
}

/// Removing the columns `start .. min(end, line length)` from one line,
/// bypassing the undo stack (direct line editing); nothing happens when
/// the line is missing or `start` is past its end.
pub open spec fn drain_cols(b: BufView, line: usize, start: usize, end: usize) -> BufView {
    if line < b.lines.len() && start < b.lines[line as int].len() {
        let s = b.lines[line as int];
        let to: int = if end < s.len() {
            end as int
        } else {
            s.len() as int
        };
        BufView { lines: b.lines.update(line as int, s.take(start as int) + s.skip(to)), ..b }
    } else {
        b
    }
}

/// The characters such a removal takes out (the empty sequence when it
/// removes nothing).
pub open spec fn drained_cols(b: BufView, line: usize, start: usize, end: usize) -> Seq<char> {
    if line < b.lines.len() && start < b.lines[line as int].len() {
        let s = b.lines[line as int];
        let to: int = if end < s.len() {
            end as int
        } else {
            s.len() as int
        };
        s.subrange(start as int, to)
    } else {
        Seq::empty()
    }
}

/// Overwriting one line wholesale (a no-op out of range), bypassing the
/// undo stack.
pub open spec fn set_line(b: BufView, line: usize, content: Seq<char>) -> BufView {
    if line < b.lines.len() {
        BufView { lines: b.lines.update(line as int, content), ..b }
    } else {
        b
    }
}

/// Pasting the register lines below: for the `k`-th item, a new line is
/// opened after line `start + k` and overwritten with the item.
pub open spec fn paste_below(b: BufView, start: usize, items: Seq<Seq<char>>, k: nat) -> BufView
    decreases items.len() - k,
{
    if k >= items.len() {
        b
    } else {
        let l = (start + k) as usize;
        let b1 = apply_edit(
            EditOp::InsertNewline { line: l, col: line_len_at(b, l) },
            b,
        );
        let b2 = set_line(b1, (l + 1) as usize, items[k as int]);
        paste_below(b2, start, items, k + 1)
    }
}

/// Pasting the register lines above: for the `k`-th item, a new line is
/// opened at line `start + k` and overwritten with the item.
pub open spec fn paste_above(b: BufView, start: usize, items: Seq<Seq<char>>, k: nat) -> BufView
    decreases items.len() - k,
{
    if k >= items.len() {
        b
    } else {
        let l = (start + k) as usize;
        let b1 = apply_edit(EditOp::InsertNewline { line: l, col: 0 }, b);
        let b2 = set_line(b1, l, items[k as int]);
        paste_above(b2, start, items, k + 1)
    }
}

/// What one key does in normal mode: the new mode state, cursor, buffer
/// and the action handed back to the caller.
pub open spec fn normal_transition(nm: NormalView, key: KeyInput, c: Cursor, b: BufView) -> (
    NormalView,
    Cursor,
    BufView,
    NormalAction,
) {
    if key.code == Key::Char('r') && key.ctrl {
        let (b2, r) = spec_redo(b);
        let c2 = match r {
            Some(pos) => Cursor { line: pos.0, col: pos.1, desired_col: pos.1 },
            None => c,
        };
        (nm, c2, b2, NormalAction::NoOp)
    } else {
        match key.code {
            Key::Char(ch) => normal_char_transition(nm, ch, c, b),
            _ => (
                NormalView { pending: None, operator: None, ..nm },
                c,
                b,
                NormalAction::NoOp,
            ),
        }
    }
}

/// The `Char` arm of `normal_transition`, key by key.
pub open spec fn normal_char_transition(nm: NormalView, ch: char, c: Cursor, b: BufView) -> (
    NormalView,
    Cursor,
    BufView,
    NormalAction,
) {
    if ch == 'h' {
        (nm, spec_move_left(c), b, NormalAction::NoOp)
    } else if ch == 'j' {
        (nm, spec_move_down(c, b.lines), b, NormalAction::NoOp)
    } else if ch == 'k' {
        (nm, spec_move_up(c, b.lines), b, NormalAction::NoOp)
    } else if ch == 'l' {
        (nm, spec_move_right(c, b.lines), b, NormalAction::NoOp)
    } else if ch == 'i' {
        (nm, c, b, NormalAction::ModeChange(Mode::Insert))
    } else if ch == 'I' {
        (nm, spec_move_line_start(c), b, NormalAction::ModeChange(Mode::Insert))
    } else if ch == 'a' {
        (nm, spec_move_right(c, b.lines), b, NormalAction::ModeChange(Mode::Insert))
    } else if ch == 'A' {
        (nm, spec_move_line_end(c, b.lines), b, NormalAction::ModeChange(Mode::Insert))
    } else if ch == 'o' {
        let c1 = spec_move_line_end(c, b.lines);
        let b1 = apply_edit(
            EditOp::InsertNewline { line: c1.line, col: line_len_at(b, c1.line) },
            b,
        );
        (
            nm,
            Cursor { line: (c1.line + 1) as usize, col: 0, desired_col: 0 },
            b1,
            NormalAction::ModeChange(Mode::Insert),
        )
    } else if ch == 'O' {
        let c1 = spec_move_line_start(c);
        let b1 = apply_edit(EditOp::InsertNewline { line: c1.line, col: 0 }, b);
        (
            nm,
            Cursor { line: c1.line, col: 0, desired_col: 0 },
            b1,
            NormalAction::ModeChange(Mode::Insert),
        )
    } else if ch == 'w' {
        match nm.operator {
            Some(op) => {
                let start_col = c.col;
                let end_col = spec_move_word_forward(c, b.lines).col;
                let b2 = drain_cols(b, c.line, start_col, end_col);
                let deleted = drained_cols(b, c.line, start_col, end_col);
                let removed = c.line < b.lines.len() && start_col < b.lines[c.line as int].len();
                let yank2: Seq<Seq<char>> = if removed && (op == Operator::Yank
                    || op == Operator::Change) {
                    seq![deleted]
                } else {
                    nm.yank
                };
                let c2 = Cursor { line: c.line, col: start_col, desired_col: start_col };
                let action = if op == Operator::Change {
                    NormalAction::ModeChange(Mode::Insert)
                } else {
                    NormalAction::NoOp
                };
                (NormalView { operator: None, yank: yank2, ..nm }, c2, b2, action)
            },
            None => (nm, spec_move_word_forward(c, b.lines), b, NormalAction::NoOp),
        }
    } else if ch == 'b' {
        (nm, spec_move_word_backward(c, b.lines), b, NormalAction::NoOp)
    } else if ch == '0' {
        (nm, spec_move_line_start(c), b, NormalAction::NoOp)
    } else if ch == '$' {
        match nm.operator {
            Some(op) => {
                let start_col = c.col;
                let end_col = line_len_at(b, c.line);
                let b2 = drain_cols(b, c.line, start_col, end_col);
                let deleted = drained_cols(b, c.line, start_col, end_col);
                let removed = c.line < b.lines.len() && start_col < b.lines[c.line as int].len();
                let yank2: Seq<Seq<char>> = if removed && (op == Operator::Yank
                    || op == Operator::Change) {
                    seq![deleted]
                } else {
                    nm.yank
                };
                let action = if op == Operator::Change {
                    NormalAction::ModeChange(Mode::Insert)
                } else {
                    NormalAction::NoOp
                };
                (NormalView { operator: None, ..nm.with_yank(yank2) }, c, b2, action)
            },
            None => (nm, spec_move_line_end(c, b.lines), b, NormalAction::NoOp),
        }
    } else if ch == 'g' {
        if nm.pending == Some('g') {
            (
                NormalView { pending: None, ..nm },
                spec_move_to_line(c, 0, b.lines),
                b,
                NormalAction::NoOp,
            )
        } else {
            (NormalView { pending: Some('g'), ..nm }, c, b, NormalAction::NoOp)
        }
    } else if ch == 'G' {
        let last: usize = if b.lines.len() > 0 {
            (b.lines.len() - 1) as usize
        } else {
            0
        };
        (nm, spec_move_to_line(c, last, b.lines), b, NormalAction::NoOp)
    } else if ch == 'x' {
        (
            nm,
            c,
            apply_edit(EditOp::DeleteChar { line: c.line, col: c.col }, b),
            NormalAction::NoOp,
        )
    } else if ch == 'J' {
        (nm, c, apply_edit(EditOp::JoinLines { line: c.line }, b), NormalAction::NoOp)
    } else if ch == 'c' {
        if nm.pending == Some('c') {
            let applies = crate::buffer::edit_applies(EditOp::DeleteLine { line: c.line }, b.lines);
            if applies {
                let b1 = apply_edit(EditOp::DeleteLine { line: c.line }, b);
                let l0: usize = if c.line > 0 {
                    (c.line - 1) as usize
                } else {
                    0
                };
                let b2 = apply_edit(
                    EditOp::InsertNewline { line: l0, col: line_len_at(b1, l0) },
                    b1,
                );
                (
                    NormalView { pending: None, ..nm },
                    Cursor { line: c.line, col: 0, desired_col: 0 },
                    b2,
                    NormalAction::ModeChange(Mode::Insert),
                )
            } else {
                (
                    NormalView { pending: None, ..nm },
                    c,
                    b,
                    NormalAction::ModeChange(Mode::Insert),
                )
            }
        } else if nm.operator is Some {
            (NormalView { operator: None, ..nm }, c, b, NormalAction::NoOp)
        } else {
            (
                NormalView { operator: Some(Operator::Change), pending: Some('c'), ..nm },
                c,
                b,
                NormalAction::NoOp,
            )
        }
    } else if ch == 'd' {
        if nm.pending == Some('d') {
            let applies = crate::buffer::edit_applies(EditOp::DeleteLine { line: c.line }, b.lines);
            let removed_line = b.lines[if b.lines.len() > 1 {
                c.line as int
            } else {
                0
            }];
            let yank2: Seq<Seq<char>> = if applies {
                seq![removed_line]
            } else {
                nm.yank
            };
            (
                NormalView { pending: None, operator: None, yank: yank2 },
                c,
                apply_edit(EditOp::DeleteLine { line: c.line }, b),
                NormalAction::NoOp,
            )
        } else if nm.operator is Some {
            (NormalView { operator: None, ..nm }, c, b, NormalAction::NoOp)
        } else {
            (
                NormalView { operator: Some(Operator::Delete), pending: Some('d'), ..nm },
                c,
                b,
                NormalAction::NoOp,
            )
        }
    } else if ch == 'y' {
        if nm.pending == Some('y') {
            let yank2: Seq<Seq<char>> = if c.line < b.lines.len() {
                seq![b.lines[c.line as int]]
            } else {
                nm.yank
            };
            (
                NormalView { pending: None, operator: None, yank: yank2 },
                c,
                b,
                NormalAction::NoOp,
            )
        } else if nm.operator is Some {
            (NormalView { operator: None, ..nm }, c, b, NormalAction::NoOp)
        } else {
            (
                NormalView { operator: Some(Operator::Yank), pending: Some('y'), ..nm },
                c,
                b,
                NormalAction::NoOp,
            )
        }
    } else if ch == 'p' {
        if nm.yank.len() > 0 {
            let b2 = paste_below(b, c.line, nm.yank, 0);
            (
                nm,
                Cursor { line: (c.line + 1) as usize, col: c.col, desired_col: c.desired_col },
                b2,
                NormalAction::NoOp,
            )
        } else {
            (nm, c, b, NormalAction::NoOp)
        }
    } else if ch == 'P' {
        if nm.yank.len() > 0 {
            (nm, c, paste_above(b, c.line, nm.yank, 0), NormalAction::NoOp)
        } else {
            (nm, c, b, NormalAction::NoOp)
        }
    } else if ch == 'v' {
        (nm, c, b, NormalAction::ModeChange(Mode::Visual(VisualType::Character)))
    } else if ch == 'V' {
        (nm, c, b, NormalAction::ModeChange(Mode::Visual(VisualType::Line)))
    } else if ch == 'u' {
        let (b2, r) = spec_undo(b);
        let c2 = match r {
            Some(pos) => Cursor { line: pos.0, col: pos.1, desired_col: pos.1 },
            None => c,
        };
        (nm, c2, b2, NormalAction::NoOp)
    } else if ch == '/' {
        (nm, c, b, NormalAction::StartSearch(true))
    } else if ch == '?' {
        (nm, c, b, NormalAction::StartSearch(false))
    } else if ch == 'n' {
        (nm, c, b, NormalAction::NextMatch)
    } else if ch == 'N' {
        (nm, c, b, NormalAction::PrevMatch)
    } else if ch == ':' {
        (nm, c, b, NormalAction::ModeChange(Mode::Command))
    } else {
        (NormalView { pending: None, operator: None, ..nm }, c, b, NormalAction::NoOp)
    }
}

impl NormalView {
    /// The same state with another yank register.
    pub open spec fn with_yank(self, yank: Seq<Seq<char>>) -> NormalView {
        NormalView { yank, ..self }
    }
}

impl NormalMode {
    pub fn new() -> (m: NormalMode)
        ensures
            m@.pending is None,
            m@.operator is None,
            m@.yank.len() == 0,
    {
        NormalMode { pending_operator: None, yank_register: Vec::new(), operator: None }
    }

    /// The most recently yanked or deleted lines.
    pub fn yank_register(&self) -> (r: &Vec<Vec<char>>)
        ensures
            r@.len() == self@.yank.len(),
            forall|i: int| 0 <= i < r@.len() ==> #[trigger] r@[i]@ == self@.yank[i],
    {
        &self.yank_register
    }

    /// Applies one key press; see `normal_transition` for what each key
    /// does.
    #[verifier::rlimit(100)]
    pub fn handle_key(&mut self, key: KeyInput, cursor: &mut Cursor, buffer: &mut Buffer) -> (r:
        NormalAction)
        requires
            old(buffer).wf(),
            old(cursor).line < usize::MAX / 4,
            old(cursor).col < usize::MAX / 4,
            old(self)@.yank.len() < usize::MAX / 4,
            old(cursor).line < old(buffer)@.lines.len()
                ==> old(buffer)@.lines[old(cursor).line as int].len() < usize::MAX / 2,
        ensures
            final(buffer).wf(),
            (final(self)@, *final(cursor), final(buffer)@, r)
                == normal_transition(old(self)@, key, *old(cursor), old(buffer)@),
    {
        if key.code == Key::Char('r') && key.ctrl {
            match buffer.redo() {
                Some(pos) => {
                    cursor.line = pos.0;
                    cursor.col = pos.1;
                    cursor.desired_col = pos.1;
                },
                None => {},
            }
            return NormalAction::NoOp;
        }

        let ch = match key.code {
            Key::Char(c) => c,
            _ => {
                self.pending_operator = None;
                self.operator = None;
                proof {
                    assert(self@ =~= (NormalView {
                        pending: None,
                        operator: None,
                        ..old(self)@
                    }));
                }
                return NormalAction::NoOp;
            },
        };

        if ch == 'h' {
            cursor.move_left(buffer);
            NormalAction::NoOp
        } else if ch == 'j' {
            cursor.move_down(buffer);
            NormalAction::NoOp
        } else if ch == 'k' {
            cursor.move_up(buffer);
            NormalAction::NoOp
        } else if ch == 'l' {
            cursor.move_right(buffer);
            NormalAction::NoOp
        } else if ch == 'i' {
            NormalAction::ModeChange(Mode::Insert)
        } else if ch == 'I' {
            cursor.move_line_start();
            NormalAction::ModeChange(Mode::Insert)
        } else if ch == 'a' {
            cursor.move_right(buffer);
            NormalAction::ModeChange(Mode::Insert)
        } else if ch == 'A' {
            cursor.move_line_end(buffer);
            NormalAction::ModeChange(Mode::Insert)
        } else if ch == 'o' {
            cursor.move_line_end(buffer);
            let col = match buffer.get_line(cursor.line) {
                Some(l) => l.len(),
                None => 0,
            };
            buffer.insert_newline(cursor.line, col);
            cursor.line += 1;
            cursor.col = 0;
            cursor.desired_col = 0;
            NormalAction::ModeChange(Mode::Insert)
        } else if ch == 'O' {
            cursor.move_line_start();
            buffer.insert_newline(cursor.line, 0);
            cursor.col = 0;
            cursor.desired_col = 0;
            NormalAction::ModeChange(Mode::Insert)
        } else if ch == 'w' {
            match self.operator {
                Some(op) => {
                    let start_col = cursor.col;
                    cursor.move_word_forward(buffer);
                    let end_col = cursor.col;
                    proof {
                        if old(cursor).line < old(buffer)@.lines.len() {
                            lemma_word_forward_bounds(
                                old(buffer)@.lines[old(cursor).line as int],
                                old(cursor).col as int,
                            );
                        }
                    }
                    let removed = self.drain_line(buffer, cursor.line, start_col, end_col, op);
                    cursor.col = start_col;
                    cursor.desired_col = start_col;
                    self.operator = None;
                    proof {
                        let (nm2, c2, b2, a2) = normal_char_transition(
                            old(self)@,
                            'w',
                            *old(cursor),
                            old(buffer)@,
                        );
                        assert(self@ =~= nm2);
                    }
                    if op == Operator::Change {
                        NormalAction::ModeChange(Mode::Insert)
                    } else {
                        NormalAction::NoOp
                    }
                },
                None => {
                    cursor.move_word_forward(buffer);
                    NormalAction::NoOp
                },
            }
        } else if ch == 'b' {
            cursor.move_word_backward(buffer);
            NormalAction::NoOp
        } else if ch == '0' {
            cursor.move_line_start();
            NormalAction::NoOp
        } else if ch == '$' {
            match self.operator {
                Some(op) => {
                    let start_col = cursor.col;
                    let end_col = match buffer.get_line(cursor.line) {
                        Some(l) => l.len(),
                        None => 0,
                    };
                    let removed = self.drain_line(buffer, cursor.line, start_col, end_col, op);
                    self.operator = None;
                    proof {
                        let (nm2, c2, b2, a2) = normal_char_transition(
                            old(self)@,
                            '$',
                            *old(cursor),
                            old(buffer)@,
                        );
                        assert(self@ =~= nm2);
                    }
                    if op == Operator::Change {
                        NormalAction::ModeChange(Mode::Insert)
                    } else {
                        NormalAction::NoOp
                    }
                },
                None => {
                    cursor.move_line_end(buffer);
                    NormalAction::NoOp
                },
            }
        } else if ch == 'g' {
            let is_gg = match self.pending_operator {
                Some(p) => p == 'g',
                None => false,
            };
            if is_gg {
                cursor.move_to_line(0, buffer);
                self.pending_operator = None;
                proof {
                    assert(self@ =~= (NormalView { pending: None, ..old(self)@ }));
                }
            } else {
                self.pending_operator = Some('g');
                proof {
                    assert(self@ =~= (NormalView { pending: Some('g'), ..old(self)@ }));
                }
            }
            NormalAction::NoOp
        } else if ch == 'G' {
            let count = buffer.line_count();
            let last = if count > 0 {
                count - 1
            } else {
                0
            };
            cursor.move_to_line(last, buffer);
            NormalAction::NoOp
        } else if ch == 'x' {
            buffer.delete_char(cursor.line, cursor.col);
            NormalAction::NoOp
        } else if ch == 'J' {
            buffer.join_lines(cursor.line);
            NormalAction::NoOp
        } else if ch == 'c' {
            let is_cc = match self.pending_operator {
                Some(p) => p == 'c',
                None => false,
            };
            if is_cc {
                match buffer.delete_line(cursor.line) {
                    Some(_line) => {
                        let l0 = if cursor.line > 0 {
                            cursor.line - 1
                        } else {
                            0
                        };
                        let col0 = match buffer.get_line(l0) {
                            Some(l) => l.len(),
                            None => 0,
                        };
                        buffer.insert_newline(l0, col0);
                        cursor.col = 0;
                        cursor.desired_col = 0;
                    },
                    None => {},
                }
                self.pending_operator = None;
                proof {
                    assert(self@ =~= (NormalView { pending: None, ..old(self)@ }));
                }
                NormalAction::ModeChange(Mode::Insert)
            } else if self.operator.is_some() {
                self.operator = None;
                proof {
                    assert(self@ =~= (NormalView { operator: None, ..old(self)@ }));
                }
                NormalAction::NoOp
            } else {
                self.operator = Some(Operator::Change);
                self.pending_operator = Some('c');
                proof {
                    assert(self@ =~= (NormalView {
                        operator: Some(Operator::Change),
                        pending: Some('c'),
                        ..old(self)@
                    }));
                }
                NormalAction::NoOp
            }
        } else if ch == 'd' {
            let is_dd = match self.pending_operator {
                Some(p) => p == 'd',
                None => false,
            };
            if is_dd {
                match buffer.delete_line(cursor.line) {
                    Some(line) => {
                        self.yank_register = Vec::new();
                        self.yank_register.push(line);
                    },
                    None => {},
                }
                self.pending_operator = None;
                self.operator = None;
                proof {
                    let (nm2, c2, b2, a2) = normal_char_transition(
                        old(self)@,
                        'd',
                        *old(cursor),
                        old(buffer)@,
                    );
                    assert(self@ =~= nm2);
                }
                NormalAction::NoOp
            } else if self.operator.is_some() {
                self.operator = None;
                proof {
                    assert(self@ =~= (NormalView { operator: None, ..old(self)@ }));
                }
                NormalAction::NoOp
            } else {
                self.operator = Some(Operator::Delete);
                self.pending_operator = Some('d');
                proof {
                    assert(self@ =~= (NormalView {
                        operator: Some(Operator::Delete),
                        pending: Some('d'),
                        ..old(self)@
                    }));
                }
                NormalAction::NoOp
            }
        } else if ch == 'y' {
            let is_yy = match self.pending_operator {
                Some(p) => p == 'y',
                None => false,
            };
            if is_yy {
                match buffer.get_line(cursor.line) {
                    Some(line) => {
                        let copy = copy_chars_vec(line);
                        self.yank_register = Vec::new();
                        self.yank_register.push(copy);
                    },
                    None => {},
                }
                self.pending_operator = None;
                self.operator = None;
                proof {
                    let (nm2, c2, b2, a2) = normal_char_transition(
                        old(self)@,
                        'y',
                        *old(cursor),
                        old(buffer)@,
                    );
                    assert(self@ =~= nm2);
                }
                NormalAction::NoOp
            } else if self.operator.is_some() {
                self.operator = None;
                proof {
                    assert(self@ =~= (NormalView { operator: None, ..old(self)@ }));
                }
                NormalAction::NoOp
            } else {
                self.operator = Some(Operator::Yank);
                self.pending_operator = Some('y');
                proof {
                    assert(self@ =~= (NormalView {
                        operator: Some(Operator::Yank),
                        pending: Some('y'),
                        ..old(self)@
                    }));
                }
                NormalAction::NoOp
            }
        } else if ch == 'p' {
            if self.yank_register.len() > 0 {
                let ghost items = self@.yank;
                let mut k: usize = 0;
                while k < self.yank_register.len()
                    invariant
                        k <= self.yank_register@.len(),
                        self.yank_register@.len() == items.len(),
                        forall|i: int| 0 <= i < items.len()
                            ==> #[trigger] self.yank_register@[i]@ == items[i],
                        buffer.wf(),
                        cursor.line + items.len() < usize::MAX / 2,
                        paste_below(old(buffer)@, cursor.line, items, 0)
                            == paste_below(buffer@, cursor.line, items, k as nat),
                        self@ == old(self)@,
                        *cursor == *old(cursor),
                    decreases self.yank_register@.len() - k,
                {
                    let ghost before = buffer@;
                    let l = cursor.line + k;
                    let col = match buffer.get_line(l) {
                        Some(ln) => ln.len(),
                        None => 0,
                    };
                    buffer.insert_newline(l, col);
                    let item = copy_chars_vec(&self.yank_register[k]);
                    let _prev = buffer.replace_line(l + 1, item);
                    proof {
                        assert(buffer@ =~= set_line(
                            apply_edit(
                                EditOp::InsertNewline { line: l, col: line_len_at(before, l) },
                                before,
                            ),
                            (l + 1) as usize,
                            items[k as int],
                        ));
                        assert(paste_below(before, cursor.line, items, k as nat)
                            == paste_below(buffer@, cursor.line, items, k as nat + 1));
                    }
                    k += 1;
                }
                cursor.line += 1;
                NormalAction::NoOp
            } else {
                NormalAction::NoOp
            }
        } else if ch == 'P' {
            if self.yank_register.len() > 0 {
                let ghost items = self@.yank;
                let mut k: usize = 0;
                while k < self.yank_register.len()
                    invariant
                        k <= self.yank_register@.len(),
                        self.yank_register@.len() == items.len(),
                        forall|i: int| 0 <= i < items.len()
                            ==> #[trigger] self.yank_register@[i]@ == items[i],
                        buffer.wf(),
                        cursor.line + items.len() < usize::MAX / 2,
                        paste_above(old(buffer)@, cursor.line, items, 0)
                            == paste_above(buffer@, cursor.line, items, k as nat),
                        self@ == old(self)@,
                        *cursor == *old(cursor),
                    decreases self.yank_register@.len() - k,
                {
                    let ghost before = buffer@;
                    let l = cursor.line + k;
                    buffer.insert_newline(l, 0);
                    let item = copy_chars_vec(&self.yank_register[k]);
                    let _prev = buffer.replace_line(l, item);
                    proof {
                        assert(buffer@ =~= set_line(
                            apply_edit(EditOp::InsertNewline { line: l, col: 0 }, before),
                            l,
                            items[k as int],
                        ));
                        assert(paste_above(before, cursor.line, items, k as nat)
                            == paste_above(buffer@, cursor.line, items, k as nat + 1));
                    }
                    k += 1;
                }
                NormalAction::NoOp
            } else {
                NormalAction::NoOp
            }
        } else if ch == 'v' {
            NormalAction::ModeChange(Mode::Visual(VisualType::Character))
        } else if ch == 'V' {
            NormalAction::ModeChange(Mode::Visual(VisualType::Line))
        } else if ch == 'u' {
            match buffer.undo() {
                Some(pos) => {
                    cursor.line = pos.0;
                    cursor.col = pos.1;
                    cursor.desired_col = pos.1;
                },
                None => {},
            }
            NormalAction::NoOp
        } else if ch == '/' {
            NormalAction::StartSearch(true)
        } else if ch == '?' {
            NormalAction::StartSearch(false)
        } else if ch == 'n' {
            NormalAction::NextMatch
        } else if ch == 'N' {
            NormalAction::PrevMatch
        } else if ch == ':' {
            NormalAction::ModeChange(Mode::Command)
        } else {
            self.pending_operator = None;
            self.operator = None;
            proof {
                assert(self@ =~= (NormalView { pending: None, operator: None, ..old(self)@ }));
            }
            NormalAction::NoOp
        }
    }

    /// The operator-with-motion removal: drains the columns
    /// `start .. min(end, line length)` from the line and, for a yank or
    /// change operator, puts the removed text in the register.  Returns
    /// whether anything was removed.
    fn drain_line(
        &mut self,
        buffer: &mut Buffer,
        line: usize,
        start: usize,
        end: usize,
        op: Operator,
    ) -> (removed: bool)
        requires
            old(buffer).wf(),
            (line < old(buffer)@.lines.len()
                && start < old(buffer)@.lines[line as int].len()) ==> start <= end,
        ensures
            final(buffer).wf(),
            final(buffer)@ == drain_cols(old(buffer)@, line, start, end),
            removed == (line < old(buffer)@.lines.len()
                && start < old(buffer)@.lines[line as int].len()),
            final(self)@ == (NormalView {
                yank: if removed && (op == Operator::Yank || op == Operator::Change) {
                    seq![drained_cols(old(buffer)@, line, start, end)]
                } else {
                    old(self)@.yank
                },
                ..old(self)@
            }),
    {
        match buffer.get_line(line) {
            Some(line_ref) => {
                if start < line_ref.len() {
                    let len = line_ref.len();
                    let to = if end < len {
                        end
                    } else {
                        len
                    };
                    let deleted = copy_range(line_ref, start, to);
                    let new_line = copy_prefix_suffix(line_ref, start, to);
                    let _prev = buffer.replace_line(line, new_line);
                    if op == Operator::Yank || op == Operator::Change {
                        self.yank_register = Vec::new();
                        self.yank_register.push(deleted);
                        proof {
                            assert(self@.yank =~= seq![
                                drained_cols(old(buffer)@, line, start, end),
                            ]);
                            assert(self@ =~= (NormalView {
                                yank: seq![drained_cols(old(buffer)@, line, start, end)],
                                ..old(self)@
                            }));
                        }
                    }
                    proof {
                        assert(buffer@ =~= drain_cols(old(buffer)@, line, start, end));
                    }
                    true
                } else {
                    false
                }
            },
            None => false,
        }
    }
}

impl Default for NormalMode {
    fn default() -> (m: NormalMode)
        ensures
            m@.pending is None,
            m@.operator is None,
            m@.yank.len() == 0,
    {
        NormalMode::new()
    }
}

} // verus!
