//! Visual mode: an anchored selection that motions extend and a delete
//! key removes.

use vstd::prelude::*;
use crate::buffer::{apply_edit, Buffer, BufView, EditOp};
use crate::cursor::{
    spec_move_left, spec_move_line_end, spec_move_line_start, spec_move_down, spec_move_right,
    spec_move_up, spec_move_word_backward, spec_move_word_forward, Cursor,
};
use crate::key::{Key, KeyInput};
use crate::mode::{Mode, VisualType};
use crate::text::copy_prefix_suffix;

verus! {

/// The buffer after the lines `start .. start + n` are deleted by `n`
/// repeated removals at `start` (each a no-op once out of range; the last
/// line is cleared, never removed).
pub open spec fn delete_lines(b: BufView, start: usize, n: nat) -> BufView
    decreases n,
{
    if n == 0 {
        b
    } else {
        delete_lines(apply_edit(EditOp::DeleteLine { line: start }, b), start, (n - 1) as nat)
    }
}

/// A character-wise removal of columns `lo ..= hi` (clamped into the
/// line) from one line, bypassing the undo stack as direct line editing
/// does; out-of-range positions remove nothing.
pub open spec fn char_delete(b: BufView, line: usize, lo: usize, hi: usize) -> BufView {
    if line < b.lines.len() && b.lines[line as int].len() > 0 {
        let s = b.lines[line as int];
        let hi2: int = if hi < s.len() {
            hi as int
        } else {
            s.len() - 1
        };
        if lo <= hi2 {
            BufView { lines: b.lines.update(line as int, s.take(lo as int) + s.skip(hi2 + 1)), ..b }
        } else {
            b
        }
    } else {
        b
    }
}

/// What one key does in visual mode, given the anchor of the selection.
pub open spec fn visual_transition(
    vt: VisualType,
    anchor_line: usize,
    anchor_col: usize,
    key: KeyInput,
    c: Cursor,
    b: BufView,
) -> (Cursor, BufView, Option<Mode>) {
    match key.code {
        Key::Esc => (c, b, Some(Mode::Normal)),
        Key::Char(ch) => {
            if ch == 'h' {
                (spec_move_left(c), b, None::<Mode>)
            } else if ch == 'j' {
                (spec_move_down(c, b.lines), b, None::<Mode>)
            } else if ch == 'k' {
                (spec_move_up(c, b.lines), b, None::<Mode>)
            } else if ch == 'l' {
                (spec_move_right(c, b.lines), b, None::<Mode>)
            } else if ch == 'w' {
                (spec_move_word_forward(c, b.lines), b, None::<Mode>)
            } else if ch == 'b' {
                (spec_move_word_backward(c, b.lines), b, None::<Mode>)
            } else if ch == '0' {
                (spec_move_line_start(c), b, None::<Mode>)
            } else if ch == '$' {
                (spec_move_line_end(c, b.lines), b, None::<Mode>)
            } else if ch == 'd' || ch == 'x' {
                let (c2, b2) = delete_selection_spec(vt, anchor_line, anchor_col, c, b);
                (c2, b2, Some(Mode::Normal))
            } else if ch == 'y' {
                (c, b, Some(Mode::Normal))
            } else {
                (c, b, None::<Mode>)
            }
        },
        _ => (c, b, None::<Mode>),
    }
}

/// What deleting the selection does: line-wise, all selected lines go;
/// character-wise (within one line), the selected columns go.  Block-wise
/// deletion is not implemented.
pub open spec fn delete_selection_spec(
    vt: VisualType,
    anchor_line: usize,
    anchor_col: usize,
    c: Cursor,
    b: BufView,
) -> (Cursor, BufView) {
    let start_line: usize = if anchor_line <= c.line {
        anchor_line
    } else {
        c.line
    };
    let end_line: usize = if anchor_line <= c.line {
        c.line
    } else {
        anchor_line
    };
    match vt {
        VisualType::Line => {
            let b2 = delete_lines(b, start_line, (end_line - start_line + 1) as nat);
            let last: int = if b2.lines.len() > 0 {
                b2.lines.len() - 1
            } else {
                0
            };
            let new_line: int = if start_line <= last {
                start_line as int
            } else {
                last
            };
            (
                Cursor { line: new_line as usize, col: 0, desired_col: c.desired_col },
                b2,
            )
        },
        VisualType::Character => {
            if start_line == end_line {
                let lo: usize = if anchor_col <= c.col {
                    anchor_col
                } else {
                    c.col
                };
                let hi: usize = if anchor_col <= c.col {
                    c.col
                } else {
                    anchor_col
                };
                (
                    Cursor { line: c.line, col: lo, desired_col: c.desired_col },
                    char_delete(b, start_line, lo, hi),
                )
            } else {
                (c, b)
            }
        },
        VisualType::Block => (c, b),
    }
}

pub struct VisualMode {
    visual_type: VisualType,
    start_line: usize,
    start_col: usize,
}

impl VisualMode {
    pub closed spec fn spec_visual_type(self) -> VisualType {
        self.visual_type
    }

    pub closed spec fn spec_start_line(self) -> usize {
        self.start_line
    }

    pub closed spec fn spec_start_col(self) -> usize {
        self.start_col
    }

    /// Anchors a selection at the cursor.
    pub fn new(visual_type: VisualType, cursor: &Cursor) -> (m: VisualMode)
        ensures
            m.spec_visual_type() == visual_type,
            m.spec_start_line() == cursor.line,
            m.spec_start_col() == cursor.col,
    {
        VisualMode { visual_type, start_line: cursor.line, start_col: cursor.col }
    }

    /// Applies one key press: motions move the free end of the selection,
    /// a delete key removes it, and escape leaves visual mode.
    pub fn handle_key(&mut self, key: KeyInput, cursor: &mut Cursor, buffer: &mut Buffer) -> (r:
        Option<Mode>)
        requires
            old(buffer).wf(),
            old(cursor).line < usize::MAX / 2,
            old(cursor).col < usize::MAX / 2,
            old(self).spec_start_line() < usize::MAX / 2,
        ensures
            *final(self) == *old(self),
            final(buffer).wf(),
            (*final(cursor), final(buffer)@, r) == visual_transition(
                old(self).spec_visual_type(),
                old(self).spec_start_line(),
                old(self).spec_start_col(),
                key,
                *old(cursor),
                old(buffer)@,
            ),
    {
        match key.code {
            Key::Esc => Some(Mode::Normal),
            Key::Char(ch) => {
                if ch == 'h' {
                    cursor.move_left(buffer);
                    None
                } else if ch == 'j' {
                    cursor.move_down(buffer);
                    None
                } else if ch == 'k' {
                    cursor.move_up(buffer);
                    None
                } else if ch == 'l' {
                    cursor.move_right(buffer);
                    None
                } else if ch == 'w' {
                    cursor.move_word_forward(buffer);
                    None
                } else if ch == 'b' {
                    cursor.move_word_backward(buffer);
                    None
                } else if ch == '0' {
                    cursor.move_line_start();
                    None
                } else if ch == '$' {
                    cursor.move_line_end(buffer);
                    None
                } else if ch == 'd' || ch == 'x' {
                    self.delete_selection(cursor, buffer);
                    Some(Mode::Normal)
                } else if ch == 'y' {
                    Some(Mode::Normal)
                } else {
                    None
                }
            },
            _ => None,
        }
    }

    /// Removes the selected text (see `delete_selection_spec`).
    fn delete_selection(&self, cursor: &mut Cursor, buffer: &mut Buffer)
        requires
            old(buffer).wf(),
            old(cursor).line < usize::MAX / 2,
            self.spec_start_line() < usize::MAX / 2,
        ensures
            final(buffer).wf(),
            (*final(cursor), final(buffer)@) == delete_selection_spec(
                self.spec_visual_type(),
                self.spec_start_line(),
                self.spec_start_col(),
                *old(cursor),
                old(buffer)@,
            ),
    {
        let (start_line, end_line) = if self.start_line <= cursor.line {
            (self.start_line, cursor.line)
        } else {
            (cursor.line, self.start_line)
        };

        match self.visual_type {
            VisualType::Line => {
                let count = end_line - start_line + 1;
                let mut k: usize = 0;
                while k < count
                    invariant
                        k <= count,
                        buffer.wf(),
                        delete_lines(old(buffer)@, start_line, count as nat)
                            == delete_lines(buffer@, start_line, (count - k) as nat),
                    decreases count - k,
                {
                    let ghost before = buffer@;
                    let _removed = buffer.delete_line(start_line);
                    proof {
                        assert(delete_lines(before, start_line, (count - k) as nat)
                            == delete_lines(buffer@, start_line, (count - k - 1) as nat));
                    }
                    k += 1;
                }
                let line_count = buffer.line_count();
                let last = if line_count > 0 {
                    line_count - 1
                } else {
                    0
                };
                cursor.line = if start_line < last {
                    start_line
                } else {
                    last
                };
                cursor.col = 0;
            },
            VisualType::Character => {
                if start_line == end_line {
                    let (lo, hi) = if self.start_col <= cursor.col {
                        (self.start_col, cursor.col)
                    } else {
                        (cursor.col, self.start_col)
                    };
                    match buffer.get_line(start_line) {
                        Some(line_ref) => {
                            if line_ref.len() > 0 {
                                let len = line_ref.len();
                                let hi2 = if hi < len {
                                    hi
                                } else {
                                    len - 1
                                };
                                if lo <= hi2 {
                                    let new_line = copy_prefix_suffix(line_ref, lo, hi2 + 1);
                                    let _old = buffer.replace_line(start_line, new_line);
                                }
                            }
                        },
                        None => {},
                    }
                    cursor.col = lo;
                }
            },
            VisualType::Block => {},
        }
    }

    /// The normalized selection: smallest and largest line, smallest and
    /// largest column (normalized independently, as the selection is
    /// rectangular in that sense).
    pub fn get_selection(&self, cursor: &Cursor) -> (r: (usize, usize, usize, usize))
        ensures
            r.0 == if self.spec_start_line() <= cursor.line {
                self.spec_start_line()
            } else {
                cursor.line
            },
            r.2 == if self.spec_start_line() <= cursor.line {
                cursor.line
            } else {
                self.spec_start_line()
            },
            r.1 == if self.spec_start_col() <= cursor.col {
                self.spec_start_col()
            } else {
                cursor.col
            },
            r.3 == if self.spec_start_col() <= cursor.col {
                cursor.col
            } else {
                self.spec_start_col()
            },
    {
        let (start_line, end_line) = if self.start_line <= cursor.line {
            (self.start_line, cursor.line)
        } else {
            (cursor.line, self.start_line)
        };
        let (start_col, end_col) = if self.start_col <= cursor.col {
            (self.start_col, cursor.col)
        } else {
            (cursor.col, self.start_col)
        };
        (start_line, start_col, end_line, end_col)
    }

    pub fn visual_type(&self) -> (r: VisualType)
        ensures
            r == self.spec_visual_type(),
    {
        self.visual_type
    }
}

} // verus!
