//! The cursor: a line/column position with a sticky desired column for
//! vertical motion, and buffer-aware movement operations.
//!
//! Horizontal motion updates the desired column; vertical motion keeps it
//! and clamps the real column to the length of the target line.

use vstd::prelude::*;
use crate::buffer::{Buffer, is_space, is_space_char};

verus! {

#[derive(Debug, Clone, Copy, PartialEq, Eq, Structural)]
pub struct Cursor {
    pub line: usize,
    pub col: usize,
    pub desired_col: usize,
}

/// First position at or after `pos` that is whitespace or the end of the
/// line.
pub open spec fn skip_non_space(s: Seq<char>, pos: int) -> int
    decreases s.len() - pos,
{
    if 0 <= pos < s.len() && !is_space_char(s[pos]) {
        skip_non_space(s, pos + 1)
    } else {
        pos
    }
}

/// First position at or after `pos` that is not whitespace, or the end of
/// the line.
pub open spec fn skip_space(s: Seq<char>, pos: int) -> int
    decreases s.len() - pos,
{
    if 0 <= pos < s.len() && is_space_char(s[pos]) {
        skip_space(s, pos + 1)
    } else {
        pos
    }
}

/// Where a forward word motion from `pos` lands: past the current word, then
/// past the whitespace after it.
pub open spec fn word_forward_spec(s: Seq<char>, pos: int) -> int {
    skip_space(s, skip_non_space(s, pos))
}

/// Last position at or before `pos` that is not whitespace (0 when only
/// whitespace precedes).
pub open spec fn skip_space_back(s: Seq<char>, pos: int) -> int
    decreases pos,
{
    if 0 < pos < s.len() && is_space_char(s[pos]) {
        skip_space_back(s, pos - 1)
    } else {
        pos
    }
}

/// Start of the word containing (or preceding) `pos`.
pub open spec fn skip_word_back(s: Seq<char>, pos: int) -> int
    decreases pos,
{
    if 0 < pos <= s.len() && !is_space_char(s[pos - 1]) {
        skip_word_back(s, pos - 1)
    } else {
        pos
    }
}

/// Where a backward word motion from `pos > 0` lands.
pub open spec fn word_backward_spec(s: Seq<char>, pos: int) -> int {
    skip_word_back(s, skip_space_back(s, pos - 1))
}

/// Cursor after one step left.
pub open spec fn spec_move_left(c: Cursor) -> Cursor {
    if c.col > 0 {
        Cursor { line: c.line, col: (c.col - 1) as usize, desired_col: (c.col - 1) as usize }
    } else {
        c
    }
}

/// Cursor after one step right within the current line.
pub open spec fn spec_move_right(c: Cursor, lines: Seq<Seq<char>>) -> Cursor {
    if c.line < lines.len() && c.col < lines[c.line as int].len() {
        Cursor { line: c.line, col: (c.col + 1) as usize, desired_col: (c.col + 1) as usize }
    } else {
        c
    }
}

/// Cursor after one step up: the column snaps to the desired column,
/// clamped into the new line.
pub open spec fn spec_move_up(c: Cursor, lines: Seq<Seq<char>>) -> Cursor {
    if c.line > 0 {
        Cursor {
            line: (c.line - 1) as usize,
            col: target_col(c.desired_col, lines, c.line - 1),
            desired_col: c.desired_col,
        }
    } else {
        c
    }
}

/// Cursor after one step down, like `spec_move_up`.
pub open spec fn spec_move_down(c: Cursor, lines: Seq<Seq<char>>) -> Cursor {
    if lines.len() > 0 && c.line < lines.len() - 1 {
        Cursor {
            line: (c.line + 1) as usize,
            col: target_col(c.desired_col, lines, c.line + 1),
            desired_col: c.desired_col,
        }
    } else {
        c
    }
}

/// Cursor at the start of its line.
pub open spec fn spec_move_line_start(c: Cursor) -> Cursor {
    Cursor { line: c.line, col: 0, desired_col: 0 }
}

/// Cursor past the end of its line.
pub open spec fn spec_move_line_end(c: Cursor, lines: Seq<Seq<char>>) -> Cursor {
    if c.line < lines.len() {
        Cursor {
            line: c.line,
            col: lines[c.line as int].len() as usize,
            desired_col: lines[c.line as int].len() as usize,
        }
    } else {
        c
    }
}

/// Cursor after a forward word motion.
pub open spec fn spec_move_word_forward(c: Cursor, lines: Seq<Seq<char>>) -> Cursor {
    if c.line < lines.len() {
        Cursor {
            line: c.line,
            col: word_forward_spec(lines[c.line as int], c.col as int) as usize,
            desired_col: word_forward_spec(lines[c.line as int], c.col as int) as usize,
        }
    } else {
        c
    }
}

/// Cursor after a backward word motion; the column is first clamped into
/// the line.
pub open spec fn spec_move_word_backward(c: Cursor, lines: Seq<Seq<char>>) -> Cursor {
    if c.line < lines.len() {
        let s = lines[c.line as int];
        let start = if c.col <= s.len() {
            c.col as int
        } else {
            s.len() as int
        };
        if start == 0 {
            c
        } else {
            Cursor {
                line: c.line,
                col: word_backward_spec(s, start) as usize,
                desired_col: word_backward_spec(s, start) as usize,
            }
        }
    } else {
        c
    }
}

/// Cursor after a jump to `line` (clamped to the last line), with the
/// column clamped into the target line.
pub open spec fn spec_move_to_line(c: Cursor, line: usize, lines: Seq<Seq<char>>) -> Cursor {
    let target = if lines.len() == 0 {
        0int
    } else if line < lines.len() {
        line as int
    } else {
        lines.len() - 1
    };
    let new_col = if target < lines.len() && c.col > lines[target].len() {
        lines[target].len() as int
    } else {
        c.col as int
    };
    Cursor { line: target as usize, col: new_col as usize, desired_col: c.desired_col }
}

impl Cursor {
    /// The documented cursor invariant against a buffer's lines: the line
    /// index is in range and the column is within the line.
    pub open spec fn valid_for(self, lines: Seq<Seq<char>>) -> bool {
        self.line < lines.len() && self.col <= lines[self.line as int].len()
    }

    pub fn new() -> (c: Cursor)
        ensures
            c == (Cursor { line: 0, col: 0, desired_col: 0 }),
    {
        Cursor { line: 0, col: 0, desired_col: 0 }
    }

    /// One column left, when not already at the line start.
    pub fn move_left(&mut self, _buffer: &Buffer)
        ensures
            *final(self) == spec_move_left(*old(self)),
    {
        if self.col > 0 {
            self.col -= 1;
            self.desired_col = self.col;
        }
    }

    /// One column right, when not already at the end of the line.
    pub fn move_right(&mut self, buffer: &Buffer)
        ensures
            *final(self) == spec_move_right(*old(self), buffer@.lines),
    {
        match buffer.get_line(self.line) {
            Some(line) => {
                if self.col < line.len() {
                    self.col += 1;
                    self.desired_col = self.col;
                }
            },
            None => {},
        }
    }

    /// One line up; the column snaps to the desired column, clamped to the
    /// new line's length.
    pub fn move_up(&mut self, buffer: &Buffer)
        ensures
            *final(self) == spec_move_up(*old(self), buffer@.lines),
    {
        if self.line > 0 {
            self.line -= 1;
            self.clamp_col(buffer);
            let limit = match buffer.get_line(self.line) {
                Some(line) => line.len(),
                None => 0,
            };
            self.col = if self.desired_col < limit {
                self.desired_col
            } else {
                limit
            };
        }
    }

    /// One line down; the column snaps to the desired column, clamped to the
    /// new line's length.
    pub fn move_down(&mut self, buffer: &Buffer)
        ensures
            *final(self) == spec_move_down(*old(self), buffer@.lines),
    {
        let count = buffer.line_count();
        if count > 0 && self.line < count - 1 {
            self.line += 1;
            self.clamp_col(buffer);
            let limit = match buffer.get_line(self.line) {
                Some(line) => line.len(),
                None => 0,
            };
            self.col = if self.desired_col < limit {
                self.desired_col
            } else {
                limit
            };
        }
    }

    /// To the first column.
    pub fn move_line_start(&mut self)
        ensures
            *final(self) == spec_move_line_start(*old(self)),
    {
        self.col = 0;
        self.desired_col = 0;
    }

    /// Past the last character of the current line.
    pub fn move_line_end(&mut self, buffer: &Buffer)
        ensures
            *final(self) == spec_move_line_end(*old(self), buffer@.lines),
    {
        match buffer.get_line(self.line) {
            Some(line) => {
                self.col = line.len();
                self.desired_col = self.col;
            },
            None => {},
        }
    }

    /// Forward to the start of the next word: past the characters of the
    /// current word, then past the whitespace after it.
    pub fn move_word_forward(&mut self, buffer: &Buffer)
        ensures
            *final(self) == spec_move_word_forward(*old(self), buffer@.lines),
    {
        let line = match buffer.get_line(self.line) {
            Some(line) => line,
            None => {
                return;
            },
        };
        let ghost s = line@;
        let mut pos: usize = self.col;
        while pos < line.len() && !is_space(line[pos])
            invariant
                pos <= s.len() || pos == old(self).col,
                s == line@,
                skip_non_space(s, old(self).col as int) == skip_non_space(s, pos as int),
            decreases s.len() - pos,
        {
            pos += 1;
        }
        proof {
            assert(skip_non_space(s, pos as int) == pos);
        }
        while pos < line.len() && is_space(line[pos])
            invariant
                s == line@,
                skip_space(s, skip_non_space(s, old(self).col as int))
                    == skip_space(s, pos as int),
            decreases s.len() - pos,
        {
            pos += 1;
        }
        proof {
            assert(skip_space(s, pos as int) == pos);
        }
        self.col = pos;
        self.desired_col = pos;
    }

    /// Backward to the start of the previous word.  The column is first
    /// clamped into the line, per the cursor's clamping discipline.
    pub fn move_word_backward(&mut self, buffer: &Buffer)
        ensures
            *final(self) == spec_move_word_backward(*old(self), buffer@.lines),
    {
        let line = match buffer.get_line(self.line) {
            Some(line) => line,
            None => {
                return;
            },
        };
        let ghost s = line@;
        let start = if self.col <= line.len() { self.col } else { line.len() };
        if start == 0 {
            return;
        }
        let mut pos: usize = start - 1;
        while pos > 0 && is_space(line[pos])
            invariant
                pos < s.len(),
                s == line@,
                skip_space_back(s, start - 1) == skip_space_back(s, pos as int),
            decreases pos,
        {
            pos -= 1;
        }
        proof {
            assert(skip_space_back(s, pos as int) == pos);
        }
        while pos > 0 && !is_space(line[pos - 1])
            invariant
                pos < s.len(),
                s == line@,
                skip_word_back(s, skip_space_back(s, start - 1))
                    == skip_word_back(s, pos as int),
            decreases pos,
        {
            pos -= 1;
        }
        proof {
            assert(skip_word_back(s, pos as int) == pos);
        }
        self.col = pos;
        self.desired_col = pos;
    }

    /// To the given line (clamped to the last line), with the column clamped
    /// into the target line.
    pub fn move_to_line(&mut self, line: usize, buffer: &Buffer)
        ensures
            *final(self) == spec_move_to_line(*old(self), line, buffer@.lines),
    {
        let count = buffer.line_count();
        let target = if count == 0 {
            0
        } else if line < count {
            line
        } else {
            count - 1
        };
        self.line = target;
        self.clamp_col(buffer);
    }

    /// Clamps the column into the current line, when that line exists.
    fn clamp_col(&mut self, buffer: &Buffer)
        ensures
            *final(self) == ({
                let lines = buffer@.lines;
                if old(self).line < lines.len()
                    && old(self).col > lines[old(self).line as int].len() {
                    Cursor {
                        line: old(self).line,
                        col: lines[old(self).line as int].len() as usize,
                        desired_col: old(self).desired_col,
                    }
                } else {
                    *old(self)
                }
            }),
    {
        match buffer.get_line(self.line) {
            Some(line) => {
                if self.col > line.len() {
                    self.col = line.len();
                }
            },
            None => {},
        }
    }
}

/// The column a vertical motion lands on: the desired column, clamped to the
/// target line's length (zero when the target line does not exist).
pub open spec fn target_col(desired: usize, lines: Seq<Seq<char>>, line: int) -> usize {
    let limit: int = if 0 <= line < lines.len() {
        lines[line].len() as int
    } else {
        0
    };
    if desired < limit {
        desired
    } else {
        limit as usize
    }
}

/// A forward word motion never moves left, and never past the end of the
/// line when it starts inside it.
pub proof fn lemma_word_forward_bounds(s: Seq<char>, pos: int)
    requires
        0 <= pos,
    ensures
        word_forward_spec(s, pos) >= pos,
        pos <= s.len() ==> word_forward_spec(s, pos) <= s.len(),
{
    lemma_skip_non_space_bounds(s, pos);
    lemma_skip_space_bounds(s, skip_non_space(s, pos));
}

proof fn lemma_skip_non_space_bounds(s: Seq<char>, pos: int)
    requires
        0 <= pos,
    ensures
        skip_non_space(s, pos) >= pos,
        pos <= s.len() ==> skip_non_space(s, pos) <= s.len(),
    decreases s.len() - pos,
{
    if 0 <= pos < s.len() && !is_space_char(s[pos]) {
        lemma_skip_non_space_bounds(s, pos + 1);
    }
}

proof fn lemma_skip_space_bounds(s: Seq<char>, pos: int)
    requires
        0 <= pos,
    ensures
        skip_space(s, pos) >= pos,
        pos <= s.len() ==> skip_space(s, pos) <= s.len(),
    decreases s.len() - pos,
{
    if 0 <= pos < s.len() && is_space_char(s[pos]) {
        lemma_skip_space_bounds(s, pos + 1);
    }
}

impl Default for Cursor {
    fn default() -> (c: Cursor)
        ensures
            c == (Cursor { line: 0, col: 0, desired_col: 0 }),
    {
        Cursor::new()
    }
}

} // verus!
