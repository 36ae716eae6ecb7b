//! The text buffer: a non-empty sequence of lines with snapshot-based
//! undo and redo.
//!
//! Lines are sequences of characters.  Every mutating operation first pushes
//! a snapshot of the whole line sequence together with the cursor position at
//! mutation time onto the undo stack (bounded: the oldest entry is discarded
//! once the bound is exceeded) and clears the redo stack.  Out-of-range
//! arguments make an operation a no-op instead of an error: in a
//! keyboard-driven editor a stale index must never end the session.

use vstd::prelude::*;
use vstd::pervasive::VecAdditionalExecFns;

verus! {

/// Upper bound on the number of undo snapshots kept.
pub const MAX_UNDO_STACK: usize = 100;

/// The Unicode characters with the `White_Space` property.
pub open spec fn is_space_char(c: char) -> bool {
    c == ' ' || c == '\t' || c == '\n' || c == '\u{b}' || c == '\u{c}' || c == '\r'
        || c == '\u{85}' || c == '\u{a0}' || c == '\u{1680}'
        || ('\u{2000}' <= c && c <= '\u{200a}')
        || c == '\u{2028}' || c == '\u{2029}' || c == '\u{202f}' || c == '\u{205f}'
        || c == '\u{3000}'
}

/// Whether a character counts as whitespace (the Unicode `White_Space` set).
pub fn is_space(c: char) -> (r: bool)
    ensures
        r == is_space_char(c),
{
    c == ' ' || c == '\t' || c == '\n' || c == '\u{b}' || c == '\u{c}' || c == '\r'
        || c == '\u{85}' || c == '\u{a0}' || c == '\u{1680}'
        || ('\u{2000}' <= c && c <= '\u{200a}')
        || c == '\u{2028}' || c == '\u{2029}' || c == '\u{202f}' || c == '\u{205f}'
        || c == '\u{3000}'
}

/// A snapshot of the buffer: the full line contents and the cursor position
/// recorded at the moment just before a mutation.
pub struct BufferState {
    pub lines: Vec<Vec<char>>,
    pub cursor_line: usize,
    pub cursor_col: usize,
}

/// Mathematical image of a snapshot.
#[verifier::ext_equal]
pub ghost struct SnapView {
    pub lines: Seq<Seq<char>>,
    pub cursor_line: usize,
    pub cursor_col: usize,
}

/// Mathematical image of a buffer.
#[verifier::ext_equal]
pub ghost struct BufView {
    pub lines: Seq<Seq<char>>,
    pub file_path: Option<Seq<char>>,
    pub modified: bool,
    pub undo_stack: Seq<SnapView>,
    pub redo_stack: Seq<SnapView>,
}

/// The line sequences of a vector of lines.
pub open spec fn lines_view(v: Seq<Vec<char>>) -> Seq<Seq<char>> {
    Seq::new(v.len(), |i: int| v[i]@)
}

impl View for BufferState {
    type V = SnapView;

    open spec fn view(&self) -> SnapView {
        SnapView {
            lines: lines_view(self.lines@),
            cursor_line: self.cursor_line,
            cursor_col: self.cursor_col,
        }
    }
}

pub struct Buffer {
    lines: Vec<Vec<char>>,
    file_path: Option<String>,
    modified: bool,
    undo_stack: Vec<BufferState>,
    redo_stack: Vec<BufferState>,
}

impl View for Buffer {
    type V = BufView;

    closed spec fn view(&self) -> BufView {
        BufView {
            lines: lines_view(self.lines@),
            file_path: match self.file_path {
                Some(p) => Some(p@),
                None => None,
            },
            modified: self.modified,
            undo_stack: Seq::new(self.undo_stack@.len(), |i: int| self.undo_stack@[i]@),
            redo_stack: Seq::new(self.redo_stack@.len(), |i: int| self.redo_stack@[i]@),
        }
    }
}

/// One editing operation, as data.  `apply_edit` below is the single
/// transition function all the mutating buffer operations follow.
pub ghost enum EditOp {
    InsertChar { line: usize, col: usize, ch: char },
    DeleteChar { line: usize, col: usize },
    InsertNewline { line: usize, col: usize },
    DeleteLine { line: usize },
    JoinLines { line: usize },
}

/// A sequence of characters with its leading whitespace removed.
pub open spec fn trim_start_spec(s: Seq<char>) -> Seq<char>
    decreases s.len(),
{
    if s.len() > 0 && is_space_char(s[0]) {
        trim_start_spec(s.drop_first())
    } else {
        s
    }
}

/// Whether the operation touches the buffer at all (in-range arguments).
pub open spec fn edit_applies(op: EditOp, lines: Seq<Seq<char>>) -> bool {
    match op {
        EditOp::InsertChar { line, col, .. } => line < lines.len() && col <= lines[line as int].len(),
        EditOp::DeleteChar { line, col } => line < lines.len() && col < lines[line as int].len(),
        EditOp::InsertNewline { line, col } => line < lines.len() && col <= lines[line as int].len(),
        EditOp::DeleteLine { line } => line < lines.len() && (lines.len() > 1 || line == 0),
        EditOp::JoinLines { line } => lines.len() >= 2 && line < lines.len() - 1,
    }
}

/// The new line contents after an applicable operation.
pub open spec fn apply_lines(op: EditOp, lines: Seq<Seq<char>>) -> Seq<Seq<char>> {
    match op {
        EditOp::InsertChar { line, col, ch } => lines.update(
            line as int,
            lines[line as int].insert(col as int, ch),
        ),
        EditOp::DeleteChar { line, col } => lines.update(
            line as int,
            lines[line as int].remove(col as int),
        ),
        EditOp::InsertNewline { line, col } => lines.update(
            line as int,
            lines[line as int].take(col as int),
        ).insert(line + 1, lines[line as int].skip(col as int)),
        EditOp::DeleteLine { line } => if lines.len() > 1 {
            lines.remove(line as int)
        } else {
            lines.update(0, Seq::<char>::empty())
        },
        EditOp::JoinLines { line } => {
            let cur = lines[line as int];
            let next = lines[line + 1];
            let sep: Seq<char> = if cur.len() > 0 && next.len() > 0 {
                seq![' ']
            } else {
                Seq::<char>::empty()
            };
            lines.update(line as int, cur + sep + trim_start_spec(next)).remove(line + 1)
        },
    }
}

/// The cursor position recorded in the snapshot an operation pushes.
pub open spec fn edit_cursor(op: EditOp, lines: Seq<Seq<char>>) -> (usize, usize) {
    match op {
        EditOp::InsertChar { line, col, .. } => (line, col),
        EditOp::DeleteChar { line, col } => (line, col),
        EditOp::InsertNewline { line, col } => (line, col),
        EditOp::DeleteLine { line } => (line, 0),
        EditOp::JoinLines { line } => (line, lines[line as int].len() as usize),
    }
}

/// Pushing a snapshot onto the undo stack, discarding the oldest entry when
/// the bound is exceeded.
pub open spec fn push_undo(stack: Seq<SnapView>, snap: SnapView) -> Seq<SnapView> {
    let s = stack.push(snap);
    if s.len() > MAX_UNDO_STACK {
        s.drop_first()
    } else {
        s
    }
}

/// The whole-buffer transition of one mutating operation: out-of-range
/// arguments leave the buffer unchanged; otherwise the lines are rewritten,
/// a pre-mutation snapshot is pushed and the redo stack is cleared.
pub open spec fn apply_edit(op: EditOp, b: BufView) -> BufView {
    if edit_applies(op, b.lines) {
        let cursor = edit_cursor(op, b.lines);
        BufView {
            lines: apply_lines(op, b.lines),
            file_path: b.file_path,
            modified: true,
            undo_stack: push_undo(
                b.undo_stack,
                SnapView { lines: b.lines, cursor_line: cursor.0, cursor_col: cursor.1 },
            ),
            redo_stack: Seq::empty(),
        }
    } else {
        b
    }
}

/// The transition of `undo`: the top snapshot's lines are restored, the
/// current lines are pushed onto the redo stack (tagged with the snapshot's
/// cursor), and that cursor position is returned.
pub open spec fn spec_undo(b: BufView) -> (BufView, Option<(usize, usize)>) {
    if b.undo_stack.len() > 0 {
        let top = b.undo_stack.last();
        (
            BufView {
                lines: top.lines,
                file_path: b.file_path,
                modified: true,
                undo_stack: b.undo_stack.drop_last(),
                redo_stack: b.redo_stack.push(
                    SnapView {
                        lines: b.lines,
                        cursor_line: top.cursor_line,
                        cursor_col: top.cursor_col,
                    },
                ),
            },
            Some((top.cursor_line, top.cursor_col)),
        )
    } else {
        (b, None)
    }
}

/// The transition of `redo`, symmetric to `spec_undo`.
pub open spec fn spec_redo(b: BufView) -> (BufView, Option<(usize, usize)>) {
    if b.redo_stack.len() > 0 {
        let top = b.redo_stack.last();
        (
            BufView {
                lines: top.lines,
                file_path: b.file_path,
                modified: true,
                undo_stack: b.undo_stack.push(
                    SnapView {
                        lines: b.lines,
                        cursor_line: top.cursor_line,
                        cursor_col: top.cursor_col,
                    },
                ),
                redo_stack: b.redo_stack.drop_last(),
            },
            Some((top.cursor_line, top.cursor_col)),
        )
    } else {
        (b, None)
    }
}

/// Law: `undo` immediately after any single mutating operation restores the
/// exact pre-mutation line contents and returns the cursor position recorded
/// at mutation time; `redo` immediately after that restores the post-mutation
/// contents exactly, returning the same cursor.
pub proof fn lemma_undo_redo_round_trip(b: BufView, op: EditOp)
    requires
        edit_applies(op, b.lines),
    ensures
        ({
            let b1 = apply_edit(op, b);
            let (b2, r) = spec_undo(b1);
            let (b3, r2) = spec_redo(b2);
            &&& r == Some(edit_cursor(op, b.lines))
            &&& b2.lines == b.lines
            &&& b3.lines == b1.lines
            &&& r2 == Some(edit_cursor(op, b.lines))
        }),
{
    let b1 = apply_edit(op, b);
    assert(b1.undo_stack.len() > 0);
    assert(b1.undo_stack.last()
        == SnapView {
            lines: b.lines,
            cursor_line: edit_cursor(op, b.lines).0,
            cursor_col: edit_cursor(op, b.lines).1,
        });
}

/// Law: the undo stack never grows past its bound, no matter how many edits
/// are made; once the bound is reached, each further edit discards exactly
/// the oldest entry and the rest shift down.
pub proof fn lemma_undo_stack_bounded(b: BufView, op: EditOp)
    requires
        b.undo_stack.len() <= MAX_UNDO_STACK,
    ensures
        apply_edit(op, b).undo_stack.len() <= MAX_UNDO_STACK,
        edit_applies(op, b.lines) && b.undo_stack.len() == MAX_UNDO_STACK
            ==> forall|i: int| 0 <= i < MAX_UNDO_STACK - 1
                ==> apply_edit(op, b).undo_stack[i] == b.undo_stack[i + 1],
{
}

/// Law: no mutating operation empties the buffer; in particular deleting the
/// only line of a single-line buffer leaves exactly one, now empty, line.
pub proof fn lemma_lines_never_empty(b: BufView, op: EditOp)
    requires
        b.lines.len() >= 1,
    ensures
        apply_edit(op, b).lines.len() >= 1,
        b.lines.len() == 1 && edit_applies(EditOp::DeleteLine { line: 0 }, b.lines)
            ==> apply_edit(EditOp::DeleteLine { line: 0 }, b).lines
                =~= seq![Seq::<char>::empty()],
{
}

/// Copies a line (characters are plain values).
fn copy_chars(v: &Vec<char>) -> (r: Vec<char>)
    ensures
        r@ == v@,
{
    let mut r: Vec<char> = Vec::new();
    let mut i: usize = 0;
    while i < v.len()
        invariant
            i <= v@.len(),
            r@ == v@.subrange(0, i as int),
        decreases v@.len() - i,
    {
        r.push(v[i]);
        proof {
            assert(r@ =~= v@.subrange(0, i as int + 1));
        }
        i += 1;
    }
    proof {
        assert(r@ =~= v@);
    }
    r
}

impl Buffer {
    /// Validity: at least one line, snapshots that are themselves non-empty,
    /// and no more entries across both stacks than the undo bound.
    pub open spec fn wf(self) -> bool {
        &&& self@.lines.len() >= 1
        &&& self@.undo_stack.len() + self@.redo_stack.len() <= MAX_UNDO_STACK
        &&& forall|i: int| 0 <= i < self@.undo_stack.len()
            ==> (#[trigger] self@.undo_stack[i]).lines.len() >= 1
        &&& forall|i: int| 0 <= i < self@.redo_stack.len()
            ==> (#[trigger] self@.redo_stack[i]).lines.len() >= 1
    }

    pub fn new() -> (b: Buffer)
        ensures
            b.wf(),
            b@.lines =~= seq![Seq::<char>::empty()],
            b@.file_path is None,
            !b@.modified,
            b@.undo_stack.len() == 0,
            b@.redo_stack.len() == 0,
    {
        let mut lines: Vec<Vec<char>> = Vec::new();
        lines.push(Vec::new());
        Buffer {
            lines,
            file_path: None,
            modified: false,
            undo_stack: Vec::new(),
            redo_stack: Vec::new(),
        }
    }

    pub fn line_count(&self) -> (n: usize)
        ensures
            n == self@.lines.len(),
    {
        self.lines.len()
    }

    pub fn get_line(&self, idx: usize) -> (r: Option<&Vec<char>>)
        ensures
            match r {
                Some(l) => idx < self@.lines.len() && l@ == self@.lines[idx as int],
                None => idx >= self@.lines.len(),
            },
    {
        if idx < self.lines.len() {
            Some(&self.lines[idx])
        } else {
            None
        }
    }

    pub fn is_modified(&self) -> (r: bool)
        ensures
            r == self@.modified,
    {
        self.modified
    }

    pub fn file_path(&self) -> (r: Option<&String>)
        ensures
            match r {
                Some(p) => self@.file_path == Some(p@),
                None => self@.file_path is None,
            },
    {
        self.file_path.as_ref()
    }

    /// Binds (or unbinds) the backing file path; the compute part of
    /// "save as", whose file writing lives outside the library.
    pub fn set_file_path(&mut self, path: Option<String>)
        ensures
            final(self)@ == (BufView {
                file_path: match path {
                    Some(p) => Some(p@),
                    None => None,
                },
                ..old(self)@
            }),
            old(self).wf() ==> final(self).wf(),
    {
        self.file_path = path;
    }

    /// Marks the buffer as freshly written out.
    pub fn mark_saved(&mut self)
        ensures
            final(self)@ == (BufView { modified: false, ..old(self)@ }),
            old(self).wf() ==> final(self).wf(),
    {
        self.modified = false;
    }

    fn clone_lines(v: &Vec<Vec<char>>) -> (r: Vec<Vec<char>>)
        ensures
            lines_view(r@) == lines_view(v@),
    {
        let mut r: Vec<Vec<char>> = Vec::new();
        let mut i: usize = 0;
        while i < v.len()
            invariant
                i <= v@.len(),
                r@.len() == i,
                forall|j: int| 0 <= j < i ==> #[trigger] r@[j]@ == v@[j]@,
            decreases v@.len() - i,
        {
            let row = copy_chars(&v[i]);
            r.push(row);
            i += 1;
        }
        proof {
            assert(lines_view(r@) =~= lines_view(v@));
        }
        r
    }

    /// Pushes a pre-mutation snapshot (current lines plus the given cursor)
    /// onto the undo stack, discarding the oldest entry beyond the bound,
    /// and clears the redo stack.
    fn save_state(&mut self, cursor_line: usize, cursor_col: usize)
        ensures
            final(self)@ == (BufView {
                undo_stack: push_undo(
                    old(self)@.undo_stack,
                    SnapView { lines: old(self)@.lines, cursor_line, cursor_col },
                ),
                redo_stack: Seq::<SnapView>::empty(),
                ..old(self)@
            }),
    {
        let state = BufferState {
            lines: Self::clone_lines(&self.lines),
            cursor_line,
            cursor_col,
        };
        let ghost state_view = state@;
        self.undo_stack.push(state);
        if self.undo_stack.len() > MAX_UNDO_STACK {
            self.undo_stack.remove(0);
        }
        self.redo_stack = Vec::new();
        proof {
            let snap = SnapView { lines: old(self)@.lines, cursor_line, cursor_col };
            assert(state_view == snap);
            assert(self@.undo_stack =~= push_undo(old(self)@.undo_stack, snap));
            assert(self@.redo_stack =~= Seq::<SnapView>::empty());
            assert(self@ =~= (BufView {
                undo_stack: push_undo(old(self)@.undo_stack, snap),
                redo_stack: Seq::<SnapView>::empty(),
                ..old(self)@
            }));
        }
    }

    /// Inserts a character at `(line, col)`; a no-op when the position is
    /// out of range.
    pub fn insert_char(&mut self, line: usize, col: usize, ch: char)
        ensures
            final(self)@ == apply_edit(EditOp::InsertChar { line, col, ch }, old(self)@),
            old(self).wf() ==> final(self).wf(),
    {
        let ghost op = EditOp::InsertChar { line, col, ch };
        if line < self.lines.len() && col <= self.lines[line].len() {
            self.save_state(line, col);
            let mut row = copy_chars(&self.lines[line]);
            row.insert(col, ch);
            self.lines.set(line, row);
            self.modified = true;
            proof {
                assert(self@.lines =~= apply_lines(op, old(self)@.lines));
                assert(self@ =~= apply_edit(op, old(self)@));
            }
        }
    }

    /// Deletes the character at `(line, col)`; a no-op when out of range.
    pub fn delete_char(&mut self, line: usize, col: usize)
        ensures
            final(self)@ == apply_edit(EditOp::DeleteChar { line, col }, old(self)@),
            old(self).wf() ==> final(self).wf(),
    {
        let ghost op = EditOp::DeleteChar { line, col };
        if line < self.lines.len() && col < self.lines[line].len() {
            self.save_state(line, col);
            let mut row = copy_chars(&self.lines[line]);
            row.remove(col);
            self.lines.set(line, row);
            self.modified = true;
            proof {
                assert(self@.lines =~= apply_lines(op, old(self)@.lines));
                assert(self@ =~= apply_edit(op, old(self)@));
            }
        }
    }

    /// Splits the line at `col` into two lines; a no-op when out of range.
    pub fn insert_newline(&mut self, line: usize, col: usize)
        ensures
            final(self)@ == apply_edit(EditOp::InsertNewline { line, col }, old(self)@),
            old(self).wf() ==> final(self).wf(),
    {
        let ghost op = EditOp::InsertNewline { line, col };
        if line < self.lines.len() && col <= self.lines[line].len() {
            self.save_state(line, col);
            let mut row = copy_chars(&self.lines[line]);
            let rest = row.split_off(col);
            self.lines.set(line, row);
            self.lines.insert(line + 1, rest);
            self.modified = true;
            proof {
                assert(self@.lines =~= apply_lines(op, old(self)@.lines));
                assert(self@ =~= apply_edit(op, old(self)@));
            }
        }
    }

    /// Removes the line and returns its content; on a single-line buffer the
    /// sole line is cleared instead (the buffer never becomes empty).
    /// Out of range: `None`, no change.
    pub fn delete_line(&mut self, line: usize) -> (r: Option<Vec<char>>)
        ensures
            final(self)@ == apply_edit(EditOp::DeleteLine { line }, old(self)@),
            old(self).wf() ==> final(self).wf(),
            match r {
                Some(content) => {
                    &&& edit_applies(EditOp::DeleteLine { line }, old(self)@.lines)
                    &&& content@ == old(self)@.lines[if old(self)@.lines.len() > 1 { line as int } else { 0 }]
                },
                None => !edit_applies(EditOp::DeleteLine { line }, old(self)@.lines),
            },
    {
        let ghost op = EditOp::DeleteLine { line };
        if self.lines.len() > 1 && line < self.lines.len() {
            self.save_state(line, 0);
            let removed = self.lines.remove(line);
            self.modified = true;
            proof {
                assert(self@.lines =~= apply_lines(op, old(self)@.lines));
                assert(self@ =~= apply_edit(op, old(self)@));
            }
            Some(removed)
        } else if self.lines.len() == 1 && line == 0 {
            self.save_state(line, 0);
            let content = copy_chars(&self.lines[0]);
            self.lines.set(0, Vec::new());
            self.modified = true;
            proof {
                assert(self@.lines =~= apply_lines(op, old(self)@.lines));
                assert(self@ =~= apply_edit(op, old(self)@));
            }
            Some(content)
        } else {
            None
        }
    }

    /// Merges line `line + 1` into `line`, separated by a single space when
    /// both sides are non-empty, with the joined-in content's leading
    /// whitespace removed.  A no-op when `line + 1` does not exist.
    pub fn join_lines(&mut self, line: usize)
        ensures
            final(self)@ == apply_edit(EditOp::JoinLines { line }, old(self)@),
            old(self).wf() ==> final(self).wf(),
    {
        let ghost op = EditOp::JoinLines { line };
        if self.lines.len() >= 2 && line < self.lines.len() - 1 {
            let cur_len = self.lines[line].len();
            self.save_state(line, cur_len);
            let next = self.lines.remove(line + 1);
            let trimmed_from = Self::first_non_ws(&next);
            let mut joined = copy_chars(&self.lines[line]);
            if joined.len() > 0 && next.len() > 0 {
                joined.push(' ');
            }
            let ghost joined0 = joined@;
            let mut i: usize = trimmed_from;
            while i < next.len()
                invariant
                    trimmed_from <= i <= next@.len(),
                    joined@ == joined0 + next@.subrange(trimmed_from as int, i as int),
                decreases next@.len() - i,
            {
                joined.push(next[i]);
                proof {
                    assert(joined@ =~= joined0
                        + next@.subrange(trimmed_from as int, i as int + 1));
                }
                i += 1;
            }
            self.lines.set(line, joined);
            self.modified = true;
            proof {
                let cur = old(self)@.lines[line as int];
                let nxt = old(self)@.lines[line + 1];
                let sep: Seq<char> = if cur.len() > 0 && nxt.len() > 0 {
                    seq![' ']
                } else {
                    Seq::<char>::empty()
                };
                assert(next@.subrange(trimmed_from as int, next@.len() as int)
                    == trim_start_spec(next@));
                assert(self@.lines[line as int] =~= cur + sep + trim_start_spec(nxt));
                assert(self@.lines =~= apply_lines(op, old(self)@.lines));
                assert(self@ =~= apply_edit(op, old(self)@));
            }
        }
    }

    /// Restores the most recent undo snapshot, moving the current content to
    /// the redo stack; returns the snapshot's recorded cursor position.
    pub fn undo(&mut self) -> (r: Option<(usize, usize)>)
        ensures
            (final(self)@, r) == spec_undo(old(self)@),
            old(self).wf() ==> final(self).wf(),
    {
        match self.undo_stack.pop() {
            Some(state) => {
                let current = BufferState {
                    lines: Self::clone_lines(&self.lines),
                    cursor_line: state.cursor_line,
                    cursor_col: state.cursor_col,
                };
                self.redo_stack.push(current);
                self.lines = state.lines;
                self.modified = true;
                proof {
                    let (b2, rr) = spec_undo(old(self)@);
                    assert(self@.undo_stack =~= b2.undo_stack);
                    assert(self@.redo_stack =~= b2.redo_stack);
                    assert(self@.lines =~= b2.lines);
                    assert(self@ =~= b2);
                }
                Some((state.cursor_line, state.cursor_col))
            },
            None => None,
        }
    }

    /// Restores the most recent redo snapshot, moving the current content to
    /// the undo stack; returns the snapshot's recorded cursor position.
    pub fn redo(&mut self) -> (r: Option<(usize, usize)>)
        ensures
            (final(self)@, r) == spec_redo(old(self)@),
            old(self).wf() ==> final(self).wf(),
    {
        match self.redo_stack.pop() {
            Some(state) => {
                let current = BufferState {
                    lines: Self::clone_lines(&self.lines),
                    cursor_line: state.cursor_line,
                    cursor_col: state.cursor_col,
                };
                self.undo_stack.push(current);
                self.lines = state.lines;
                self.modified = true;
                proof {
                    let (b2, rr) = spec_redo(old(self)@);
                    assert(self@.undo_stack =~= b2.undo_stack);
                    assert(self@.redo_stack =~= b2.redo_stack);
                    assert(self@.lines =~= b2.lines);
                    assert(self@ =~= b2);
                }
                Some((state.cursor_line, state.cursor_col))
            },
            None => None,
        }
    }

    /// A buffer holding the given text, split at line breaks, bound to an
    /// optional file path: the compute part of opening a file, whose
    /// reading lives outside the library.
    pub fn from_text(text: &str, path: Option<String>) -> (b: Buffer)
        ensures
            b.wf(),
            b@.lines == crate::text::spec_lines_of_text(text@),
            b@.file_path == (match path {
                Some(p) => Some(p@),
                None => None::<Seq<char>>,
            }),
            !b@.modified,
            b@.undo_stack.len() == 0,
            b@.redo_stack.len() == 0,
    {
        let lines = crate::text::text_to_lines(text);
        let b = Buffer {
            lines,
            file_path: path,
            modified: false,
            undo_stack: Vec::new(),
            redo_stack: Vec::new(),
        };
        proof {
            assert(b@.lines =~= crate::text::spec_lines_of_text(text@));
            assert(b@.undo_stack =~= Seq::<SnapView>::empty());
            assert(b@.redo_stack =~= Seq::<SnapView>::empty());
        }
        b
    }

    /// The whole content as text, lines joined with line breaks: the
    /// compute part of saving, whose file writing lives outside the
    /// library.
    pub fn to_text(&self) -> (r: String)
        ensures
            r@ == crate::text::spec_text_of_lines(self@.lines),
    {
        let r = crate::text::lines_to_text(&self.lines);
        proof {
            assert(Seq::new(self.lines@.len(), |i: int| self.lines@[i]@) =~= self@.lines);
        }
        r
    }

    /// Swaps in new content for one line and hands back the old content:
    /// direct line access, bypassing the undo stack and the modified flag
    /// exactly as handing out a bare mutable line reference would.
    /// Out of range: `None`, no change.
    pub fn replace_line(&mut self, idx: usize, content: Vec<char>) -> (r: Option<Vec<char>>)
        ensures
            idx < old(self)@.lines.len() ==> {
                &&& final(self)@ == (BufView {
                    lines: old(self)@.lines.update(idx as int, content@),
                    ..old(self)@
                })
                &&& r matches Some(prev) && prev@ == old(self)@.lines[idx as int]
            },
            idx >= old(self)@.lines.len() ==> {
                &&& final(self)@ == old(self)@
                &&& r is None
            },
            old(self).wf() ==> final(self).wf(),
    {
        if idx < self.lines.len() {
            let prev = copy_chars(&self.lines[idx]);
            self.lines.set(idx, content);
            proof {
                assert(self@.lines =~= old(self)@.lines.update(idx as int, content@));
                assert(self@ =~= (BufView {
                    lines: old(self)@.lines.update(idx as int, content@),
                    ..old(self)@
                }));
            }
            Some(prev)
        } else {
            None
        }
    }

    /// Index of the first non-whitespace character (the vector's length when
    /// all of it is whitespace), so that the tail from there is the
    /// leading-whitespace-trimmed content.
    fn first_non_ws(v: &Vec<char>) -> (r: usize)
        ensures
            r <= v@.len(),
            v@.subrange(r as int, v@.len() as int) == trim_start_spec(v@),
    {
        let mut i: usize = 0;
        proof {
            assert(v@.skip(0) =~= v@);
        }
        while i < v.len()
            invariant
                i <= v@.len(),
                trim_start_spec(v@) == trim_start_spec(v@.skip(i as int)),
            decreases v@.len() - i,
        {
            if !is_space(v[i]) {
                proof {
                    reveal_with_fuel(trim_start_spec, 1);
                    assert(trim_start_spec(v@.skip(i as int)) == v@.skip(i as int));
                    assert(v@.subrange(i as int, v@.len() as int) =~= v@.skip(i as int));
                }
                return i;
            }
            proof {
                reveal_with_fuel(trim_start_spec, 2);
                assert(v@.skip(i as int).drop_first() =~= v@.skip(i as int + 1));
                assert(trim_start_spec(v@.skip(i as int))
                    == trim_start_spec(v@.skip(i as int + 1)));
            }
            i += 1;
        }
        proof {
            reveal_with_fuel(trim_start_spec, 1);
            assert(v@.skip(i as int) =~= Seq::<char>::empty());
            assert(v@.subrange(i as int, v@.len() as int) =~= trim_start_spec(v@));
        }
        i
    }
}

} // verus!
