//! The minimal editing state: one buffer, one cursor, one mode.

use vstd::prelude::*;
use crate::buffer::Buffer;
use crate::cursor::Cursor;
use crate::mode::Mode;

verus! {

pub struct EditorState {
    pub buffer: Buffer,
    pub cursor: Cursor,
    pub mode: Mode,
}

impl EditorState {
    pub fn new() -> (s: EditorState)
        ensures
            s.buffer.wf(),
            s.buffer@.lines =~= seq![Seq::<char>::empty()],
            s.buffer@.undo_stack.len() == 0,
            s.buffer@.redo_stack.len() == 0,
            !s.buffer@.modified,
            s.cursor == (Cursor { line: 0, col: 0, desired_col: 0 }),
            s.mode == Mode::Normal,
    {
        EditorState { buffer: Buffer::new(), cursor: Cursor::new(), mode: Mode::Normal }
    }
}

} // verus!
