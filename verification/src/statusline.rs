//! The status line: mode name, file name, modified marker and cursor
//! position, padded to the screen width (counted in characters).

use vstd::prelude::*;
use crate::buffer::Buffer;
use crate::cursor::Cursor;
use crate::mode::{mode_name_spec, Mode};
use crate::text::chars_to_string;

verus! {

/// The digit character for a value below ten.
pub open spec fn digit_char(d: int) -> char {
    if d == 0 {
        '0'
    } else if d == 1 {
        '1'
    } else if d == 2 {
        '2'
    } else if d == 3 {
        '3'
    } else if d == 4 {
        '4'
    } else if d == 5 {
        '5'
    } else if d == 6 {
        '6'
    } else if d == 7 {
        '7'
    } else if d == 8 {
        '8'
    } else {
        '9'
    }
}

/// The decimal spelling of a number, most significant digit first.
pub open spec fn dec_spec(n: int) -> Seq<char>
    decreases n,
{
    if n < 10 {
        seq![digit_char(n)]
    } else {
        dec_spec(n / 10).push(digit_char(n % 10))
    }
}

/// Appends the decimal spelling of `n`.
fn push_dec(n: usize, out: &mut Vec<char>)
    ensures
        final(out)@ == old(out)@ + dec_spec(n as int),
    decreases n,
{
    if n < 10 {
        out.push(digit_of(n));
        proof {
            assert(out@ =~= old(out)@ + dec_spec(n as int));
        }
    } else {
        push_dec(n / 10, out);
        out.push(digit_of(n % 10));
        proof {
            assert(out@ =~= old(out)@ + dec_spec(n as int));
        }
    }
}

/// The digit character of a value below ten.
fn digit_of(d: usize) -> (c: char)
    requires
        d < 10,
    ensures
        c == digit_char(d as int),
{
    match d {
        0 => '0',
        1 => '1',
        2 => '2',
        3 => '3',
        4 => '4',
        5 => '5',
        6 => '6',
        7 => '7',
        8 => '8',
        _ => '9',
    }
}

/// Appends every character of a string slice.
fn push_str_chars(s: &str, out: &mut Vec<char>)
    ensures
        final(out)@ == old(out)@ + s@,
{
    let n = s.unicode_len();
    let mut i: usize = 0;
    while i < n
        invariant
            i <= n,
            n == s@.len(),
            out@ == old(out)@ + s@.subrange(0, i as int),
        decreases n - i,
    {
        out.push(s.get_char(i));
        proof {
            assert(out@ =~= old(out)@ + s@.subrange(0, i as int + 1));
        }
        i += 1;
    }
    proof {
        assert(out@ =~= old(out)@ + s@);
    }
}

pub struct StatusLine {
    mode: Mode,
    file_path: Option<String>,
    modified: bool,
    line: usize,
    col: usize,
    total_lines: usize,
}

/// The left segment: mode name, file name (or a placeholder) and the
/// modified marker.
pub open spec fn left_spec(
    mode: Mode,
    file_path: Option<Seq<char>>,
    modified: bool,
) -> Seq<char> {
    seq![' '] + mode_name_spec(mode) + seq![' '] + (match file_path {
        Some(p) => p,
        None => "[No Name]"@,
    }) + if modified {
        " [+]"@
    } else {
        Seq::<char>::empty()
    }
}

/// The right segment: cursor position and line count.
pub open spec fn right_spec(line: int, col: int, total_lines: int) -> Seq<char> {
    seq![' '] + dec_spec(line) + seq![':'] + dec_spec(col) + seq![' '] + dec_spec(line)
        + seq!['/'] + dec_spec(total_lines) + seq![' ']
}

/// The whole status line: left segment, padding to the width, right
/// segment.
pub open spec fn render_spec(
    mode: Mode,
    file_path: Option<Seq<char>>,
    modified: bool,
    line: int,
    col: int,
    total_lines: int,
    width: int,
) -> Seq<char> {
    let left = left_spec(mode, file_path, modified);
    let right = right_spec(line, col, total_lines);
    let padding = if width > left.len() + right.len() {
        width - left.len() - right.len()
    } else {
        0
    };
    left + Seq::new(padding as nat, |i: int| ' ') + right
}

impl StatusLine {
    pub closed spec fn spec_mode(self) -> Mode {
        self.mode
    }

    pub closed spec fn spec_file_path(self) -> Option<Seq<char>> {
        match self.file_path {
            Some(p) => Some(p@),
            None => None,
        }
    }

    pub closed spec fn spec_modified(self) -> bool {
        self.modified
    }

    pub closed spec fn spec_line(self) -> usize {
        self.line
    }

    pub closed spec fn spec_col(self) -> usize {
        self.col
    }

    pub closed spec fn spec_total_lines(self) -> usize {
        self.total_lines
    }

    /// Captures the status of a buffer and cursor (positions shown
    /// one-based).
    pub fn new(mode: &Mode, buffer: &Buffer, cursor: &Cursor) -> (s: StatusLine)
        requires
            cursor.line < usize::MAX,
            cursor.col < usize::MAX,
        ensures
            s.spec_mode() == *mode,
            s.spec_file_path() == buffer@.file_path,
            s.spec_modified() == buffer@.modified,
            s.spec_line() == cursor.line + 1,
            s.spec_col() == cursor.col + 1,
            s.spec_total_lines() == buffer@.lines.len(),
    {
        let file_path = match buffer.file_path() {
            Some(p) => Some(p.clone()),
            None => None,
        };
        StatusLine {
            mode: *mode,
            file_path,
            modified: buffer.is_modified(),
            line: cursor.line + 1,
            col: cursor.col + 1,
            total_lines: buffer.line_count(),
        }
    }

    /// The rendered line for a given width.
    pub fn render(&self, width: usize) -> (r: String)
        ensures
            r@ == render_spec(
                self.spec_mode(),
                self.spec_file_path(),
                self.spec_modified(),
                self.spec_line() as int,
                self.spec_col() as int,
                self.spec_total_lines() as int,
                width as int,
            ),
    {
        let mut left: Vec<char> = Vec::new();
        left.push(' ');
        push_str_chars(self.mode.name(), &mut left);
        left.push(' ');
        match &self.file_path {
            Some(p) => push_str_chars(p.as_str(), &mut left),
            None => push_str_chars("[No Name]", &mut left),
        }
        if self.modified {
            push_str_chars(" [+]", &mut left);
        }
        proof {
            assert(left@ =~= left_spec(self.spec_mode(), self.spec_file_path(), self.spec_modified()));
        }

        let mut right: Vec<char> = Vec::new();
        right.push(' ');
        push_dec(self.line, &mut right);
        right.push(':');
        push_dec(self.col, &mut right);
        right.push(' ');
        push_dec(self.line, &mut right);
        right.push('/');
        push_dec(self.total_lines, &mut right);
        right.push(' ');
        proof {
            assert(right@ =~= right_spec(
                self.spec_line() as int,
                self.spec_col() as int,
                self.spec_total_lines() as int,
            ));
        }

        let mut out: Vec<char> = left;
        let mut pad: usize = if width > out.len() {
            let rem = width - out.len();
            if rem > right.len() {
                rem - right.len()
            } else {
                0
            }
        } else {
            0
        };
        let ghost target_pad = pad as int;
        let ghost before_pad = out@;
        while pad > 0
            invariant
                out@ == before_pad + Seq::new((target_pad - pad) as nat, |i: int| ' '),
                0 <= pad <= target_pad,
            decreases pad,
        {
            out.push(' ');
            proof {
                assert(out@ =~= before_pad
                    + Seq::new((target_pad - (pad - 1)) as nat, |i: int| ' '));
            }
            pad -= 1;
        }
        let mut i: usize = 0;
        let ghost before_right = out@;
        while i < right.len()
            invariant
                i <= right@.len(),
                out@ == before_right + right@.subrange(0, i as int),
            decreases right@.len() - i,
        {
            out.push(right[i]);
            proof {
                assert(out@ =~= before_right + right@.subrange(0, i as int + 1));
            }
            i += 1;
        }
        proof {
            assert(out@ =~= before_right + right@);
            assert(out@ =~= render_spec(
                self.spec_mode(),
                self.spec_file_path(),
                self.spec_modified(),
                self.spec_line() as int,
                self.spec_col() as int,
                self.spec_total_lines() as int,
                width as int,
            ));
        }
        chars_to_string(&out)
    }
}

} // verus!
