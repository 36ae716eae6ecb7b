//! A gap buffer: a character array with a movable hole at the editing
//! point, so that repeated insertion and deletion at one spot are cheap.
//!
//! The text it holds is what stands before and after the gap; the gap's
//! own cells are dead storage.

use vstd::prelude::*;
use vstd::pervasive::VecAdditionalExecFns;
use crate::text::{chars_to_string, str_to_chars};

verus! {

pub struct GapBuffer {
    buffer: Vec<char>,
    gap_start: usize,
    gap_end: usize,
}

impl GapBuffer {
    /// The gap lies within the backing storage.
    pub closed spec fn wf(self) -> bool {
        self.gap_start <= self.gap_end <= self.buffer@.len()
    }

    /// The text held: everything before and after the gap.
    pub closed spec fn text(self) -> Seq<char> {
        self.buffer@.subrange(0, self.gap_start as int)
            + self.buffer@.subrange(self.gap_end as int, self.buffer@.len() as int)
    }

    /// The editing point: insertions land here.
    pub closed spec fn gap_at(self) -> usize {
        self.gap_start
    }

    /// Storage with `n` dead cells.
    fn nulls(n: usize) -> (r: Vec<char>)
        ensures
            r@.len() == n,
    {
        let mut r: Vec<char> = Vec::new();
        let mut i: usize = 0;
        while i < n
            invariant
                i <= n,
                r@.len() == i,
            decreases n - i,
        {
            r.push('\0');
            i += 1;
        }
        r
    }

    pub fn new() -> (g: GapBuffer)
        ensures
            g.wf(),
            g.text() == Seq::<char>::empty(),
            g.gap_at() == 0,
    {
        let initial_gap_size: usize = 16;
        let g = GapBuffer {
            buffer: Self::nulls(initial_gap_size),
            gap_start: 0,
            gap_end: initial_gap_size,
        };
        proof {
            assert(g.text() =~= Seq::<char>::empty());
        }
        g
    }

    /// A buffer holding the string's characters, with the gap at the end.
    pub fn from_string(s: &str) -> (g: GapBuffer)
        requires
            s@.len() <= usize::MAX / 2,
        ensures
            g.wf(),
            g.text() == s@,
            g.gap_at() == s@.len(),
    {
        let mut chars = str_to_chars(s);
        let len = chars.len();
        let gap_size = if len / 2 > 16 {
            len / 2
        } else {
            16
        };
        let ghost chars0 = chars@;
        let mut i: usize = 0;
        while i < gap_size
            invariant
                i <= gap_size,
                chars@ == chars0 + Seq::new(i as nat, |j: int| '\0'),
            decreases gap_size - i,
        {
            chars.push('\0');
            proof {
                assert(chars@ =~= chars0 + Seq::new(i as nat + 1, |j: int| '\0'));
            }
            i += 1;
        }
        let g = GapBuffer { buffer: chars, gap_start: len, gap_end: len + gap_size };
        proof {
            assert(g.text() =~= s@);
        }
        g
    }

    /// The number of characters held.
    pub fn len(&self) -> (n: usize)
        requires
            self.wf(),
        ensures
            n == self.text().len(),
    {
        self.buffer.len() - (self.gap_end - self.gap_start)
    }

    pub fn is_empty(&self) -> (r: bool)
        requires
            self.wf(),
        ensures
            r == (self.text().len() == 0),
    {
        self.len() == 0
    }

    /// Widens the gap so that at least one cell is free, doubling it (a
    /// closed gap reopens at a fixed width).
    fn grow_gap(&mut self)
        requires
            old(self).wf(),
        ensures
            final(self).wf(),
            final(self).text() == old(self).text(),
            final(self).gap_at() == old(self).gap_at(),
            final(self).gap_end() > final(self).gap_at(),
    {
        let gap_size = self.gap_end - self.gap_start;
        let additional = if gap_size == 0 {
            16
        } else {
            gap_size
        };
        let ghost b0 = self.buffer@;
        let mut i: usize = 0;
        while i < additional
            invariant
                i <= additional,
                self.gap_start == old(self).gap_start,
                self.gap_end == old(self).gap_end,
                self.gap_start <= self.gap_end,
                self.gap_end <= b0.len(),
                self.buffer@.len() == b0.len() + i,
                self.buffer@ == b0.subrange(0, self.gap_end as int)
                    + Seq::new(i as nat, |j: int| '\0')
                    + b0.subrange(self.gap_end as int, b0.len() as int),
            decreases additional - i,
        {
            self.buffer.insert(self.gap_end, '\0');
            proof {
                assert(self.buffer@ =~= b0.subrange(0, self.gap_end as int)
                    + Seq::new(i as nat + 1, |j: int| '\0')
                    + b0.subrange(self.gap_end as int, b0.len() as int));
            }
            i += 1;
        }
        proof {
            assert(self.gap_end + additional <= self.buffer.len());
        }
        self.gap_end = self.gap_end + additional;
        proof {
            assert(self.text() =~= old(self).text());
        }
    }

    /// Where the gap ends (exclusive); equal to `gap_at` plus the free room.
    pub closed spec fn gap_end(self) -> usize {
        self.gap_end
    }

    /// Moves the editing point to `pos`, shifting characters across the
    /// gap; the text itself is unchanged.
    pub fn move_gap(&mut self, pos: usize)
        requires
            old(self).wf(),
            pos <= old(self).text().len(),
        ensures
            final(self).wf(),
            final(self).text() == old(self).text(),
            final(self).gap_at() == pos,
    {
        let ghost b0 = self.buffer@;
        if pos < self.gap_start {
            let distance = self.gap_start - pos;
            let base = self.gap_end - distance;
            let mut k: usize = distance;
            while k > 0
                invariant
                    k <= distance,
                    distance == old(self).gap_start - pos,
                    base == old(self).gap_end - distance,
                    self.gap_start == old(self).gap_start,
                    self.gap_end == old(self).gap_end,
                    pos + distance == self.gap_start,
                    self.gap_start <= self.gap_end <= self.buffer@.len(),
                    self.buffer@.len() == b0.len(),
                    forall|j: int| 0 <= j < base + k ==> #[trigger] self.buffer@[j] == b0[j],
                    forall|j: int| base + k <= j < base + distance
                        ==> #[trigger] self.buffer@[j] == b0[pos + (j - base)],
                    forall|j: int| self.gap_end <= j < self.buffer@.len()
                        ==> #[trigger] self.buffer@[j] == b0[j],
                decreases k,
            {
                k -= 1;
                let c = self.buffer[pos + k];
                self.buffer.set(base + k, c);
            }
            self.gap_start = pos;
            self.gap_end = base;
            proof {
                assert(self.text() =~= old(self).text());
            }
        } else if pos > self.gap_start {
            let distance = pos - self.gap_start;
            let ghost old_start = self.gap_start as int;
            let mut k: usize = 0;
            while k < distance
                invariant
                    k <= distance,
                    distance == pos - old(self).gap_start,
                    self.gap_start == old(self).gap_start,
                    self.gap_end == old(self).gap_end,
                    self.gap_start <= self.gap_end,
                    self.gap_end + distance <= self.buffer.len(),
                    self.buffer@.len() == b0.len(),
                    forall|j: int| 0 <= j < self.gap_start
                        ==> #[trigger] self.buffer@[j] == b0[j],
                    forall|j: int| self.gap_start <= j < self.gap_start + k
                        ==> #[trigger] self.buffer@[j]
                            == b0[self.gap_end + (j - self.gap_start)],
                    forall|j: int| self.gap_start + k <= j < self.buffer@.len()
                        ==> #[trigger] self.buffer@[j] == b0[j],
                decreases distance - k,
            {
                let c = self.buffer[self.gap_end + k];
                self.buffer.set(self.gap_start + k, c);
                k += 1;
            }
            self.gap_start = self.gap_start + distance;
            self.gap_end = self.gap_end + distance;
            proof {
                assert(self.text() =~= old(self).text());
            }
        }
    }

    /// Inserts a character at the editing point.
    pub fn insert(&mut self, ch: char)
        requires
            old(self).wf(),
        ensures
            final(self).wf(),
            final(self).text() == old(self).text().insert(old(self).gap_at() as int, ch),
            final(self).gap_at() == old(self).gap_at() + 1,
    {
        if self.gap_start == self.gap_end {
            self.grow_gap();
        }
        self.buffer.set(self.gap_start, ch);
        self.gap_start = self.gap_start + 1;
        proof {
            assert(self.text()
                =~= old(self).text().insert(old(self).gap_at() as int, ch));
        }
    }

    /// Deletes the character just after the editing point, if any.
    pub fn delete(&mut self)
        requires
            old(self).wf(),
        ensures
            final(self).wf(),
            final(self).gap_at() == old(self).gap_at(),
            final(self).text() == if old(self).gap_at() < old(self).text().len() {
                old(self).text().remove(old(self).gap_at() as int)
            } else {
                old(self).text()
            },
    {
        if self.gap_end < self.buffer.len() {
            self.gap_end = self.gap_end + 1;
            proof {
                assert(self.text()
                    =~= old(self).text().remove(old(self).gap_at() as int));
            }
        }
    }

    /// Deletes the character just before the editing point, if any.
    pub fn backspace(&mut self)
        requires
            old(self).wf(),
        ensures
            final(self).wf(),
            final(self).text() == if old(self).gap_at() > 0 {
                old(self).text().remove(old(self).gap_at() - 1)
            } else {
                old(self).text()
            },
            final(self).gap_at() == if old(self).gap_at() > 0 {
                (old(self).gap_at() - 1) as usize
            } else {
                0usize
            },
    {
        if self.gap_start > 0 {
            self.gap_start = self.gap_start - 1;
            proof {
                assert(self.text()
                    =~= old(self).text().remove(old(self).gap_at() - 1));
            }
        }
    }

    /// The text held, as a string.
    pub fn to_string(&self) -> (r: String)
        requires
            self.wf(),
        ensures
            r@ == self.text(),
    {
        let mut chars: Vec<char> = Vec::new();
        let mut i: usize = 0;
        while i < self.gap_start
            invariant
                self.wf(),
                i <= self.gap_start,
                chars@ == self.buffer@.subrange(0, i as int),
            decreases self.gap_start - i,
        {
            chars.push(self.buffer[i]);
            proof {
                assert(chars@ =~= self.buffer@.subrange(0, i as int + 1));
            }
            i += 1;
        }
        let mut j: usize = self.gap_end;
        while j < self.buffer.len()
            invariant
                self.wf(),
                self.gap_end <= j <= self.buffer@.len(),
                chars@ == self.buffer@.subrange(0, self.gap_start as int)
                    + self.buffer@.subrange(self.gap_end as int, j as int),
            decreases self.buffer@.len() - j,
        {
            chars.push(self.buffer[j]);
            proof {
                assert(chars@ =~= self.buffer@.subrange(0, self.gap_start as int)
                    + self.buffer@.subrange(self.gap_end as int, j as int + 1));
            }
            j += 1;
        }
        proof {
            assert(chars@ =~= self.text());
        }
        chars_to_string(&chars)
    }
}

/// The editing point always lies within the text: what every
/// constructor establishes and every operation keeps, exported so that a
/// caller can combine it with the operations' `Seq` contracts.
pub proof fn lemma_gap_at_in_text(g: GapBuffer)
    requires
        g.wf(),
    ensures
        g.gap_at() <= g.text().len(),
{
}

impl Default for GapBuffer {
    fn default() -> (g: GapBuffer)
        ensures
            g.wf(),
            g.text() == Seq::<char>::empty(),
    {
        GapBuffer::new()
    }
}

} // verus!
