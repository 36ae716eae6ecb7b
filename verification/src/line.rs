//! A single text line with a dirty flag for incremental redrawing.

use vstd::prelude::*;

verus! {

pub struct Line {
    content: Vec<char>,
    dirty: bool,
}

impl Line {
    /// The characters held.
    pub closed spec fn spec_content(self) -> Seq<char> {
        self.content@
    }

    /// Whether the line changed since it was last drawn.
    pub closed spec fn spec_dirty(self) -> bool {
        self.dirty
    }

    pub fn new(content: Vec<char>) -> (l: Line)
        ensures
            l.spec_content() == content@,
            !l.spec_dirty(),
    {
        Line { content, dirty: false }
    }

    pub fn content(&self) -> (r: &Vec<char>)
        ensures
            r@ == self.spec_content(),
    {
        &self.content
    }

    pub fn len(&self) -> (n: usize)
        ensures
            n == self.spec_content().len(),
    {
        self.content.len()
    }

    pub fn is_empty(&self) -> (r: bool)
        ensures
            r == (self.spec_content().len() == 0),
    {
        self.content.len() == 0
    }

    /// Inserts a character, marking the line dirty.
    pub fn insert(&mut self, pos: usize, ch: char)
        requires
            pos <= old(self).spec_content().len(),
        ensures
            final(self).spec_content()
                == old(self).spec_content().insert(pos as int, ch),
            final(self).spec_dirty(),
    {
        self.content.insert(pos, ch);
        self.dirty = true;
    }

    /// Removes and returns a character, marking the line dirty.
    pub fn remove(&mut self, pos: usize) -> (c: char)
        requires
            pos < old(self).spec_content().len(),
        ensures
            final(self).spec_content() == old(self).spec_content().remove(pos as int),
            c == old(self).spec_content()[pos as int],
            final(self).spec_dirty(),
    {
        self.dirty = true;
        self.content.remove(pos)
    }

    pub fn is_dirty(&self) -> (r: bool)
        ensures
            r == self.spec_dirty(),
    {
        self.dirty
    }

    pub fn mark_clean(&mut self)
        ensures
            final(self).spec_content() == old(self).spec_content(),
            !final(self).spec_dirty(),
    {
        self.dirty = false;
    }
}

} // verus!
