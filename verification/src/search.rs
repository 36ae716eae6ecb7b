//! Plain-text search over a buffer: every occurrence of the query, in
//! document order, with a movable current-match index.  Match columns
//! are character offsets, like every column in this library.

use vstd::prelude::*;
use crate::buffer::Buffer;
use crate::text::str_to_chars;

verus! {

/// The query occurs in `line` starting at column `col`.
pub open spec fn occurs_at(line: Seq<char>, query: Seq<char>, col: int) -> bool {
    &&& query.len() > 0
    &&& 0 <= col
    &&& col + query.len() <= line.len()
    &&& line.subrange(col, col + query.len()) == query
}

/// Positions in document order: by line, then by column.
pub open spec fn lex_before(a: (usize, usize), b: (usize, usize)) -> bool {
    a.0 < b.0 || (a.0 == b.0 && a.1 < b.1)
}

pub struct SearchState {
    pub query: Vec<char>,
    pub forward: bool,
    pub matches: Vec<(usize, usize)>,
    pub current_match: Option<usize>,
}

impl SearchState {
    /// The current-match index, when set, points into the match list.
    pub open spec fn wf(self) -> bool {
        match self.current_match {
            Some(i) => i < self.matches@.len(),
            None => true,
        }
    }

    pub fn new() -> (s: SearchState)
        ensures
            s.wf(),
            s.query@.len() == 0,
            s.forward,
            s.matches@.len() == 0,
            s.current_match is None,
    {
        SearchState {
            query: Vec::new(),
            forward: true,
            matches: Vec::new(),
            current_match: None,
        }
    }

    /// Finds every occurrence of `query` in the buffer, in document order,
    /// and selects the first one.  An empty query clears the match list.
    pub fn search(&mut self, buffer: &Buffer, query: &str, forward: bool)
        ensures
            final(self).wf(),
            final(self).query@ == query@,
            final(self).forward == forward,
            forall|m: (usize, usize)| #[trigger] final(self).matches@.contains(m)
                <==> (m.0 < buffer@.lines.len()
                    && occurs_at(buffer@.lines[m.0 as int], query@, m.1 as int)),
            forall|i: int, j: int| 0 <= i < j < final(self).matches@.len()
                ==> lex_before(
                    #[trigger] final(self).matches@[i],
                    #[trigger] final(self).matches@[j],
                ),
            final(self).current_match == if final(self).matches@.len() > 0 {
                Some(0usize)
            } else {
                None::<usize>
            },
    {
        self.query = str_to_chars(query);
        self.forward = forward;
        self.matches = Vec::new();
        self.current_match = None;

        if self.query.len() == 0 {
            proof {
                assert(forall|m: (usize, usize)| !self.matches@.contains(m));
            }
            return;
        }

        let line_count = buffer.line_count();
        let mut line_idx: usize = 0;
        while line_idx < line_count
            invariant
                line_count == buffer@.lines.len(),
                line_idx <= line_count,
                self.query@ == query@,
                self.query@.len() > 0,
                self.forward == forward,
                self.current_match is None,
                forall|m: (usize, usize)| #[trigger] self.matches@.contains(m)
                    <==> (m.0 < line_idx
                        && occurs_at(buffer@.lines[m.0 as int], query@, m.1 as int)),
                forall|i: int, j: int| 0 <= i < j < self.matches@.len()
                    ==> lex_before(
                        #[trigger] self.matches@[i],
                        #[trigger] self.matches@[j],
                    ),
                forall|i: int| 0 <= i < self.matches@.len()
                    ==> (#[trigger] self.matches@[i]).0 < line_idx,
            decreases line_count - line_idx,
        {
            let line = match buffer.get_line(line_idx) {
                Some(l) => l,
                None => {
                    proof {
                        assert(false);
                    }
                    return;
                },
            };
            if self.query.len() <= line.len() {
                let last_start = line.len() - self.query.len();
                let mut col: usize = 0;
                while col <= last_start
                    invariant
                        line_count == buffer@.lines.len(),
                        line_idx < line_count,
                        line@ == buffer@.lines[line_idx as int],
                        self.query@ == query@,
                        self.query@.len() > 0,
                        self.forward == forward,
                        self.current_match is None,
                        last_start == line@.len() - self.query@.len(),
                        last_start + 1 <= line.len(),
                        col <= last_start + 1,
                        forall|m: (usize, usize)| #[trigger] self.matches@.contains(m)
                            <==> ((m.0 < line_idx
                                && occurs_at(buffer@.lines[m.0 as int], query@, m.1 as int))
                                || (m.0 == line_idx && m.1 < col
                                    && occurs_at(line@, query@, m.1 as int))),
                        forall|i: int, j: int| 0 <= i < j < self.matches@.len()
                            ==> lex_before(
                                #[trigger] self.matches@[i],
                                #[trigger] self.matches@[j],
                            ),
                        forall|i: int| 0 <= i < self.matches@.len()
                            ==> ((#[trigger] self.matches@[i]).0 < line_idx
                                || (self.matches@[i].0 == line_idx
                                    && self.matches@[i].1 < col)),
                    decreases last_start + 1 - col,
                {
                    if Self::query_matches_at(line, &self.query, col) {
                        let ghost before = self.matches@;
                        self.matches.push((line_idx, col));
                        proof {
                            assert forall|m: (usize, usize)|
                                #[trigger] self.matches@.contains(m)
                                implies ((m.0 < line_idx
                                    && occurs_at(buffer@.lines[m.0 as int], query@, m.1 as int))
                                    || (m.0 == line_idx && m.1 < col + 1
                                        && occurs_at(line@, query@, m.1 as int))) by {
                                if m != (line_idx, col) {
                                    assert(before.contains(m)) by {
                                        let i = choose|i: int|
                                            0 <= i < self.matches@.len()
                                            && self.matches@[i] == m;
                                        assert(before[i] == m);
                                    }
                                }
                            }
                            assert forall|m: (usize, usize)|
                                ((m.0 < line_idx
                                    && occurs_at(buffer@.lines[m.0 as int], query@, m.1 as int))
                                    || (m.0 == line_idx && m.1 < col + 1
                                        && occurs_at(line@, query@, m.1 as int)))
                                implies #[trigger] self.matches@.contains(m) by {
                                if m == (line_idx, col) {
                                    assert(self.matches@[self.matches@.len() - 1] == m);
                                } else {
                                    assert(before.contains(m));
                                    let i = choose|i: int|
                                        0 <= i < before.len() && before[i] == m;
                                    assert(self.matches@[i] == m);
                                }
                            }
                        }
                    }
                    col += 1;
                }
                proof {
                    assert forall|m: (usize, usize)| #[trigger] self.matches@.contains(m)
                        implies ((m.0 < line_idx + 1
                            && occurs_at(buffer@.lines[m.0 as int], query@, m.1 as int)))
                        by {}
                    assert forall|m: (usize, usize)|
                        (m.0 < line_idx + 1
                            && occurs_at(buffer@.lines[m.0 as int], query@, m.1 as int))
                        implies #[trigger] self.matches@.contains(m) by {
                        if m.0 == line_idx {
                            assert(m.1 + query@.len() <= line@.len());
                            assert(m.1 <= last_start);
                        }
                    }
                }
            } else {
                proof {
                    assert forall|m: (usize, usize)|
                        (m.0 < line_idx + 1
                            && occurs_at(buffer@.lines[m.0 as int], query@, m.1 as int))
                        implies #[trigger] self.matches@.contains(m) by {
                        if m.0 == line_idx {
                            assert(m.1 + query@.len() <= line@.len());
                        }
                    }
                }
            }
            line_idx += 1;
        }

        if self.matches.len() > 0 {
            self.current_match = Some(0);
        }
    }

    /// Whether the query stands at `col` in the line.
    fn query_matches_at(line: &Vec<char>, query: &Vec<char>, col: usize) -> (r: bool)
        requires
            query@.len() > 0,
            col + query@.len() <= line@.len(),
        ensures
            r == occurs_at(line@, query@, col as int),
    {
        let mut k: usize = 0;
        while k < query.len()
            invariant
                k <= query@.len(),
                col + query@.len() <= line.len(),
                forall|j: int| 0 <= j < k ==> line@[col + j] == query@[j],
            decreases query@.len() - k,
        {
            if line[col + k] != query[k] {
                proof {
                    assert(line@.subrange(col as int, col + query@.len())[k as int]
                        == line@[col + k]);
                    assert(line@.subrange(col as int, col + query@.len()) != query@);
                }
                return false;
            }
            k += 1;
        }
        proof {
            assert(line@.subrange(col as int, col + query@.len()) =~= query@);
        }
        true
    }

    /// Advances to the next match in the search direction (wrapping), and
    /// returns its position.
    pub fn next_match(&mut self) -> (r: Option<(usize, usize)>)
        requires
            old(self).wf(),
        ensures
            final(self).wf(),
            final(self).query == old(self).query,
            final(self).forward == old(self).forward,
            final(self).matches == old(self).matches,
            old(self).matches@.len() == 0 || old(self).current_match is None ==> {
                &&& r is None
                &&& final(self).current_match == old(self).current_match
            },
            old(self).current_match matches Some(cur)
                ==> old(self).matches@.len() > 0 ==> ({
                let len = old(self).matches@.len() as int;
                let next = if old(self).forward {
                    (cur + 1) as int % len
                } else {
                    if cur == 0 {
                        len - 1
                    } else {
                        cur - 1
                    }
                };
                &&& final(self).current_match == Some(next as usize)
                &&& r == Some(old(self).matches@[next])
            }),
    {
        if self.matches.len() == 0 {
            return None;
        }
        match self.current_match {
            Some(current) => {
                let len = self.matches.len();
                let next = if self.forward {
                    (current + 1) % len
                } else {
                    if current == 0 {
                        len - 1
                    } else {
                        current - 1
                    }
                };
                self.current_match = Some(next);
                Some(self.matches[next])
            },
            None => None,
        }
    }

    /// Steps back to the previous match (wrapping), regardless of the
    /// search direction, and returns its position.
    pub fn prev_match(&mut self) -> (r: Option<(usize, usize)>)
        requires
            old(self).wf(),
        ensures
            final(self).wf(),
            final(self).query == old(self).query,
            final(self).forward == old(self).forward,
            final(self).matches == old(self).matches,
            old(self).matches@.len() == 0 || old(self).current_match is None ==> {
                &&& r is None
                &&& final(self).current_match == old(self).current_match
            },
            old(self).current_match matches Some(cur)
                ==> old(self).matches@.len() > 0 ==> ({
                let len = old(self).matches@.len() as int;
                let prev = if cur == 0 {
                    len - 1
                } else {
                    cur - 1
                };
                &&& final(self).current_match == Some(prev as usize)
                &&& r == Some(old(self).matches@[prev])
            }),
    {
        if self.matches.len() == 0 {
            return None;
        }
        match self.current_match {
            Some(current) => {
                let prev = if current == 0 {
                    self.matches.len() - 1
                } else {
                    current - 1
                };
                self.current_match = Some(prev);
                Some(self.matches[prev])
            },
            None => None,
        }
    }

    /// The selected match, if any.
    pub fn current(&self) -> (r: Option<(usize, usize)>)
        ensures
            r == match self.current_match {
                Some(i) => if i < self.matches@.len() {
                    Some(self.matches@[i as int])
                } else {
                    None::<(usize, usize)>
                },
                None => None::<(usize, usize)>,
            },
    {
        match self.current_match {
            Some(i) => {
                if i < self.matches.len() {
                    Some(self.matches[i])
                } else {
                    None
                }
            },
            None => None,
        }
    }

    /// Forgets the query and all matches.
    pub fn clear(&mut self)
        ensures
            final(self).wf(),
            final(self).query@.len() == 0,
            final(self).matches@.len() == 0,
            final(self).current_match is None,
            final(self).forward == old(self).forward,
    {
        self.query = Vec::new();
        self.matches = Vec::new();
        self.current_match = None;
    }

    /// A search is active while a query is held.
    pub fn is_active(&self) -> (r: bool)
        ensures
            r == (self.query@.len() > 0),
    {
        self.query.len() > 0
    }

    pub fn match_count(&self) -> (n: usize)
        ensures
            n == self.matches@.len(),
    {
        self.matches.len()
    }
}

impl Default for SearchState {
    fn default() -> (s: SearchState)
        ensures
            s.wf(),
            s.query@.len() == 0,
            s.forward,
            s.matches@.len() == 0,
            s.current_match is None,
    {
        SearchState::new()
    }
}

} // verus!
