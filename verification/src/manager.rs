//! The window manager: owner of all buffers and windows, of the layout tree
//! and of the computed per-window screen rectangles.
//!
//! Invariants kept across every operation: the active-window index is valid;
//! every window's buffer id names a live buffer; the layout tree is a strict
//! binary tree whose leaves name exactly the live windows, each once.  Window
//! ids are positions in a dense vector, so closing a window renumbers every
//! tree reference above the removed id.

use vstd::prelude::*;
use std::collections::HashMap;
use crate::buffer::Buffer;
use crate::cursor::Cursor;
use crate::window::{LayoutNode, Ratio, SplitType, TreeView, Window};

verus! {

broadcast use vstd::std_specs::hash::group_hash_axioms;

/// Screen rectangle of one window.
#[derive(Debug, Clone, Copy, PartialEq, Eq, Structural)]
pub struct WindowBounds {
    pub x: usize,
    pub y: usize,
    pub width: usize,
    pub height: usize,
}

impl WindowBounds {
    pub fn new(x: usize, y: usize, width: usize, height: usize) -> (b: WindowBounds)
        ensures
            b == (WindowBounds { x, y, width, height }),
    {
        WindowBounds { x, y, width, height }
    }
}

/// The leaf ids after replacing each leaf `w` by the pair `(w, nw)`:
/// what splitting window `w` does to the sequence of leaves.
pub open spec fn split_ids(s: Seq<usize>, w: usize, nw: usize) -> Seq<usize>
    decreases s.len(),
{
    if s.len() == 0 {
        Seq::empty()
    } else {
        (if s[0] == w {
            seq![w, nw]
        } else {
            seq![s[0]]
        }) + split_ids(s.drop_first(), w, nw)
    }
}

/// The leaf ids after removing the first occurrence of `w`.
pub open spec fn remove_first_id(s: Seq<usize>, w: usize) -> Seq<usize>
    decreases s.len(),
{
    if s.len() == 0 {
        s
    } else if s[0] == w {
        s.drop_first()
    } else {
        seq![s[0]] + remove_first_id(s.drop_first(), w)
    }
}

/// The leaf ids after a close: every id above the removed one shifts down.
pub open spec fn renumber_ids(s: Seq<usize>, w: usize) -> Seq<usize> {
    s.map_values(|id: usize| if id > w { (id - 1) as usize } else { id })
}

proof fn lemma_split_ids_concat(a: Seq<usize>, b: Seq<usize>, w: usize, nw: usize)
    ensures
        split_ids(a + b, w, nw) == split_ids(a, w, nw) + split_ids(b, w, nw),
    decreases a.len(),
{
    if a.len() == 0 {
        assert(a + b =~= b);
        assert(split_ids(a, w, nw) + split_ids(b, w, nw) =~= split_ids(b, w, nw));
    } else {
        assert((a + b).drop_first() =~= a.drop_first() + b);
        lemma_split_ids_concat(a.drop_first(), b, w, nw);
        assert(split_ids(a + b, w, nw) =~= split_ids(a, w, nw) + split_ids(b, w, nw));
    }
}

proof fn lemma_remove_first_concat(a: Seq<usize>, b: Seq<usize>, w: usize)
    ensures
        remove_first_id(a + b, w) == if a.contains(w) {
            remove_first_id(a, w) + b
        } else {
            a + remove_first_id(b, w)
        },
    decreases a.len(),
{
    if a.len() == 0 {
        assert(a + b =~= b);
        assert(!a.contains(w));
        assert(a + remove_first_id(b, w) =~= remove_first_id(b, w));
    } else {
        if a[0] == w {
            assert(a.contains(w));
            assert((a + b).drop_first() =~= a.drop_first() + b);
            assert(remove_first_id(a + b, w) =~= remove_first_id(a, w) + b);
        } else {
            assert((a + b).drop_first() =~= a.drop_first() + b);
            lemma_remove_first_concat(a.drop_first(), b, w);
            if a.drop_first().contains(w) {
                assert(a.contains(w));
                assert(remove_first_id(a + b, w) =~= remove_first_id(a, w) + b);
            } else {
                assert(!a.contains(w)) by {
                    if a.contains(w) {
                        let i = choose|i: int| 0 <= i < a.len() && a[i] == w;
                        assert(i != 0);
                        assert(a.drop_first()[i - 1] == w);
                    }
                }
                assert(remove_first_id(a + b, w) =~= a + remove_first_id(b, w));
            }
        }
    }
}

/// Membership and uniqueness carried through `split_ids`: splitting a leaf
/// adds exactly the new id.
proof fn lemma_split_ids_props(s: Seq<usize>, w: usize, nw: usize)
    requires
        s.no_duplicates(),
        !s.contains(nw),
        w != nw,
    ensures
        split_ids(s, w, nw).no_duplicates(),
        forall|id: usize| #[trigger] split_ids(s, w, nw).contains(id)
            <==> (s.contains(id) || (id == nw && s.contains(w))),
    decreases s.len(),
{
    if s.len() == 0 {
    } else {
        let tail = s.drop_first();
        assert(forall|id: usize| tail.contains(id) ==> s.contains(id)) by {
            assert(forall|i: int| 0 <= i < tail.len() ==> tail[i] == s[i + 1]);
        }
        assert(tail.no_duplicates());
        assert(!tail.contains(nw)) by {
            if tail.contains(nw) {
                assert(s.contains(nw));
            }
        }
        lemma_split_ids_props(tail, w, nw);
        let head: Seq<usize> = if s[0] == w {
            seq![w, nw]
        } else {
            seq![s[0]]
        };
        let rest = split_ids(tail, w, nw);
        // membership of the concatenation
        assert forall|id: usize| #[trigger] split_ids(s, w, nw).contains(id)
            implies (s.contains(id) || (id == nw && s.contains(w))) by {
            let i = choose|i: int| 0 <= i < (head + rest).len() && (head + rest)[i] == id;
            if i < head.len() {
                assert(head[i] == id);
                if s[0] == w {
                    assert(id == w || id == nw);
                    assert(s.contains(s[0]));
                } else {
                    assert(id == s[0]);
                    assert(s.contains(s[0]));
                }
            } else {
                assert(rest[i - head.len()] == id);
                assert(rest.contains(id));
                if tail.contains(id) {
                    assert(s.contains(id)) by {
                        let j = choose|j: int| 0 <= j < tail.len() && tail[j] == id;
                        assert(s[j + 1] == id);
                    }
                } else {
                    assert(id == nw && tail.contains(w));
                    assert(s.contains(w)) by {
                        let j = choose|j: int| 0 <= j < tail.len() && tail[j] == w;
                        assert(s[j + 1] == w);
                    }
                }
            }
        }
        assert forall|id: usize| (s.contains(id) || (id == nw && s.contains(w)))
            implies #[trigger] split_ids(s, w, nw).contains(id) by {
            if s.contains(id) {
                let i = choose|i: int| 0 <= i < s.len() && s[i] == id;
                if i == 0 {
                    assert(head[0] == s[0]);
                    assert((head + rest)[0] == id);
                } else {
                    assert(tail[i - 1] == id);
                    assert(rest.contains(id));
                    let j = choose|j: int| 0 <= j < rest.len() && rest[j] == id;
                    assert((head + rest)[head.len() + j] == id);
                }
            } else {
                // id == nw and w occurs in s
                let i = choose|i: int| 0 <= i < s.len() && s[i] == w;
                if i == 0 {
                    assert(head[1] == nw);
                    assert((head + rest)[1] == nw);
                } else {
                    assert(tail[i - 1] == w);
                    assert(rest.contains(nw));
                    let j = choose|j: int| 0 <= j < rest.len() && rest[j] == nw;
                    assert((head + rest)[head.len() + j] == nw);
                }
            }
        }
        // uniqueness of the concatenation
        assert(head.no_duplicates());
        assert(rest.no_duplicates());
        assert(!tail.contains(s[0]));
        assert forall|i: int, j: int|
            0 <= i < j < (head + rest).len()
            implies (head + rest)[i] != (head + rest)[j] by {
            if i < head.len() && j >= head.len() {
                let a = (head + rest)[i];
                let b = (head + rest)[j];
                assert(rest.contains(b)) by {
                    assert(rest[j - head.len()] == b);
                }
                assert(tail.contains(b) || (b == nw && tail.contains(w)));
                if s[0] == w {
                    // head is [w, nw]; tail holds neither w nor nw
                    assert(a == w || a == nw);
                    assert(tail.contains(b));
                    assert(b != w && b != nw);
                } else {
                    assert(a == s[0]);
                    if tail.contains(b) {
                        assert(b != s[0]);
                    } else {
                        assert(b == nw);
                        assert(s.contains(s[0]));
                        assert(s[0] != nw);
                    }
                }
            } else if i >= head.len() {
                assert(rest[i - head.len()] != rest[j - head.len()]);
            }
        }
        assert(split_ids(s, w, nw).no_duplicates());
    }
}

/// The shape of a layout tree after a split: every leaf naming `w` (with
/// unique ids, the one leaf) becomes a split of the given direction at
/// ratio one half, its first child the old leaf and its second a leaf
/// naming `nw`; everything else keeps its shape, ratios included.
pub open spec fn split_tree(t: TreeView, w: usize, nw: usize, st: SplitType) -> TreeView
    decreases t,
{
    match t {
        TreeView::Leaf { window_id } => {
            if window_id == w {
                TreeView::Split {
                    split_type: st,
                    ratio: Ratio { num: 1, den: 2 },
                    children: seq![
                        TreeView::Leaf { window_id: w },
                        TreeView::Leaf { window_id: nw },
                    ],
                }
            } else {
                t
            }
        },
        TreeView::Split { split_type, ratio, children } => {
            if children.len() == 2 {
                TreeView::Split {
                    split_type,
                    ratio,
                    children: seq![
                        split_tree(children[0], w, nw, st),
                        split_tree(children[1], w, nw, st),
                    ],
                }
            } else {
                t
            }
        },
    }
}

impl LayoutNode {
    /// Replaces the (first and, with unique ids, only) leaf naming
    /// `window_id` with a half split whose first child is the old leaf and
    /// whose second names `new_window_id`.  The resulting tree's whole
    /// shape is `split_tree` of the old one.
    pub fn split_leaf(
        self,
        window_id: usize,
        new_window_id: usize,
        split_type: SplitType,
    ) -> (r: LayoutNode)
        requires
            self.wf(),
        ensures
            r.wf(),
            r.leaves() == split_ids(self.leaves(), window_id, new_window_id),
            r.tree_view() == split_tree(self.tree_view(), window_id, new_window_id, split_type),
        decreases self,
    {
        match self {
            LayoutNode::Leaf { window_id: id } => {
                if id == window_id {
                    let mut children: Vec<Box<LayoutNode>> = Vec::new();
                    children.push(Box::new(LayoutNode::Leaf { window_id }));
                    children.push(Box::new(LayoutNode::Leaf { window_id: new_window_id }));
                    let r = LayoutNode::Split { split_type, ratio: Ratio::half(), children };
                    proof {
                        reveal_with_fuel(split_ids, 2);
                        reveal_with_fuel(LayoutNode::leaves, 3);
                        reveal_with_fuel(LayoutNode::wf, 3);
                        reveal_with_fuel(LayoutNode::tree_view, 3);
                        assert(r.wf());
                        assert(r.leaves()
                            =~= split_ids(seq![window_id], window_id, new_window_id));
                        assert(r.tree_view() =~= split_tree(
                            TreeView::Leaf { window_id },
                            window_id,
                            new_window_id,
                            split_type,
                        ));
                    }
                    r
                } else {
                    let r = LayoutNode::Leaf { window_id: id };
                    proof {
                        reveal_with_fuel(split_ids, 2);
                        assert(r.leaves() =~= split_ids(r.leaves(), window_id, new_window_id));
                    }
                    r
                }
            },
            LayoutNode::Split { split_type: st, ratio, children } => {
                let ghost self_leaves = (LayoutNode::Split {
                    split_type: st,
                    ratio,
                    children,
                }).leaves();
                let ghost self_tv = (LayoutNode::Split {
                    split_type: st,
                    ratio,
                    children,
                }).tree_view();
                let mut children = children;
                let c1 = children.pop().unwrap();
                let c0 = children.pop().unwrap();
                let ghost l0 = c0.leaves();
                let ghost l1 = c1.leaves();
                let ghost tv0 = c0.tree_view();
                let ghost tv1 = c1.tree_view();
                let n0 = (*c0).split_leaf(window_id, new_window_id, split_type);
                let n1 = (*c1).split_leaf(window_id, new_window_id, split_type);
                let mut new_children: Vec<Box<LayoutNode>> = Vec::new();
                new_children.push(Box::new(n0));
                new_children.push(Box::new(n1));
                let r = LayoutNode::Split { split_type: st, ratio, children: new_children };
                proof {
                    assert(self_leaves == l0 + l1);
                    lemma_split_ids_concat(l0, l1, window_id, new_window_id);
                    assert(r.leaves() =~= split_ids(self_leaves, window_id, new_window_id));
                    assert(self_tv == (TreeView::Split {
                        split_type: st,
                        ratio,
                        children: seq![tv0, tv1],
                    })) by {
                        assert(seq![tv0, tv1] =~= (match self_tv {
                            TreeView::Split { children: cs, .. } => cs,
                            _ => seq![tv0, tv1],
                        }));
                    }
                    assert(r.tree_view() =~= split_tree(
                        self_tv,
                        window_id,
                        new_window_id,
                        split_type,
                    ));
                }
                r
            },
        }
    }

    /// Whether any leaf names `window_id`.
    pub fn contains_leaf(&self, window_id: usize) -> (r: bool)
        requires
            self.wf(),
        ensures
            r == self.leaves().contains(window_id),
        decreases self,
    {
        match self {
            LayoutNode::Leaf { window_id: id } => {
                proof {
                    if *id == window_id {
                        assert(self.leaves()[0] == window_id);
                    }
                }
                *id == window_id
            },
            LayoutNode::Split { children, .. } => {
                let ghost l0 = children@[0].leaves();
                let ghost l1 = children@[1].leaves();
                let in0 = children[0].contains_leaf(window_id);
                let in1 = children[1].contains_leaf(window_id);
                proof {
                    assert(self.leaves() == l0 + l1);
                    if l0.contains(window_id) {
                        let i = choose|i: int| 0 <= i < l0.len() && l0[i] == window_id;
                        assert(self.leaves()[i] == window_id);
                    }
                    if l1.contains(window_id) {
                        let i = choose|i: int| 0 <= i < l1.len() && l1[i] == window_id;
                        assert(self.leaves()[l0.len() + i] == window_id);
                    }
                    if self.leaves().contains(window_id) {
                        let i = choose|i: int|
                            0 <= i < self.leaves().len() && self.leaves()[i] == window_id;
                        if i < l0.len() {
                            assert(l0[i] == window_id);
                        } else {
                            assert(l1[i - l0.len()] == window_id);
                        }
                    }
                }
                in0 || in1
            },
        }
    }

    /// Removes the first leaf naming `window_id` and collapses its parent
    /// split into the sibling.  `None` means this whole node was that leaf.
    pub fn remove_leaf(self, window_id: usize) -> (r: Option<LayoutNode>)
        requires
            self.wf(),
        ensures
            match r {
                None => self.leaves() == seq![window_id],
                Some(n) => {
                    &&& n.wf()
                    &&& n.leaves() == remove_first_id(self.leaves(), window_id)
                    &&& self.leaves().contains(window_id) ==> self.leaves().len() >= 2
                },
            },
        decreases self,
    {
        match self {
            LayoutNode::Leaf { window_id: id } => {
                if id == window_id {
                    None
                } else {
                    let r = LayoutNode::Leaf { window_id: id };
                    proof {
                        reveal_with_fuel(remove_first_id, 2);
                        assert(r.leaves() =~= remove_first_id(r.leaves(), window_id));
                    }
                    Some(r)
                }
            },
            LayoutNode::Split { split_type: st, ratio, children } => {
                let ghost self_leaves = (LayoutNode::Split {
                    split_type: st,
                    ratio,
                    children,
                }).leaves();
                let mut children = children;
                let c1 = children.pop().unwrap();
                let c0 = children.pop().unwrap();
                let ghost l0 = c0.leaves();
                let ghost l1 = c1.leaves();
                proof {
                    assert(self_leaves == l0 + l1);
                    lemma_remove_first_concat(l0, l1, window_id);
                    assert(l0.len() >= 1 && l1.len() >= 1) by {
                        lemma_leaves_len(*c0);
                        lemma_leaves_len(*c1);
                    }
                }
                let found0 = c0.contains_leaf(window_id);
                if found0 {
                    match (*c0).remove_leaf(window_id) {
                        None => {
                            proof {
                                assert(remove_first_id(self_leaves, window_id) =~= l1);
                            }
                            Some(*c1)
                        },
                        Some(n0) => {
                            let mut new_children: Vec<Box<LayoutNode>> = Vec::new();
                            new_children.push(Box::new(n0));
                            new_children.push(c1);
                            let r = LayoutNode::Split {
                                split_type: st,
                                ratio,
                                children: new_children,
                            };
                            proof {
                                assert(r.leaves()
                                    =~= remove_first_id(self_leaves, window_id));
                            }
                            Some(r)
                        },
                    }
                } else {
                    match (*c1).remove_leaf(window_id) {
                        None => {
                            proof {
                                assert(remove_first_id(self_leaves, window_id) =~= l0);
                            }
                            Some(*c0)
                        },
                        Some(n1) => {
                            let mut new_children: Vec<Box<LayoutNode>> = Vec::new();
                            new_children.push(c0);
                            new_children.push(Box::new(n1));
                            let r = LayoutNode::Split {
                                split_type: st,
                                ratio,
                                children: new_children,
                            };
                            proof {
                                assert(r.leaves()
                                    =~= remove_first_id(self_leaves, window_id));
                            }
                            Some(r)
                        },
                    }
                }
            },
        }
    }

    /// Decrements every leaf id above `window_id`: the renumbering after a
    /// close of `window_id` from a dense id space.
    pub fn renumber_above(self, window_id: usize) -> (r: LayoutNode)
        requires
            self.wf(),
        ensures
            r.wf(),
            r.leaves() == renumber_ids(self.leaves(), window_id),
        decreases self,
    {
        match self {
            LayoutNode::Leaf { window_id: id } => {
                let new_id = if id > window_id {
                    id - 1
                } else {
                    id
                };
                let r = LayoutNode::Leaf { window_id: new_id };
                proof {
                    assert(r.leaves()
                        =~= renumber_ids(seq![id], window_id));
                }
                r
            },
            LayoutNode::Split { split_type: st, ratio, children } => {
                let ghost self_leaves = (LayoutNode::Split {
                    split_type: st,
                    ratio,
                    children,
                }).leaves();
                let mut children = children;
                let c1 = children.pop().unwrap();
                let c0 = children.pop().unwrap();
                let ghost l0 = c0.leaves();
                let ghost l1 = c1.leaves();
                let n0 = (*c0).renumber_above(window_id);
                let n1 = (*c1).renumber_above(window_id);
                let mut new_children: Vec<Box<LayoutNode>> = Vec::new();
                new_children.push(Box::new(n0));
                new_children.push(Box::new(n1));
                let r = LayoutNode::Split { split_type: st, ratio, children: new_children };
                proof {
                    assert(self_leaves == l0 + l1);
                    assert(r.leaves() =~= renumber_ids(self_leaves, window_id));
                }
                r
            },
        }
    }
}

/// Membership and uniqueness carried through `remove_first_id` on a
/// duplicate-free sequence: exactly `w` disappears.
proof fn lemma_remove_first_props(s: Seq<usize>, w: usize)
    requires
        s.no_duplicates(),
    ensures
        remove_first_id(s, w).no_duplicates(),
        forall|id: usize| #[trigger] remove_first_id(s, w).contains(id)
            <==> (s.contains(id) && id != w),
        s.contains(w) ==> remove_first_id(s, w).len() == s.len() - 1,
        !s.contains(w) ==> remove_first_id(s, w) == s,
    decreases s.len(),
{
    if s.len() == 0 {
    } else {
        let tail = s.drop_first();
        assert(forall|i: int| 0 <= i < tail.len() ==> tail[i] == s[i + 1]);
        assert(tail.no_duplicates());
        assert(forall|id: usize| tail.contains(id) ==> s.contains(id)) by {
            assert forall|id: usize| tail.contains(id) implies s.contains(id) by {
                let i = choose|i: int| 0 <= i < tail.len() && tail[i] == id;
                assert(s[i + 1] == id);
            }
        }
        if s[0] == w {
            assert(s.contains(w));
            assert(!tail.contains(w));
            assert forall|id: usize| #[trigger] remove_first_id(s, w).contains(id)
                implies (s.contains(id) && id != w) by {
                assert(tail.contains(id));
            }
            assert forall|id: usize| (s.contains(id) && id != w)
                implies #[trigger] remove_first_id(s, w).contains(id) by {
                let i = choose|i: int| 0 <= i < s.len() && s[i] == id;
                assert(i != 0);
                assert(tail[i - 1] == id);
            }
        } else {
            lemma_remove_first_props(tail, w);
            let r = seq![s[0]] + remove_first_id(tail, w);
            assert(remove_first_id(s, w) == r);
            assert(!tail.contains(s[0]));
            assert forall|id: usize| #[trigger] r.contains(id)
                implies (s.contains(id) && id != w) by {
                let i = choose|i: int| 0 <= i < r.len() && r[i] == id;
                if i == 0 {
                    assert(id == s[0]);
                    assert(s.contains(s[0]));
                } else {
                    assert(remove_first_id(tail, w)[i - 1] == id);
                    assert(remove_first_id(tail, w).contains(id));
                }
            }
            assert forall|id: usize| (s.contains(id) && id != w)
                implies #[trigger] r.contains(id) by {
                let i = choose|i: int| 0 <= i < s.len() && s[i] == id;
                if i == 0 {
                    assert(r[0] == id);
                } else {
                    assert(tail[i - 1] == id);
                    assert(remove_first_id(tail, w).contains(id));
                    let j = choose|j: int|
                        0 <= j < remove_first_id(tail, w).len()
                        && remove_first_id(tail, w)[j] == id;
                    assert(r[j + 1] == id);
                }
            }
            assert forall|i: int, j: int| 0 <= i < j < r.len() implies r[i] != r[j] by {
                if i == 0 {
                    assert(remove_first_id(tail, w)[j - 1] == r[j]);
                    assert(remove_first_id(tail, w).contains(r[j]));
                    assert(tail.contains(r[j]));
                } else {
                    assert(remove_first_id(tail, w)[i - 1] != remove_first_id(tail, w)[j - 1]);
                }
            }
            assert(r.no_duplicates());
            if s.contains(w) {
                assert(tail.contains(w)) by {
                    let i = choose|i: int| 0 <= i < s.len() && s[i] == w;
                    assert(i != 0);
                    assert(tail[i - 1] == w);
                }
            } else {
                assert(!tail.contains(w));
                assert(r =~= s);
            }
        }
    }
}

/// Membership and uniqueness carried through the renumbering that follows a
/// close: ids above the removed one shift down by one, leaving the dense
/// range below the new window count.
proof fn lemma_renumber_props(s: Seq<usize>, w: usize, n: usize)
    requires
        s.no_duplicates(),
        !s.contains(w),
        w < n,
        forall|id: usize| #[trigger] s.contains(id) <==> (id < n && id != w),
    ensures
        renumber_ids(s, w).no_duplicates(),
        forall|id: usize| #[trigger] renumber_ids(s, w).contains(id) <==> id < n - 1,
{
    let r = renumber_ids(s, w);
    assert(r.len() == s.len());
    assert(forall|i: int| 0 <= i < s.len()
        ==> r[i] == (if s[i] > w { (s[i] - 1) as usize } else { s[i] }));
    assert forall|id: usize| #[trigger] r.contains(id) implies id < n - 1 by {
        let i = choose|i: int| 0 <= i < r.len() && r[i] == id;
        assert(s.contains(s[i]));
        assert(s[i] < n && s[i] != w);
    }
    assert forall|id: usize| id < n - 1 implies #[trigger] r.contains(id) by {
        if id < w {
            assert(s.contains(id));
            let i = choose|i: int| 0 <= i < s.len() && s[i] == id;
            assert(r[i] == id);
        } else {
            let source = (id + 1) as usize;
            assert(s.contains(source));
            let i = choose|i: int| 0 <= i < s.len() && s[i] == source;
            assert(r[i] == id);
        }
    }
    assert forall|i: int, j: int| 0 <= i < j < r.len() implies r[i] != r[j] by {
        assert(s[i] != s[j]);
        assert(s.contains(s[i]) && s.contains(s[j]));
        assert(s[i] != w && s[j] != w);
    }
    assert(r.no_duplicates());
}

/// A duplicate-free sequence whose members are exactly the ids below `n`
/// has length `n`: the counting argument behind "as many leaves as
/// windows".
proof fn lemma_dense_ids_len(s: Seq<usize>, n: usize)
    requires
        s.no_duplicates(),
        forall|id: usize| #[trigger] s.contains(id) <==> id < n,
    ensures
        s.len() == n,
    decreases n,
{
    if n == 0 {
        if s.len() > 0 {
            assert(s.contains(s[0]));
        }
        assert(s.len() == 0);
    } else {
        let last = (n - 1) as usize;
        assert(s.contains(last));
        let i = choose|i: int| 0 <= i < s.len() && s[i] == last;
        let s2 = s.remove(i);
        assert(forall|j: int| 0 <= j < i ==> s2[j] == s[j]);
        assert(forall|j: int| i <= j < s2.len() ==> s2[j] == s[j + 1]);
        assert forall|i2: int, j2: int| 0 <= i2 < j2 < s2.len()
            implies s2[i2] != s2[j2] by {
            if i2 < i && j2 < i {
                assert(s[i2] != s[j2]);
            } else if i2 < i {
                assert(s[i2] != s[j2 + 1]);
            } else {
                assert(s[i2 + 1] != s[j2 + 1]);
            }
        }
        assert(s2.no_duplicates());
        assert forall|id: usize| #[trigger] s2.contains(id) implies id < n - 1 by {
            let j = choose|j: int| 0 <= j < s2.len() && s2[j] == id;
            if j < i {
                assert(s[j] == id);
                assert(s.contains(id));
            } else {
                assert(s[j + 1] == id);
                assert(s.contains(id));
            }
            assert(id < n);
            if id == last {
                // a second occurrence of `last` would break uniqueness
                if j < i {
                    assert(s[j] == s[i] && j != i);
                } else {
                    assert(s[j + 1] == s[i] && j + 1 != i);
                }
                assert(false);
            }
        }
        assert forall|id: usize| id < n - 1 implies #[trigger] s2.contains(id) by {
            assert(s.contains(id));
            let j = choose|j: int| 0 <= j < s.len() && s[j] == id;
            if j < i {
                assert(s2[j] == id);
            } else {
                assert(j != i);
                assert(s2[j - 1] == id);
            }
        }
        lemma_dense_ids_len(s2, (n - 1) as usize);
    }
}

/// Every well-formed layout tree has at least one leaf.
pub proof fn lemma_leaves_len(node: LayoutNode)
    requires
        node.wf(),
    ensures
        node.leaves().len() >= 1,
    decreases node,
{
    match node {
        LayoutNode::Leaf { .. } => {},
        LayoutNode::Split { children, .. } => {
            lemma_leaves_len(*children[0]);
        },
    }
}

/// Membership in a concatenation splits over the halves.
proof fn lemma_concat_contains(a: Seq<usize>, b: Seq<usize>, id: usize)
    ensures
        (a + b).contains(id) <==> (a.contains(id) || b.contains(id)),
{
    if (a + b).contains(id) {
        let i = choose|i: int| 0 <= i < (a + b).len() && (a + b)[i] == id;
        if i < a.len() {
            assert(a[i] == id);
        } else {
            assert(b[i - a.len()] == id);
        }
    }
    if a.contains(id) {
        let i = choose|i: int| 0 <= i < a.len() && a[i] == id;
        assert((a + b)[i] == id);
    }
    if b.contains(id) {
        let i = choose|i: int| 0 <= i < b.len() && b[i] == id;
        assert((a + b)[a.len() + i] == id);
    }
}

/// In a duplicate-free concatenation the two halves are disjoint.
proof fn lemma_no_dup_parts(l0: Seq<usize>, l1: Seq<usize>)
    requires
        (l0 + l1).no_duplicates(),
    ensures
        l0.no_duplicates(),
        l1.no_duplicates(),
        forall|id: usize| l0.contains(id) ==> !l1.contains(id),
{
    let s = l0 + l1;
    assert(forall|i: int| 0 <= i < l0.len() ==> l0[i] == s[i]);
    assert(forall|i: int| 0 <= i < l1.len() ==> l1[i] == s[l0.len() + i]);
    assert forall|id: usize| l0.contains(id) implies !l1.contains(id) by {
        let i = choose|i: int| 0 <= i < l0.len() && l0[i] == id;
        if l1.contains(id) {
            let j = choose|j: int| 0 <= j < l1.len() && l1[j] == id;
            assert(s[i] == s[l0.len() + j]);
        }
    }
    assert forall|i: int, j: int| 0 <= i < j < l0.len() implies l0[i] != l0[j] by {
        assert(s[i] != s[j]);
    }
    assert forall|i: int, j: int| 0 <= i < j < l1.len() implies l1[i] != l1[j] by {
        assert(s[l0.len() + i] != s[l0.len() + j]);
    }
}

/// The screen rectangle `(x, y, width, height)` that the depth-first bounds
/// calculation assigns to the window `id` inside `node`'s rectangle.  For a
/// horizontal split the first child takes the top `height * ratio` rows; for
/// a vertical one the left `width * ratio` columns; the second child takes
/// the rest.
pub open spec fn spec_rect(
    node: LayoutNode,
    id: usize,
    x: int,
    y: int,
    width: int,
    height: int,
) -> (int, int, int, int)
    decreases node,
{
    match node {
        LayoutNode::Leaf { .. } => (x, y, width, height),
        LayoutNode::Split { split_type, ratio, children } => {
            if children.len() == 2 {
                match split_type {
                    SplitType::Horizontal => {
                        let first = ratio.spec_apply(height);
                        if children[0].leaves().contains(id) {
                            spec_rect(*children[0], id, x, y, width, first)
                        } else {
                            spec_rect(*children[1], id, x, y + first, width, height - first)
                        }
                    },
                    SplitType::Vertical => {
                        let first = ratio.spec_apply(width);
                        if children[0].leaves().contains(id) {
                            spec_rect(*children[0], id, x, y, first, height)
                        } else {
                            spec_rect(*children[1], id, x + first, y, width - first, height)
                        }
                    },
                }
            } else {
                (x, y, width, height)
            }
        },
    }
}

/// Whether a stored rectangle equals a computed one.
pub open spec fn rect_is(b: WindowBounds, t: (int, int, int, int)) -> bool {
    b.x == t.0 && b.y == t.1 && b.width == t.2 && b.height == t.3
}

/// The leaf ids of a tree image, left to right.
pub open spec fn view_leaves(t: TreeView) -> Seq<usize>
    decreases t,
{
    match t {
        TreeView::Leaf { window_id } => seq![window_id],
        TreeView::Split { children, .. } => {
            if children.len() == 2 {
                view_leaves(children[0]) + view_leaves(children[1])
            } else {
                Seq::empty()
            }
        },
    }
}

/// The rectangle assignment, stated over a tree's mathematical image:
/// with it, `split_tree` and `bounds_ok` alone determine every window's
/// rectangle after a split.
pub open spec fn spec_rect_view(
    t: TreeView,
    id: usize,
    x: int,
    y: int,
    width: int,
    height: int,
) -> (int, int, int, int)
    decreases t,
{
    match t {
        TreeView::Leaf { .. } => (x, y, width, height),
        TreeView::Split { split_type, ratio, children } => {
            if children.len() == 2 {
                match split_type {
                    SplitType::Horizontal => {
                        let first = ratio.spec_apply(height);
                        if view_leaves(children[0]).contains(id) {
                            spec_rect_view(children[0], id, x, y, width, first)
                        } else {
                            spec_rect_view(children[1], id, x, y + first, width, height - first)
                        }
                    },
                    SplitType::Vertical => {
                        let first = ratio.spec_apply(width);
                        if view_leaves(children[0]).contains(id) {
                            spec_rect_view(children[0], id, x, y, first, height)
                        } else {
                            spec_rect_view(children[1], id, x + first, y, width - first, height)
                        }
                    },
                }
            } else {
                (x, y, width, height)
            }
        },
    }
}

/// A tree and its image have the same leaves.
pub proof fn lemma_leaves_via_view(node: LayoutNode)
    ensures
        view_leaves(node.tree_view()) == node.leaves(),
    decreases node,
{
    match node {
        LayoutNode::Leaf { .. } => {},
        LayoutNode::Split { children, .. } => {
            if children.len() == 2 {
                lemma_leaves_via_view(*children[0]);
                lemma_leaves_via_view(*children[1]);
                assert(view_leaves(node.tree_view()) =~= node.leaves());
            } else {
                assert(view_leaves(node.tree_view()) =~= node.leaves());
            }
        },
    }
}

/// The rectangle assignment depends only on a tree's image, so a caller
/// who knows `tree_view` of the root (say, from a split's contract) can
/// compute every rectangle that `bounds_ok` promises.
pub proof fn lemma_rect_via_view(
    node: LayoutNode,
    id: usize,
    x: int,
    y: int,
    width: int,
    height: int,
)
    ensures
        spec_rect_view(node.tree_view(), id, x, y, width, height)
            == spec_rect(node, id, x, y, width, height),
    decreases node,
{
    match node {
        LayoutNode::Leaf { .. } => {},
        LayoutNode::Split { split_type, ratio, children } => {
            if children.len() == 2 {
                lemma_leaves_via_view(*children[0]);
                match split_type {
                    SplitType::Horizontal => {
                        let first = ratio.spec_apply(height);
                        lemma_rect_via_view(*children[0], id, x, y, width, first);
                        lemma_rect_via_view(*children[1], id, x, y + first, width, height - first);
                    },
                    SplitType::Vertical => {
                        let first = ratio.spec_apply(width);
                        lemma_rect_via_view(*children[0], id, x, y, first, height);
                        lemma_rect_via_view(*children[1], id, x + first, y, width - first, height);
                    },
                }
            }
        },
    }
}

/// Depth-first, pre-order assignment of rectangles: a leaf records the whole
/// rectangle; a split divides it per its ratio and recurses.
fn calculate_bounds_recursive(
    window_bounds: &mut HashMap<usize, WindowBounds>,
    node: &LayoutNode,
    x: usize,
    y: usize,
    width: usize,
    height: usize,
)
    requires
        node.wf(),
        node.leaves().no_duplicates(),
        x + width <= 0xFFFF_FFFF,
        y + height <= 0xFFFF_FFFF,
    ensures
        forall|id: usize| !(#[trigger] node.leaves().contains(id)) ==> {
            &&& final(window_bounds)@.contains_key(id)
                == old(window_bounds)@.contains_key(id)
            &&& old(window_bounds)@.contains_key(id)
                ==> final(window_bounds)@[id] == old(window_bounds)@[id]
        },
        forall|id: usize| #[trigger] node.leaves().contains(id) ==> {
            &&& final(window_bounds)@.contains_key(id)
            &&& rect_is(
                final(window_bounds)@[id],
                spec_rect(*node, id, x as int, y as int, width as int, height as int),
            )
        },
    decreases node,
{
    match node {
        LayoutNode::Leaf { window_id } => {
            window_bounds.insert(*window_id, WindowBounds::new(x, y, width, height));
            proof {
                assert forall|id: usize| !node.leaves().contains(id) implies {
                    &&& window_bounds@.contains_key(id)
                        == old(window_bounds)@.contains_key(id)
                    &&& old(window_bounds)@.contains_key(id)
                        ==> window_bounds@[id] == old(window_bounds)@[id]
                } by {
                    assert(node.leaves()[0] == *window_id);
                    assert(id != *window_id);
                }
            }
        },
        LayoutNode::Split { split_type, ratio, children } => {
            let ghost l0 = children@[0].leaves();
            let ghost l1 = children@[1].leaves();
            proof {
                assert(node.leaves() == l0 + l1);
                lemma_no_dup_parts(l0, l1);
            }
            proof {
                assert forall|id: usize| true implies
                    ((l0 + l1).contains(id) <==> (l0.contains(id) || l1.contains(id))) by {
                    lemma_concat_contains(l0, l1, id);
                }
            }
            match split_type {
                SplitType::Horizontal => {
                    let split_height = ratio.apply(height);
                    let remaining_height = height - split_height;
                    calculate_bounds_recursive(
                        window_bounds,
                        &children[0],
                        x,
                        y,
                        width,
                        split_height,
                    );
                    calculate_bounds_recursive(
                        window_bounds,
                        &children[1],
                        x,
                        y + split_height,
                        width,
                        remaining_height,
                    );
                    proof {
                        assert forall|id: usize| #[trigger] node.leaves().contains(id)
                            implies {
                            &&& window_bounds@.contains_key(id)
                            &&& rect_is(
                                window_bounds@[id],
                                spec_rect(
                                    *node,
                                    id,
                                    x as int,
                                    y as int,
                                    width as int,
                                    height as int,
                                ),
                            )
                        } by {
                            if l0.contains(id) {
                                assert(!l1.contains(id));
                            } else {
                                assert(l1.contains(id));
                            }
                        }
                        assert forall|id: usize| !(#[trigger] node.leaves().contains(id))
                            implies {
                            &&& window_bounds@.contains_key(id)
                                == old(window_bounds)@.contains_key(id)
                            &&& old(window_bounds)@.contains_key(id)
                                ==> window_bounds@[id] == old(window_bounds)@[id]
                        } by {
                            lemma_concat_contains(l0, l1, id);
                            assert(!l0.contains(id) && !l1.contains(id));
                        }
                    }
                },
                SplitType::Vertical => {
                    let split_width = ratio.apply(width);
                    let remaining_width = width - split_width;
                    calculate_bounds_recursive(
                        window_bounds,
                        &children[0],
                        x,
                        y,
                        split_width,
                        height,
                    );
                    calculate_bounds_recursive(
                        window_bounds,
                        &children[1],
                        x + split_width,
                        y,
                        remaining_width,
                        height,
                    );
                    proof {
                        assert forall|id: usize| #[trigger] node.leaves().contains(id)
                            implies {
                            &&& window_bounds@.contains_key(id)
                            &&& rect_is(
                                window_bounds@[id],
                                spec_rect(
                                    *node,
                                    id,
                                    x as int,
                                    y as int,
                                    width as int,
                                    height as int,
                                ),
                            )
                        } by {
                            if l0.contains(id) {
                                assert(!l1.contains(id));
                            } else {
                                assert(l1.contains(id));
                            }
                        }
                        assert forall|id: usize| !(#[trigger] node.leaves().contains(id))
                            implies {
                            &&& window_bounds@.contains_key(id)
                                == old(window_bounds)@.contains_key(id)
                            &&& old(window_bounds)@.contains_key(id)
                                ==> window_bounds@[id] == old(window_bounds)@[id]
                        } by {
                            lemma_concat_contains(l0, l1, id);
                            assert(!l0.contains(id) && !l1.contains(id));
                        }
                    }
                },
            }
        },
    }
}

/// Owner of all buffers and windows, of the layout tree, and of the
/// computed screen rectangle of every window.
pub struct WindowManager {
    windows: Vec<Window>,
    buffers: Vec<Buffer>,
    active_window: usize,
    layout_root: Option<Box<LayoutNode>>,
    window_bounds: HashMap<usize, WindowBounds>,
}

/// Width of the terminal surface the bounds are computed for.
pub const SCREEN_WIDTH: usize = 80;

/// Height of the terminal surface the bounds are computed for.
pub const SCREEN_HEIGHT: usize = 24;

impl WindowManager {
    pub closed spec fn spec_windows(self) -> Seq<Window> {
        self.windows@
    }

    pub closed spec fn spec_buffers(self) -> Seq<Buffer> {
        self.buffers@
    }

    pub closed spec fn spec_active(self) -> usize {
        self.active_window
    }

    pub closed spec fn spec_has_root(self) -> bool {
        self.layout_root is Some
    }

    pub closed spec fn spec_root(self) -> LayoutNode {
        match self.layout_root {
            Some(r) => *r,
            None => LayoutNode::Leaf { window_id: 0 },
        }
    }

    pub closed spec fn spec_bounds(self) -> Map<usize, WindowBounds> {
        self.window_bounds@
    }

    /// The manager's invariant: at least one window, a valid active index,
    /// every window bound to a live buffer, and a well-formed layout tree
    /// whose leaves are exactly the live window ids, each exactly once.
    pub open spec fn wf(self) -> bool {
        &&& self.spec_windows().len() >= 1
        &&& self.spec_active() < self.spec_windows().len()
        &&& forall|i: int| 0 <= i < self.spec_windows().len()
            ==> (#[trigger] self.spec_windows()[i]).buffer_id < self.spec_buffers().len()
        &&& self.spec_has_root()
        &&& self.spec_root().wf()
        &&& self.spec_root().leaves().no_duplicates()
        &&& forall|id: usize| #[trigger] self.spec_root().leaves().contains(id)
            <==> id < self.spec_windows().len()
    }

    /// The bounds map holds exactly the live window ids (the layout
    /// tree's leaves), and each is mapped to the rectangle the tree
    /// assigns it on the default terminal surface.
    pub open spec fn bounds_ok(self) -> bool {
        &&& forall|id: usize| #[trigger] self.spec_bounds().contains_key(id)
            <==> self.spec_root().leaves().contains(id)
        &&& forall|id: usize| #[trigger] self.spec_root().leaves().contains(id) ==> {
            &&& self.spec_bounds().contains_key(id)
            &&& rect_is(
                self.spec_bounds()[id],
                spec_rect(self.spec_root(), id, 0, 0, SCREEN_WIDTH as int, SCREEN_HEIGHT as int),
            )
        }
    }

    /// One window on one buffer, filling the whole surface.
    pub fn new(initial_buffer: Buffer) -> (m: WindowManager)
        ensures
            m.wf(),
            m.bounds_ok(),
            m.spec_windows() =~= seq![Window { buffer_id: 0, cursor_line: 0, cursor_col: 0, viewport_offset: 0 }],
            m.spec_buffers() =~= seq![initial_buffer],
            m.spec_active() == 0,
            m.spec_root() == (LayoutNode::Leaf { window_id: 0usize }),
    {
        let mut windows: Vec<Window> = Vec::new();
        let mut buffers: Vec<Buffer> = Vec::new();
        let mut window_bounds: HashMap<usize, WindowBounds> = HashMap::new();

        buffers.push(initial_buffer);
        let window = Window::new(0);
        windows.push(window);
        window_bounds.insert(0, WindowBounds::new(0, 0, SCREEN_WIDTH, SCREEN_HEIGHT));

        let m = WindowManager {
            windows,
            buffers,
            active_window: 0,
            layout_root: Some(Box::new(LayoutNode::Leaf { window_id: 0 })),
            window_bounds,
        };
        proof {
            let leaves = m.spec_root().leaves();
            assert(leaves =~= seq![0usize]);
            assert forall|id: usize| #[trigger] leaves.contains(id) implies id < 1 by {
                let i = choose|i: int| 0 <= i < leaves.len() && leaves[i] == id;
            }
            assert(leaves.contains(0usize)) by {
                assert(leaves[0] == 0usize);
            }
            assert(m.wf());
            assert forall|id: usize| #[trigger] m.spec_bounds().contains_key(id)
                implies leaves.contains(id) by {
                assert(id == 0);
            }
            assert(m.bounds_ok());
        }
        m
    }

    pub fn get_active_window(&self) -> (w: &Window)
        requires
            self.wf(),
        ensures
            *w == self.spec_windows()[self.spec_active() as int],
    {
        &self.windows[self.active_window]
    }

    pub fn get_active_window_mut(&mut self) -> (w: &mut Window)
        requires
            old(self).wf(),
        ensures
            *w == old(self).spec_windows()[old(self).spec_active() as int],
            final(self).spec_windows() == old(self).spec_windows().update(
                old(self).spec_active() as int,
                *final(w),
            ),
            final(self).spec_buffers() == old(self).spec_buffers(),
            final(self).spec_active() == old(self).spec_active(),
            final(self).spec_has_root() == old(self).spec_has_root(),
            final(self).spec_root() == old(self).spec_root(),
            final(self).spec_bounds() == old(self).spec_bounds(),
    {
        &mut self.windows[self.active_window]
    }

    pub fn get_active_buffer(&self) -> (b: &Buffer)
        requires
            self.wf(),
        ensures
            *b == self.spec_buffers()[
                self.spec_windows()[self.spec_active() as int].buffer_id as int
            ],
    {
        &self.buffers[self.windows[self.active_window].buffer_id]
    }

    pub fn get_active_buffer_mut(&mut self) -> (b: &mut Buffer)
        requires
            old(self).wf(),
        ensures
            *b == old(self).spec_buffers()[
                old(self).spec_windows()[old(self).spec_active() as int].buffer_id as int
            ],
            final(self).spec_buffers() == old(self).spec_buffers().update(
                old(self).spec_windows()[old(self).spec_active() as int].buffer_id as int,
                *final(b),
            ),
            final(self).spec_windows() == old(self).spec_windows(),
            final(self).spec_active() == old(self).spec_active(),
            final(self).spec_has_root() == old(self).spec_has_root(),
            final(self).spec_root() == old(self).spec_root(),
            final(self).spec_bounds() == old(self).spec_bounds(),
            final(self).wf(),
    {
        let buffer_id = self.windows[self.active_window].buffer_id;
        &mut self.buffers[buffer_id]
    }

    /// The active window's cursor, with the desired column set to the
    /// current column.
    pub fn get_active_cursor(&self) -> (c: Cursor)
        requires
            self.wf(),
        ensures
            c == (Cursor {
                line: self.spec_windows()[self.spec_active() as int].cursor_line,
                col: self.spec_windows()[self.spec_active() as int].cursor_col,
                desired_col: self.spec_windows()[self.spec_active() as int].cursor_col,
            }),
    {
        let window = &self.windows[self.active_window];
        Cursor { line: window.cursor_line, col: window.cursor_col, desired_col: window.cursor_col }
    }

    /// Writes a cursor position back into the active window.
    pub fn set_active_cursor(&mut self, cursor: Cursor)
        requires
            old(self).wf(),
        ensures
            final(self).wf(),
            final(self).spec_windows() == old(self).spec_windows().update(
                old(self).spec_active() as int,
                (Window {
                    cursor_line: cursor.line,
                    cursor_col: cursor.col,
                    ..old(self).spec_windows()[old(self).spec_active() as int]
                }),
            ),
            final(self).spec_buffers() == old(self).spec_buffers(),
            final(self).spec_active() == old(self).spec_active(),
            final(self).spec_root() == old(self).spec_root(),
            final(self).spec_bounds() == old(self).spec_bounds(),
            final(self).bounds_ok() == old(self).bounds_ok(),
    {
        let mut w = self.windows[self.active_window];
        w.cursor_line = cursor.line;
        w.cursor_col = cursor.col;
        self.windows.set(self.active_window, w);
    }

    pub fn get_viewport_offset(&self) -> (r: usize)
        requires
            self.wf(),
        ensures
            r == self.spec_windows()[self.spec_active() as int].viewport_offset,
    {
        self.windows[self.active_window].viewport_offset
    }

    pub fn set_viewport_offset(&mut self, offset: usize)
        requires
            old(self).wf(),
        ensures
            final(self).wf(),
            final(self).spec_windows() == old(self).spec_windows().update(
                old(self).spec_active() as int,
                (Window {
                    viewport_offset: offset,
                    ..old(self).spec_windows()[old(self).spec_active() as int]
                }),
            ),
            final(self).spec_buffers() == old(self).spec_buffers(),
            final(self).spec_active() == old(self).spec_active(),
            final(self).spec_root() == old(self).spec_root(),
            final(self).spec_bounds() == old(self).spec_bounds(),
            final(self).bounds_ok() == old(self).bounds_ok(),
    {
        let mut w = self.windows[self.active_window];
        w.viewport_offset = offset;
        self.windows.set(self.active_window, w);
    }

    pub fn get_window_count(&self) -> (n: usize)
        ensures
            n == self.spec_windows().len(),
    {
        self.windows.len()
    }

    pub fn get_window_bounds(&self, window_id: usize) -> (r: Option<&WindowBounds>)
        ensures
            match r {
                Some(b) => self.spec_bounds().contains_key(window_id)
                    && *b == self.spec_bounds()[window_id],
                None => !self.spec_bounds().contains_key(window_id),
            },
    {
        self.window_bounds.get(&window_id)
    }

    pub fn get_layout_root(&self) -> (r: Option<&LayoutNode>)
        ensures
            match r {
                Some(n) => self.spec_has_root() && *n == self.spec_root(),
                None => !self.spec_has_root(),
            },
    {
        match &self.layout_root {
            Some(r) => Some(&**r),
            None => None,
        }
    }

    pub fn get_buffers(&self) -> (r: &Vec<Buffer>)
        ensures
            r@ == self.spec_buffers(),
    {
        &self.buffers
    }

    /// Direct access to the buffer collection (used to open a buffer for
    /// the active window).  A caller that shrinks it must restore the
    /// invariant before other operations.
    pub fn get_buffers_mut(&mut self) -> (r: &mut Vec<Buffer>)
        ensures
            r@ == old(self).spec_buffers(),
            final(self).spec_buffers() == final(r)@,
            final(self).spec_windows() == old(self).spec_windows(),
            final(self).spec_active() == old(self).spec_active(),
            final(self).spec_has_root() == old(self).spec_has_root(),
            final(self).spec_root() == old(self).spec_root(),
            final(self).spec_bounds() == old(self).spec_bounds(),
    {
        &mut self.buffers
    }

    /// Cycles to the next window.
    pub fn next_window(&mut self)
        requires
            old(self).wf(),
        ensures
            final(self).wf(),
            final(self).spec_active() == (old(self).spec_active() + 1) as int
                % old(self).spec_windows().len() as int,
            final(self).spec_windows() == old(self).spec_windows(),
            final(self).spec_buffers() == old(self).spec_buffers(),
            final(self).spec_root() == old(self).spec_root(),
            final(self).spec_bounds() == old(self).spec_bounds(),
            final(self).bounds_ok() == old(self).bounds_ok(),
    {
        let len = self.windows.len();
        self.active_window = (self.active_window + 1) % len;
    }

    /// Cycles to the previous window.
    pub fn prev_window(&mut self)
        requires
            old(self).wf(),
        ensures
            final(self).wf(),
            final(self).spec_active() == if old(self).spec_active() == 0 {
                old(self).spec_windows().len() - 1
            } else {
                old(self).spec_active() - 1
            },
            final(self).spec_windows() == old(self).spec_windows(),
            final(self).spec_buffers() == old(self).spec_buffers(),
            final(self).spec_root() == old(self).spec_root(),
            final(self).spec_bounds() == old(self).spec_bounds(),
            final(self).bounds_ok() == old(self).bounds_ok(),
    {
        if self.active_window == 0 {
            self.active_window = self.windows.len() - 1;
        } else {
            self.active_window -= 1;
        }
    }

    /// Directional navigation currently degrades to "next window" for the
    /// four motion keys, a documented simplification; any other key does
    /// nothing.
    pub fn navigate_to_window(&mut self, direction: char) -> (r: bool)
        requires
            old(self).wf(),
        ensures
            final(self).wf(),
            r == (direction == 'h' || direction == 'j' || direction == 'k' || direction == 'l'),
            r ==> final(self).spec_active() == (old(self).spec_active() + 1) as int
                % old(self).spec_windows().len() as int,
            !r ==> final(self).spec_active() == old(self).spec_active(),
            final(self).spec_windows() == old(self).spec_windows(),
            final(self).spec_buffers() == old(self).spec_buffers(),
            final(self).spec_root() == old(self).spec_root(),
            final(self).spec_bounds() == old(self).spec_bounds(),
            final(self).bounds_ok() == old(self).bounds_ok(),
    {
        match direction {
            'h' | 'j' | 'k' | 'l' => {
                self.next_window();
                true
            },
            _ => false,
        }
    }

    /// Recomputes every live window's rectangle from the layout tree over
    /// the default terminal surface.
    fn calculate_window_bounds(&mut self)
        requires
            old(self).spec_has_root(),
            old(self).spec_root().wf(),
            old(self).spec_root().leaves().no_duplicates(),
        ensures
            final(self).bounds_ok(),
            final(self).spec_windows() == old(self).spec_windows(),
            final(self).spec_buffers() == old(self).spec_buffers(),
            final(self).spec_active() == old(self).spec_active(),
            final(self).spec_has_root() == old(self).spec_has_root(),
            final(self).spec_root() == old(self).spec_root(),
            final(self).wf() == old(self).wf(),
    {
        let mut fresh: HashMap<usize, WindowBounds> = HashMap::new();
        match &self.layout_root {
            Some(root) => {
                calculate_bounds_recursive(&mut fresh, root, 0, 0, SCREEN_WIDTH, SCREEN_HEIGHT);
                proof {
                    // the map was built fresh, so its keys are exactly the
                    // tree's leaves
                    assert forall|id: usize| #[trigger] fresh@.contains_key(id)
                        implies self.spec_root().leaves().contains(id) by {}
                }
            },
            None => {},
        }
        self.window_bounds = fresh;
    }

    /// Opens a split: the new window is appended (optionally viewing a
    /// newly opened buffer, otherwise the active window's buffer) and the
    /// active leaf is replaced by a half split of the old and new windows.
    pub fn split_window(
        &mut self,
        split_type: SplitType,
        new_buffer: Option<Buffer>,
    ) -> (r: Result<(), String>)
        requires
            old(self).wf(),
        ensures
            final(self).wf(),
            final(self).bounds_ok(),
            r is Ok,
            final(self).spec_active() == old(self).spec_active(),
            final(self).spec_windows() == old(self).spec_windows().push(
                (Window {
                    buffer_id: match new_buffer {
                        Some(_) => old(self).spec_buffers().len() as usize,
                        None => old(self).spec_windows()[
                            old(self).spec_active() as int
                        ].buffer_id,
                    },
                    cursor_line: 0,
                    cursor_col: 0,
                    viewport_offset: 0,
                }),
            ),
            final(self).spec_buffers() == match new_buffer {
                Some(b) => old(self).spec_buffers().push(b),
                None => old(self).spec_buffers(),
            },
            final(self).spec_root().leaves() == split_ids(
                old(self).spec_root().leaves(),
                old(self).spec_active(),
                old(self).spec_windows().len() as usize,
            ),
            final(self).spec_root().tree_view() == split_tree(
                old(self).spec_root().tree_view(),
                old(self).spec_active(),
                old(self).spec_windows().len() as usize,
                split_type,
            ),
    {
        let current_window_id = self.active_window;
        let current_buffer_id = self.windows[current_window_id].buffer_id;

        let new_buffer_id = match new_buffer {
            Some(buffer) => {
                self.buffers.push(buffer);
                self.buffers.len() - 1
            },
            None => current_buffer_id,
        };

        let new_window = Window::new(new_buffer_id);
        let new_window_id = self.windows.len();
        self.windows.push(new_window);

        let root = match self.layout_root.take() {
            Some(r) => r,
            None => {
                proof {
                    assert(false);
                }
                Box::new(LayoutNode::Leaf { window_id: 0 })
            },
        };
        let new_root = (*root).split_leaf(current_window_id, new_window_id, split_type);
        self.layout_root = Some(Box::new(new_root));

        proof {
            let old_leaves = old(self).spec_root().leaves();
            lemma_split_ids_props(old_leaves, current_window_id, new_window_id);
            assert(old_leaves.contains(current_window_id));
            assert(!old_leaves.contains(new_window_id));
            assert forall|id: usize| #[trigger] self.spec_root().leaves().contains(id)
                implies id < self.spec_windows().len() by {}
            assert forall|id: usize| id < self.spec_windows().len()
                implies #[trigger] self.spec_root().leaves().contains(id) by {
                if id < new_window_id {
                    assert(old_leaves.contains(id));
                }
            }
            assert(self.wf());
        }

        self.calculate_window_bounds();
        Ok(())
    }

    pub fn split_horizontal(&mut self, new_buffer: Option<Buffer>) -> (r: Result<(), String>)
        requires
            old(self).wf(),
        ensures
            final(self).wf(),
            final(self).bounds_ok(),
            r is Ok,
            final(self).spec_active() == old(self).spec_active(),
            final(self).spec_windows() == old(self).spec_windows().push(
                (Window {
                    buffer_id: match new_buffer {
                        Some(_) => old(self).spec_buffers().len() as usize,
                        None => old(self).spec_windows()[
                            old(self).spec_active() as int
                        ].buffer_id,
                    },
                    cursor_line: 0,
                    cursor_col: 0,
                    viewport_offset: 0,
                }),
            ),
            final(self).spec_buffers() == match new_buffer {
                Some(b) => old(self).spec_buffers().push(b),
                None => old(self).spec_buffers(),
            },
            final(self).spec_root().leaves() == split_ids(
                old(self).spec_root().leaves(),
                old(self).spec_active(),
                old(self).spec_windows().len() as usize,
            ),
            final(self).spec_root().tree_view() == split_tree(
                old(self).spec_root().tree_view(),
                old(self).spec_active(),
                old(self).spec_windows().len() as usize,
                SplitType::Horizontal,
            ),
    {
        self.split_window(SplitType::Horizontal, new_buffer)
    }

    pub fn split_vertical(&mut self, new_buffer: Option<Buffer>) -> (r: Result<(), String>)
        requires
            old(self).wf(),
        ensures
            final(self).wf(),
            final(self).bounds_ok(),
            r is Ok,
            final(self).spec_active() == old(self).spec_active(),
            final(self).spec_windows() == old(self).spec_windows().push(
                (Window {
                    buffer_id: match new_buffer {
                        Some(_) => old(self).spec_buffers().len() as usize,
                        None => old(self).spec_windows()[
                            old(self).spec_active() as int
                        ].buffer_id,
                    },
                    cursor_line: 0,
                    cursor_col: 0,
                    viewport_offset: 0,
                }),
            ),
            final(self).spec_buffers() == match new_buffer {
                Some(b) => old(self).spec_buffers().push(b),
                None => old(self).spec_buffers(),
            },
            final(self).spec_root().leaves() == split_ids(
                old(self).spec_root().leaves(),
                old(self).spec_active(),
                old(self).spec_windows().len() as usize,
            ),
            final(self).spec_root().tree_view() == split_tree(
                old(self).spec_root().tree_view(),
                old(self).spec_active(),
                old(self).spec_windows().len() as usize,
                SplitType::Vertical,
            ),
    {
        self.split_window(SplitType::Vertical, new_buffer)
    }

    /// Closes the active window.  Closing the only remaining window is an
    /// error and leaves the state untouched; otherwise the window leaves
    /// the vector, the tree loses its leaf (the parent split collapses into
    /// the sibling), the remaining ids are renumbered and the bounds are
    /// recomputed.  The tree ends with exactly one leaf fewer.
    pub fn close_window(&mut self) -> (r: Result<(), String>)
        requires
            old(self).wf(),
        ensures
            final(self).wf(),
            old(self).spec_windows().len() == 1 ==> {
                &&& r is Err
                &&& *final(self) == *old(self)
                &&& (r matches Err(m) && m@ == "Cannot close the last window"@)
            },
            old(self).spec_windows().len() > 1 ==> {
                &&& r is Ok
                &&& final(self).bounds_ok()
                &&& final(self).spec_windows() == old(self).spec_windows().remove(
                    old(self).spec_active() as int,
                )
                &&& final(self).spec_buffers() == old(self).spec_buffers()
                &&& final(self).spec_active() == if old(self).spec_active()
                    == old(self).spec_windows().len() - 1 {
                    old(self).spec_active() - 1
                } else {
                    old(self).spec_active() as int
                }
                &&& final(self).spec_root().leaves() == renumber_ids(
                    remove_first_id(old(self).spec_root().leaves(), old(self).spec_active()),
                    old(self).spec_active(),
                )
                &&& final(self).spec_root().leaves().len()
                    == old(self).spec_root().leaves().len() - 1
            },
    {
        proof {
            assert(self.windows.len() == self.spec_windows().len());
            lemma_dense_ids_len(
                old(self).spec_root().leaves(),
                old(self).spec_windows().len() as usize,
            );
        }
        if self.windows.len() <= 1 {
            return Err("Cannot close the last window".to_owned());
        }

        let window_to_close = self.active_window;

        let root = match self.layout_root.take() {
            Some(r) => r,
            None => {
                proof {
                    assert(false);
                }
                Box::new(LayoutNode::Leaf { window_id: 0 })
            },
        };
        let ghost old_leaves = root.leaves();
        let collapsed = match (*root).remove_leaf(window_to_close) {
            Some(n) => n,
            None => {
                // the tree has at least two leaves, so it cannot itself be
                // the removed leaf
                proof {
                    assert(old_leaves.len() >= 2);
                    assert(false);
                }
                LayoutNode::Leaf { window_id: 0 }
            },
        };
        proof {
            lemma_remove_first_props(old_leaves, window_to_close);
        }
        let renumbered = collapsed.renumber_above(window_to_close);
        self.layout_root = Some(Box::new(renumbered));

        self.windows.remove(window_to_close);
        if self.active_window >= self.windows.len() {
            self.active_window = self.windows.len() - 1;
        }

        proof {
            let n = old(self).spec_windows().len() as usize;
            lemma_renumber_props(
                remove_first_id(old_leaves, window_to_close),
                window_to_close,
                n,
            );
            assert(self.spec_root().leaves() == renumber_ids(
                remove_first_id(old_leaves, window_to_close),
                window_to_close,
            ));
            assert forall|id: usize| #[trigger] self.spec_root().leaves().contains(id)
                implies id < self.spec_windows().len() by {}
            assert forall|id: usize| id < self.spec_windows().len()
                implies #[trigger] self.spec_root().leaves().contains(id) by {}
            assert(self.wf());
            lemma_dense_ids_len(self.spec_root().leaves(), (n - 1) as usize);
        }

        self.calculate_window_bounds();
        Ok(())
    }
}

/// Law: the layout tree of a well-formed manager has exactly as many leaves
/// as there are live windows, and every leaf's window id is unique and
/// valid.  Every operation of the manager preserves `wf`, so this holds
/// after any sequence of splits and closes.
pub proof fn lemma_leaves_match_windows(m: WindowManager)
    requires
        m.wf(),
    ensures
        m.spec_root().leaves().len() == m.spec_windows().len(),
        m.spec_root().leaves().no_duplicates(),
        forall|id: usize| #[trigger] m.spec_root().leaves().contains(id)
            <==> id < m.spec_windows().len(),
{
    assert(m.windows.len() == m.spec_windows().len());
    lemma_dense_ids_len(m.spec_root().leaves(), m.spec_windows().len() as usize);
}

} // verus!
