//! Windows and the layout tree that partitions the screen among them.
//!
//! A window binds a buffer id to a cursor position and a viewport offset.
//! The layout tree is a strict binary tree: every `Split` node divides its
//! rectangle between exactly two children at a fractional ratio.

use vstd::prelude::*;

verus! {

/// Direction of a split: `Horizontal` stacks the two children vertically
/// (the first child on top), `Vertical` puts them side by side (the first
/// child on the left).
#[derive(Debug, Clone, Copy, PartialEq, Eq, Structural)]
pub enum SplitType {
    Horizontal,
    Vertical,
}

/// An exact fraction in (0, 1), used as a split ratio.  The denominator is
/// kept small so that ratio arithmetic on screen dimensions cannot overflow.
#[derive(Debug, Clone, Copy, PartialEq, Eq, Structural)]
pub struct Ratio {
    pub num: usize,
    pub den: usize,
}

impl Ratio {
    /// A valid ratio is strictly between 0 and 1 with a bounded denominator.
    pub open spec fn wf(self) -> bool {
        0 < self.num < self.den <= 0x1_0000
    }

    /// The portion of `total` allotted to the first child: `total * num / den`,
    /// rounded down.
    pub open spec fn spec_apply(self, total: int) -> int {
        total * self.num / self.den as int
    }

    pub proof fn lemma_apply_le_total(self, total: int)
        requires
            self.wf(),
            total >= 0,
        ensures
            0 <= self.spec_apply(total) <= total,
    {
        assert(total * self.num <= total * self.den) by (nonlinear_arith)
            requires self.num <= self.den && total >= 0;
        assert(0 <= total * self.num) by (nonlinear_arith)
            requires self.num >= 0 && total >= 0;
        assert(total * self.num / self.den as int <= total * self.den / self.den as int) by {
            vstd::arithmetic::div_mod::lemma_div_is_ordered(
                total * self.num,
                total * self.den,
                self.den as int,
            );
        }
        assert(total * self.den / self.den as int == total) by (nonlinear_arith)
            requires self.den > 0;
        assert(total * self.num / self.den as int >= 0) by {
            vstd::arithmetic::div_mod::lemma_div_is_ordered(0, total * self.num, self.den as int);
        }
    }

    /// The ratio 1/2, used for every fresh split.
    pub fn half() -> (r: Ratio)
        ensures
            r.wf(),
            r.num == 1,
            r.den == 2,
    {
        Ratio { num: 1, den: 2 }
    }

    /// Applies the ratio to a length, rounding down.
    pub fn apply(self, total: usize) -> (r: usize)
        requires
            self.wf(),
            total <= 0xFFFF_FFFF,
        ensures
            r == self.spec_apply(total as int),
            r <= total,
    {
        proof {
            self.lemma_apply_le_total(total as int);
            assert(total * self.num <= 0xFFFF_FFFF * 0x1_0000) by (nonlinear_arith)
                requires total <= 0xFFFF_FFFF && self.num <= 0x1_0000;
        }
        ((total as u64 * self.num as u64) / (self.den as u64)) as usize
    }
}

/// One window: the buffer it shows, its cursor, and the topmost visible line.
#[derive(Debug, Clone, Copy, PartialEq, Eq, Structural)]
pub struct Window {
    pub buffer_id: usize,
    pub cursor_line: usize,
    pub cursor_col: usize,
    pub viewport_offset: usize,
}

impl Window {
    pub fn new(buffer_id: usize) -> (w: Window)
        ensures
            w.buffer_id == buffer_id,
            w.cursor_line == 0,
            w.cursor_col == 0,
            w.viewport_offset == 0,
    {
        Window { buffer_id, cursor_line: 0, cursor_col: 0, viewport_offset: 0 }
    }
}

/// The layout tree.  A `Leaf` names one window; a `Split` divides its
/// rectangle between exactly two children.
#[derive(Debug)]
pub enum LayoutNode {
    Leaf { window_id: usize },
    Split { split_type: SplitType, ratio: Ratio, children: Vec<Box<LayoutNode>> },
}

/// Mathematical image of a layout tree: the same shape, with the
/// children as a sequence.  Contracts that pin the shape of a tree (not
/// just its leaf ids) speak of this image.
#[verifier::ext_equal]
pub ghost enum TreeView {
    Leaf { window_id: usize },
    Split { split_type: SplitType, ratio: Ratio, children: Seq<TreeView> },
}

impl LayoutNode {
    /// Structural well-formedness: every split has exactly two well-formed
    /// children and a valid ratio.  This is the "no unary splits" invariant.
    pub open spec fn wf(self) -> bool
        decreases self,
    {
        match self {
            LayoutNode::Leaf { .. } => true,
            LayoutNode::Split { ratio, children, .. } => {
                &&& children.len() == 2
                &&& ratio.wf()
                &&& children[0].wf()
                &&& children[1].wf()
            },
        }
    }

    /// The tree's mathematical image (a malformed split, which
    /// well-formedness rules out, images to an empty child list).
    pub open spec fn tree_view(self) -> TreeView
        decreases self,
    {
        match self {
            LayoutNode::Leaf { window_id } => TreeView::Leaf { window_id },
            LayoutNode::Split { split_type, ratio, children } => TreeView::Split {
                split_type,
                ratio,
                children: if children.len() == 2 {
                    seq![children[0].tree_view(), children[1].tree_view()]
                } else {
                    Seq::empty()
                },
            },
        }
    }

    /// The window ids at the leaves, left to right.
    pub open spec fn leaves(self) -> Seq<usize>
        decreases self,
    {
        match self {
            LayoutNode::Leaf { window_id } => seq![window_id],
            LayoutNode::Split { children, .. } => {
                if children.len() == 2 {
                    children[0].leaves() + children[1].leaves()
                } else {
                    Seq::empty()
                }
            },
        }
    }

    pub fn is_leaf(&self) -> (r: bool)
        ensures
            r == (self is Leaf),
    {
        matches!(self, LayoutNode::Leaf { .. })
    }

    pub fn is_split(&self) -> (r: bool)
        ensures
            r == (self is Split),
    {
        matches!(self, LayoutNode::Split { .. })
    }

    pub fn get_window_id(&self) -> (r: Option<usize>)
        ensures
            match r {
                Some(id) => self matches LayoutNode::Leaf { window_id } && id == window_id,
                None => self is Split,
            },
    {
        match self {
            LayoutNode::Leaf { window_id } => Some(*window_id),
            _ => None,
        }
    }

    pub fn get_split_info(&self) -> (r: Option<(SplitType, Ratio, &[Box<LayoutNode>])>)
        ensures
            match r {
                Some(info) => {
                    &&& self matches LayoutNode::Split { split_type, ratio, children }
                        && info.0 == split_type
                        && info.1 == ratio
                        && info.2@ == children@
                },
                None => self is Leaf,
            },
    {
        match self {
            LayoutNode::Split { split_type, ratio, children } => {
                Some((*split_type, *ratio, children.as_slice()))
            },
            _ => None,
        }
    }
}

/// A record of one split: its direction and ratio.
pub struct Split {
    split_type: SplitType,
    ratio: Ratio,
}

impl Split {
    pub closed spec fn spec_split_type(self) -> SplitType {
        self.split_type
    }

    pub closed spec fn spec_ratio(self) -> Ratio {
        self.ratio
    }

    pub fn new(split_type: SplitType, ratio: Ratio) -> (s: Split)
        ensures
            s.spec_split_type() == split_type,
            s.spec_ratio() == ratio,
    {
        Split { split_type, ratio }
    }

    pub fn split_type(&self) -> (r: SplitType)
        ensures
            r == self.spec_split_type(),
    {
        self.split_type
    }

    pub fn ratio(&self) -> (r: Ratio)
        ensures
            r == self.spec_ratio(),
    {
        self.ratio
    }
}

/// A flat list of the splits that were made, oldest first.
pub struct WindowLayout {
    splits: Vec<Split>,
}

impl WindowLayout {
    pub closed spec fn spec_splits(self) -> Seq<Split> {
        self.splits@
    }

    pub fn new() -> (l: WindowLayout)
        ensures
            l.spec_splits().len() == 0,
    {
        WindowLayout { splits: Vec::new() }
    }

    pub fn add_split(&mut self, split: Split)
        ensures
            final(self).spec_splits() == old(self).spec_splits().push(split),
    {
        self.splits.push(split);
    }

    pub fn splits(&self) -> (r: &[Split])
        ensures
            r@ == self.spec_splits(),
    {
        self.splits.as_slice()
    }
}

impl Default for WindowLayout {
    fn default() -> (l: WindowLayout)
        ensures
            l.spec_splits().len() == 0,
    {
        WindowLayout::new()
    }
}

} // verus!
