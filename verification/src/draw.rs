//! The draw traversal: the rectangles of a tree in the order in which they are
//! to be painted, parents before children and siblings in list order.

use vstd::prelude::*;
use crate::node::Leaf;
use crate::node::Primative;
use crate::node::Rectangle;

verus! {

/// What is painted for one node: its rectangle and its colour.
#[derive(Debug)]
pub struct Quad {
    /// The top-left corner.
    pub position: (i32, i32),
    /// The width and the height.
    pub size: (i32, i32),
    pub color: tinycolors::srgb,
}

impl Leaf {
    /// What is painted for the leaf.
    pub open spec fn quad(self) -> Quad {
        Quad { position: self.position, size: (self.width, self.height), color: self.color }
    }
}

impl Primative {
    /// The rectangles of the subtree in painting order.
    pub open spec fn paint_order(self) -> Seq<Quad>
        decreases self, 0nat,
    {
        match self {
            Primative::Leaf(leaf) => seq![leaf.quad()],
            Primative::Container(rect) => rect.paint_order(),
        }
    }

    /// Appends the rectangles of the subtree to `quads`, in painting order.
    pub fn draw(&self, quads: &mut Vec<Quad>)
        ensures
            final(quads)@ == old(quads)@ + self.paint_order(),
        decreases self,
    {
        match self {
            Primative::Leaf(leaf) => {
                quads.push(Quad { position: leaf.position, size: (leaf.width, leaf.height), color: leaf.color });
            },
            Primative::Container(rect) => {
                rect.draw(quads);
            },
        }
    }
}

impl Rectangle {
    /// What is painted for the container itself.
    pub open spec fn quad(self) -> Quad {
        Quad { position: self.position, size: (self.width, self.height), color: self.color }
    }

    /// The rectangles of the first `count` children's subtrees in painting
    /// order.
    pub open spec fn paint_order_of_children(self, count: nat) -> Seq<Quad>
        decreases self, count,
    {
        if count == 0 || count > self.children@.len() {
            Seq::empty()
        } else {
            self.paint_order_of_children((count - 1) as nat) + self.children@[count - 1].paint_order()
        }
    }

    /// The rectangles of the subtree in painting order: the container's own,
    /// then those of each child's subtree, child after child.
    pub open spec fn paint_order(self) -> Seq<Quad>
        decreases self, self.children@.len() + 1,
    {
        seq![self.quad()] + self.paint_order_of_children(self.children@.len())
    }

    /// Appends the rectangles of the subtree to `quads`, in painting order.
    pub fn draw(&self, quads: &mut Vec<Quad>)
        ensures
            final(quads)@ == old(quads)@ + self.paint_order(),
        decreases self,
    {
        quads.push(Quad { position: self.position, size: (self.width, self.height), color: self.color });
        let n = self.children.len();
        let mut i: usize = 0;
        while i < n
            invariant
                i <= n,
                n == self.children@.len(),
                quads@ == old(quads)@ + seq![self.quad()] + self.paint_order_of_children(i as nat),
            decreases n - i,
        {
            let ghost so_far = quads@;
            self.children[i].draw(quads);
            assert(quads@ == old(quads)@ + seq![self.quad()] + self.paint_order_of_children((i + 1) as nat)) by {
                assert(self.paint_order_of_children((i + 1) as nat) == self.paint_order_of_children(i as nat)
                    + self.children@[i as int].paint_order());
                assert(quads@ =~= old(quads)@ + seq![self.quad()] + (self.paint_order_of_children(i as nat)
                    + self.children@[i as int].paint_order()));
            }
            i += 1;
        }
        assert(quads@ =~= old(quads)@ + self.paint_order());
    }
}

} // verus!
