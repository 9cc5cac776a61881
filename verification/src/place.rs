//! The position pass: top-down, every container lines its children up along
//! its main axis, starting at its padded top-left corner.

use vstd::prelude::*;
use crate::error::LayoutError;
use crate::fit::storable;
use crate::node::Primative;
use crate::node::Rectangle;
use crate::sizing::Axis;

verus! {

impl Primative {
    /// Whether the position pass, with the node at `(x, y)`, can store every
    /// position that it assigns below the node.
    pub open spec fn place_fits(self, x: i32, y: i32) -> bool
        decreases self,
    {
        match self {
            Primative::Leaf(_) => true,
            Primative::Container(rect) => rect.place_fits(x, y),
        }
    }

    /// Whether `post` is `self` after the position pass of its parent has put
    /// it at `(x, y)`.
    pub open spec fn placed(self, x: i32, y: i32, post: Primative) -> bool
        decreases self,
    {
        match self {
            Primative::Leaf(leaf) => post == Primative::Leaf(leaf.moved((x, y))),
            Primative::Container(rect) => post matches Primative::Container(after) && rect.placed(x, y, after),
        }
    }
}

impl Rectangle {
    /// How far along the main axis child `i` starts behind the first child:
    /// the extents of the children before it and a gap after each of them.
    pub open spec fn child_offset(self, i: int) -> int
        decreases i,
    {
        if i <= 0 {
            0
        } else {
            self.child_offset(i - 1) + self.children@[i - 1].extent(self.main_dir()) + self.child_gap
        }
    }

    /// The position of child `i` in a container at `(x, y)`: the padded corner
    /// of the container, moved along the main axis by the child's offset.
    pub open spec fn child_origin(self, x: i32, y: i32, i: int) -> (int, int) {
        match self.main_dir() {
            Axis::Horizontal => (x + self.padding + self.child_offset(i), y + self.padding),
            Axis::Vertical => (x + self.padding, y + self.padding + self.child_offset(i)),
        }
    }

    /// Whether the position pass, with the container at `(x, y)`, can store
    /// every position that it assigns in the subtree.
    pub open spec fn place_fits(self, x: i32, y: i32) -> bool
        decreases self,
    {
        forall|i: int|
            0 <= i < self.children@.len() ==> {
                let (cx, cy) = #[trigger] self.child_origin(x, y, i);
                &&& storable(cx)
                &&& storable(cy)
                &&& self.children@[i].place_fits(cx as i32, cy as i32)
            }
    }

    /// Whether `post` is `self` after the position pass with the container at
    /// `(x, y)`: the container is there, every child is at its origin and is
    /// placed in its turn, and nothing else has changed.
    pub open spec fn placed(self, x: i32, y: i32, post: Rectangle) -> bool
        decreases self,
    {
        &&& self.same_policy(post)
        &&& post.width == self.width
        &&& post.height == self.height
        &&& post.position == (x, y)
        &&& forall|i: int|
            0 <= i < self.children@.len() ==> {
                let (cx, cy) = #[trigger] self.child_origin(x, y, i);
                self.children@[i].placed(cx as i32, cy as i32, post.children@[i])
            }
    }

    /// The position pass over the subtree, parents first, with the container
    /// itself put at `(x, y)`.
    fn place_at(&mut self, x: i32, y: i32) -> (r: Result<(), LayoutError>)
        ensures
            r is Ok <==> old(self).place_fits(x, y),
            r is Ok ==> old(self).placed(x, y, *final(self)),
            old(self).same_tree(*final(self)),
        decreases *old(self),
    {
        self.position = (x, y);
        let main = self.layout_mode.main_axis();
        let n = self.children.len();
        let mut offset: i128 = 0;
        let mut i: usize = 0;
        while i < n
            invariant
                i <= n,
                n == self.children@.len(),
                *self == (Rectangle { position: (x, y), children: self.children, ..*old(self) }),
                old(self).same_policy(*self),
                main == old(self).main_dir(),
                offset == old(self).child_offset(i as int),
                -0x1_0000_0000 * i <= offset <= 0x1_0000_0000 * i,
                forall|j: int|
                    0 <= j < i ==> {
                        let (cx, cy) = #[trigger] old(self).child_origin(x, y, j);
                        &&& storable(cx)
                        &&& storable(cy)
                        &&& old(self).children@[j].place_fits(cx as i32, cy as i32)
                        &&& old(self).children@[j].placed(cx as i32, cy as i32, self.children@[j])
                    },
                forall|j: int| 0 <= j < i ==> (#[trigger] old(self).children@[j]).same_tree(self.children@[j]),
                forall|j: int| i <= j < n ==> self.children@[j] == old(self).children@[j],
            decreases n - i,
        {
            let ghost child = old(self).children@[i as int];
            let ghost (cx, cy) = old(self).child_origin(x, y, i as int);
            assert(self.children@[i as int] == child);
            assert(-0x1_0000_0000_0000_0000_0000_0000 <= offset <= 0x1_0000_0000_0000_0000_0000_0000)
                by (nonlinear_arith)
                requires
                    -0x1_0000_0000 * i <= offset <= 0x1_0000_0000 * i,
                    0 <= i <= 0xffff_ffff_ffff_ffff,
            ;
            let (left, top): (i128, i128) = match main {
                Axis::Horizontal => (x as i128 + self.padding as i128 + offset, y as i128 + self.padding as i128),
                Axis::Vertical => (x as i128 + self.padding as i128, y as i128 + self.padding as i128 + offset),
            };
            assert(left == cx && top == cy);
            if left < i32::MIN as i128 || left > i32::MAX as i128 || top < i32::MIN as i128 || top > i32::MAX as i128 {
                proof {
                    old(self).lemma_same_tree_so_far(*self, i as int);
                }
                return Err(LayoutError::Overflow);
            }
            let extent = self.children[i].get_size_along_axis(main);
            match &mut self.children[i] {
                Primative::Leaf(leaf) => {
                    leaf.position = (left as i32, top as i32);
                },
                Primative::Container(rect) => {
                    match rect.place_at(left as i32, top as i32) {
                        Ok(()) => {},
                        Err(e) => {
                            proof {
                                assert(!child.place_fits(cx as i32, cy as i32));
                                assert(child.same_tree(self.children@[i as int]));
                                old(self).lemma_same_tree_so_far(*self, i + 1);
                            }
                            return Err(e);
                        },
                    }
                },
            }
            assert(child.place_fits(cx as i32, cy as i32));
            assert(child.placed(cx as i32, cy as i32, self.children@[i as int]));
            assert(child.same_tree(self.children@[i as int]));
            offset = offset + extent as i128 + self.child_gap as i128;
            i += 1;
        }
        proof {
            old(self).lemma_same_tree_so_far(*self, n as int);
        }
        Ok(())
    }

    /// The position pass over the subtree, parents first. The container stays
    /// where it is. Its first child goes to its padded top-left corner; each
    /// further child follows its predecessor along the main axis at the
    /// distance of the predecessor's extent and the gap. Then each child that
    /// is a container does the same with its own.
    ///
    /// Fails exactly where a position that the pass assigns does not fit in
    /// an `i32`; the subtree is then left partly placed. Either way it is the
    /// same tree.
    pub fn set_child_positions(&mut self) -> (r: Result<(), LayoutError>)
        ensures
            r is Ok <==> old(self).place_fits(old(self).position.0, old(self).position.1),
            r is Ok ==> old(self).placed(old(self).position.0, old(self).position.1, *final(self)),
            old(self).same_tree(*final(self)),
    {
        self.place_at(self.position.0, self.position.1)
    }
}

} // verus!
