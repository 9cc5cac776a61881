//! The grow pass: top-down, every container hands its leftover main-axis space
//! to its growing children and stretches them across the other axis.

use vstd::prelude::*;
use crate::error::LayoutError;
use crate::fill::water_fill;
use crate::fill::water_fill_fits;
use crate::fill::water_filled;
use crate::fill::Slot;
use crate::fit::storable;
use crate::node::Primative;
use crate::node::Rectangle;
use crate::sizing::Axis;

verus! {

/// A pair of extents, one along and one across a main axis, as width and
/// height.
pub open spec fn oriented(main: Axis, along: int, across: int) -> (int, int) {
    match main {
        Axis::Horizontal => (along, across),
        Axis::Vertical => (across, along),
    }
}

impl Primative {
    /// The node as the distribution along `axis` sees it.
    pub open spec fn slot(self, axis: Axis) -> Slot {
        Slot { size: self.extent(axis), min: self.floor(axis), max: self.ceiling(axis), grow: self.grows(axis) }
    }

    /// Whether the grow pass, with the node at the given extents, can store
    /// every extent that it assigns below the node.
    pub open spec fn grow_fits(self, width: i32, height: i32) -> bool
        decreases self,
    {
        match self {
            Primative::Leaf(_) => true,
            Primative::Container(rect) => rect.grow_fits(width, height),
        }
    }

    /// Whether `post` is `self` after the grow pass of its parent has given it
    /// the extents `width` and `height`.
    pub open spec fn grown(self, width: i32, height: i32, post: Primative) -> bool
        decreases self,
    {
        match self {
            Primative::Leaf(leaf) => post == Primative::Leaf(leaf.resized(width, height)),
            Primative::Container(rect) => post matches Primative::Container(after) && rect.grown(width, height, after),
        }
    }

    /// The node as the distribution along `axis` sees it.
    pub fn slot_along(&self, axis: Axis) -> (slot: Slot)
        ensures
            slot == self.slot(axis),
    {
        Slot {
            size: self.get_size_along_axis(axis),
            min: self.get_min_along_axis(axis),
            max: self.get_max_along_axis(axis),
            grow: self.grows_along(axis),
        }
    }
}

impl Rectangle {
    /// The children as the distribution along the main axis sees them.
    pub open spec fn slots(self) -> Seq<Slot> {
        Seq::new(self.children@.len(), |i: int| self.children@[i].slot(self.main_dir()))
    }

    /// The extent of child `i` along the main axis once the leftover space of
    /// a container `along` long has been distributed.
    pub open spec fn child_along(self, along: i32, i: int) -> int {
        water_filled(self.slots(), along, self.padding, self.child_gap)[i].size as int
    }

    /// The extent of child `i` across the main axis in a container `across`
    /// wide: all the room inside the padding where the child grows there, its
    /// own extent where it does not.
    pub open spec fn child_across(self, across: i32, i: int) -> int {
        if self.children@[i].grows(self.cross_dir()) {
            across - 2 * self.padding
        } else {
            self.children@[i].extent(self.cross_dir()) as int
        }
    }

    /// The width and the height that the grow pass of a container of the given
    /// extents gives its child `i`.
    pub open spec fn child_extents(self, width: i32, height: i32, i: int) -> (int, int) {
        let (along, across) = oriented(self.main_dir(), width as int, height as int);
        oriented(self.main_dir(), self.child_along(along as i32, i), self.child_across(across as i32, i))
    }

    /// Whether the grow pass, with the container at the given extents, can
    /// store every extent that it assigns in the subtree.
    pub open spec fn grow_fits(self, width: i32, height: i32) -> bool
        decreases self,
    {
        let (along, across) = oriented(self.main_dir(), width as int, height as int);
        &&& water_fill_fits(self.slots(), along as i32, self.padding, self.child_gap)
        &&& forall|i: int|
            0 <= i < self.children@.len() ==> {
                let (w, h) = self.child_extents(width, height, i);
                &&& storable(w)
                &&& storable(h)
                &&& (#[trigger] self.children@[i]).grow_fits(w as i32, h as i32)
            }
    }

    /// Whether `post` is `self` after the grow pass with the container at the
    /// given extents: the container has these extents, every child has the
    /// extents that the distribution gives it and is grown in its turn, and
    /// nothing else has changed.
    pub open spec fn grown(self, width: i32, height: i32, post: Rectangle) -> bool
        decreases self,
    {
        &&& self.same_policy(post)
        &&& post.position == self.position
        &&& post.width == width
        &&& post.height == height
        &&& forall|i: int|
            0 <= i < self.children@.len() ==> {
                let (w, h) = self.child_extents(width, height, i);
                (#[trigger] self.children@[i]).grown(w as i32, h as i32, post.children@[i])
            }
    }

    /// The children as the distribution along the main axis sees them.
    fn collect_slots(&self) -> (slots: Vec<Slot>)
        ensures
            slots@ == self.slots(),
    {
        let axis = self.layout_mode.main_axis();
        let n = self.children.len();
        let mut slots: Vec<Slot> = Vec::new();
        let mut i: usize = 0;
        while i < n
            invariant
                i <= n,
                n == self.children@.len(),
                axis == self.main_dir(),
                slots@.len() == i,
                forall|j: int| 0 <= j < i ==> slots@[j] == self.children@[j].slot(axis),
            decreases n - i,
        {
            slots.push(self.children[i].slot_along(axis));
            i += 1;
        }
        assert(slots@ =~= self.slots());
        slots
    }
}

impl Rectangle {
    /// The grow pass over the subtree, parents first, with the container
    /// itself set to the given extents.
    fn grow_into(&mut self, width: i32, height: i32) -> (r: Result<(), LayoutError>)
        ensures
            r is Ok <==> old(self).grow_fits(width, height),
            r is Ok ==> old(self).grown(width, height, *final(self)),
            old(self).same_tree(*final(self)),
        decreases *old(self),
    {
        self.width = width;
        self.height = height;
        let main = self.layout_mode.main_axis();
        let cross = std::ops::Not::not(main);
        let (along, across) = match main {
            Axis::Horizontal => (width, height),
            Axis::Vertical => (height, width),
        };
        let mut slots = self.collect_slots();
        assert(self.slots() =~= old(self).slots());
        match water_fill(&mut slots, along, self.padding, self.child_gap) {
            Ok(()) => {},
            Err(e) => {
                proof {
                    old(self).lemma_same_tree_so_far(*self, 0);
                }
                return Err(e);
            },
        }
        let room: i64 = across as i64 - 2 * (self.padding as i64);
        let n = self.children.len();
        let mut i: usize = 0;
        while i < n
            invariant
                i <= n,
                n == self.children@.len(),
                n == slots@.len(),
                *self == (Rectangle { width, height, children: self.children, ..*old(self) }),
                old(self).same_policy(*self),
                main == old(self).main_dir(),
                cross == old(self).cross_dir(),
                oriented(main, width as int, height as int) == (along as int, across as int),
                water_fill_fits(old(self).slots(), along, old(self).padding, old(self).child_gap),
                slots@ == water_filled(old(self).slots(), along, old(self).padding, old(self).child_gap),
                room == across - 2 * old(self).padding,
                forall|j: int|
                    0 <= j < i ==> {
                        let (w, h) = old(self).child_extents(width, height, j);
                        &&& storable(w)
                        &&& storable(h)
                        &&& (#[trigger] old(self).children@[j]).grow_fits(w as i32, h as i32)
                        &&& old(self).children@[j].grown(w as i32, h as i32, self.children@[j])
                    },
                forall|j: int| 0 <= j < i ==> (#[trigger] old(self).children@[j]).same_tree(self.children@[j]),
                forall|j: int| i <= j < n ==> self.children@[j] == old(self).children@[j],
            decreases n - i,
        {
            let ghost child = old(self).children@[i as int];
            let ghost (w, h) = old(self).child_extents(width, height, i as int);
            assert(self.children@[i as int] == child);
            let stacked: i32 = slots[i].size;
            let spanned: i32 = if self.children[i].grows_along(cross) {
                if room < i32::MIN as i64 || room > i32::MAX as i64 {
                    proof {
                        assert(!storable(old(self).child_across(across, i as int)));
                        assert(!(storable(w) && storable(h)));
                        old(self).lemma_same_tree_so_far(*self, i as int);
                    }
                    return Err(LayoutError::Overflow);
                }
                room as i32
            } else {
                self.children[i].get_size_along_axis(cross)
            };
            let (child_width, child_height) = match main {
                Axis::Horizontal => (stacked, spanned),
                Axis::Vertical => (spanned, stacked),
            };
            assert(child_width == w && child_height == h);
            match &mut self.children[i] {
                Primative::Leaf(leaf) => {
                    leaf.width = child_width;
                    leaf.height = child_height;
                },
                Primative::Container(rect) => {
                    match rect.grow_into(child_width, child_height) {
                        Ok(()) => {},
                        Err(e) => {
                            proof {
                                assert(!child.grow_fits(child_width, child_height));
                                assert(child.same_tree(self.children@[i as int]));
                                old(self).lemma_same_tree_so_far(*self, i + 1);
                            }
                            return Err(e);
                        },
                    }
                },
            }
            assert(child.grow_fits(child_width, child_height));
            assert(child.grown(child_width, child_height, self.children@[i as int]));
            assert(child.same_tree(self.children@[i as int]));
            i += 1;
        }
        proof {
            old(self).lemma_same_tree_so_far(*self, n as int);
        }
        Ok(())
    }

    /// The grow pass over the subtree, parents first. The container keeps its
    /// extents. Its leftover space along the main axis goes to the growing
    /// children by water-filling; a child that grows across the main axis
    /// takes all the room inside the padding. Then each child that is a
    /// container does the same with its own.
    ///
    /// Fails exactly where an extent that the pass assigns does not fit in an
    /// `i32`; the subtree is then left partly grown. Either way it is the same
    /// tree.
    pub fn grow_sizing(&mut self) -> (r: Result<(), LayoutError>)
        ensures
            r is Ok <==> old(self).grow_fits(old(self).width, old(self).height),
            r is Ok ==> old(self).grown(old(self).width, old(self).height, *final(self)),
            old(self).same_tree(*final(self)),
    {
        self.grow_into(self.width, self.height)
    }
}

} // verus!
