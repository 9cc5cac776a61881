//! What holds of the children of a container after the grow pass: together
//! they take no more than the container has, and all of it unless the growing
//! children or the rounds run out first; like children never drift apart; and
//! along the main axis every child stays within its constraints.

use vstd::prelude::*;
use crate::fill::available;
use crate::fill::least_size;
use crate::fill::round_limit;
use crate::fill::total_size;
use crate::fill::water_filled;
use crate::fill::Slot;
use crate::fill_lemmas::distance;
use crate::fill_lemmas::lemma_distribution_conserves;
use crate::fill_lemmas::lemma_distribution_keeps_constraints;
use crate::fill_lemmas::lemma_distribution_keeps_within;
use crate::fill_lemmas::lemma_like_slots_converge;
use crate::fill_lemmas::rounds_left;
use crate::grow::oriented;
use crate::node::Primative;
use crate::node::Rectangle;
use crate::sizing::Axis;

verus! {

/// The sum of the extents depends on the extents alone.
pub proof fn lemma_total_by_sizes(a: Seq<Slot>, b: Seq<Slot>)
    requires
        a.len() == b.len(),
        forall|i: int| 0 <= i < a.len() ==> a[i].size == b[i].size,
    ensures
        total_size(a) == total_size(b),
    decreases a.len(),
{
    if a.len() > 0 {
        lemma_total_by_sizes(a.drop_last(), b.drop_last());
    }
}

impl Primative {
    /// A grown node has the extents that it was given and the policy that it
    /// had.
    pub proof fn lemma_grown_node(self, width: i32, height: i32, post: Primative)
        requires
            self.grown(width, height, post),
        ensures
            post.extent(Axis::Horizontal) == width,
            post.extent(Axis::Vertical) == height,
            forall|axis: Axis| #[trigger] post.floor(axis) == self.floor(axis),
            forall|axis: Axis| #[trigger] post.ceiling(axis) == self.ceiling(axis),
            forall|axis: Axis| #[trigger] post.grows(axis) == self.grows(axis),
    {
    }
}

impl Rectangle {
    /// The main-axis extent of the container, of the given width and height.
    pub open spec fn main_extent(self, width: i32, height: i32) -> i32 {
        match self.main_dir() {
            Axis::Horizontal => width,
            Axis::Vertical => height,
        }
    }

    /// The space that a container of the given extents has for its children
    /// along the main axis.
    pub open spec fn room_along(self, width: i32, height: i32) -> int {
        available(self.main_extent(width, height), self.padding, self.child_gap, self.children@.len())
    }

    /// After the grow pass every child has, along the main axis, the extent
    /// that the distribution gave its slot, and its policy is as it was.
    pub proof fn lemma_grown_children(self, width: i32, height: i32, post: Rectangle)
        requires
            self.grow_fits(width, height),
            self.grown(width, height, post),
        ensures
            post.main_dir() == self.main_dir(),
            post.children@.len() == self.children@.len(),
            forall|i: int|
                0 <= i < self.children@.len() ==> {
                    &&& (#[trigger] post.slots()[i]).size == water_filled(
                        self.slots(),
                        self.main_extent(width, height),
                        self.padding,
                        self.child_gap,
                    )[i].size
                    &&& post.slots()[i].min == self.slots()[i].min
                    &&& post.slots()[i].max == self.slots()[i].max
                },
    {
        assert forall|i: int| 0 <= i < self.children@.len() implies {
            &&& (#[trigger] post.slots()[i]).size == water_filled(
                self.slots(),
                self.main_extent(width, height),
                self.padding,
                self.child_gap,
            )[i].size
            &&& post.slots()[i].min == self.slots()[i].min
            &&& post.slots()[i].max == self.slots()[i].max
        } by {
            let (w, h) = self.child_extents(width, height, i);
            assert(self.children@[i].grow_fits(w as i32, h as i32));
            self.children@[i].lemma_grown_node(w as i32, h as i32, post.children@[i]);
        }
    }

    /// The children of a container never take more than it has: where they
    /// leave space before the grow pass and every growing child is at or above
    /// its floor, the sum of their main-axis extents after the pass is at most
    /// the container's extent less padding and gaps. It is exactly that where
    /// the distribution came to rest with a round to spare and a child that
    /// still grows.
    pub proof fn lemma_grow_conserves(self, width: i32, height: i32, post: Rectangle)
        requires
            self.grow_fits(width, height),
            self.grown(width, height, post),
            total_size(self.slots()) <= self.room_along(width, height),
            forall|i: int|
                0 <= i < self.children@.len() && (#[trigger] self.slots()[i]).grow ==> self.slots()[i].min
                    <= self.slots()[i].size,
        ensures
            total_size(post.slots()) <= post.room_along(width, height),
            rounds_left(self.slots(), self.room_along(width, height), round_limit(self.slots())) > 0 && least_size(
                water_filled(self.slots(), self.main_extent(width, height), self.padding, self.child_gap),
                None,
            ) is Some ==> total_size(post.slots()) == post.room_along(width, height),
    {
        let filled = water_filled(self.slots(), self.main_extent(width, height), self.padding, self.child_gap);
        self.lemma_grown_children(width, height, post);
        lemma_distribution_keeps_constraints(self.slots(), self.room_along(width, height), round_limit(self.slots()));
        lemma_distribution_conserves(self.slots(), self.room_along(width, height), round_limit(self.slots()));
        lemma_total_by_sizes(post.slots(), filled);
    }

    /// Like children never drift apart: of two growing children with the same
    /// main-axis constraints, both within them, the main-axis extents are no
    /// further apart after the grow pass than they were before.
    pub proof fn lemma_like_children_converge(self, width: i32, height: i32, post: Rectangle, i: int, j: int)
        requires
            self.grow_fits(width, height),
            self.grown(width, height, post),
            0 <= i < self.children@.len(),
            0 <= j < self.children@.len(),
            self.slots()[i].grow,
            self.slots()[j].grow,
            self.slots()[i].min == self.slots()[j].min,
            self.slots()[i].max == self.slots()[j].max,
            self.slots()[i].within(),
            self.slots()[j].within(),
        ensures
            distance(post.slots()[i].size as int, post.slots()[j].size as int) <= distance(
                self.slots()[i].size as int,
                self.slots()[j].size as int,
            ),
    {
        self.lemma_grown_children(width, height, post);
        lemma_like_slots_converge(self.slots(), self.room_along(width, height), round_limit(self.slots()), i, j);
    }

    /// Along the main axis the grow pass leaves every child within its
    /// constraints that was within them before.
    pub proof fn lemma_grow_keeps_within(self, width: i32, height: i32, post: Rectangle)
        requires
            self.grow_fits(width, height),
            self.grown(width, height, post),
            forall|i: int| 0 <= i < self.children@.len() ==> (#[trigger] self.slots()[i]).within(),
        ensures
            forall|i: int| 0 <= i < self.children@.len() ==> (#[trigger] post.slots()[i]).within(),
    {
        self.lemma_grown_children(width, height, post);
        lemma_distribution_keeps_constraints(self.slots(), self.room_along(width, height), round_limit(self.slots()));
        lemma_distribution_keeps_within(self.slots(), self.room_along(width, height), round_limit(self.slots()));
        assert forall|i: int| 0 <= i < self.children@.len() implies (#[trigger] post.slots()[i]).within() by {
            let filled = water_filled(self.slots(), self.main_extent(width, height), self.padding, self.child_gap);
            assert(filled[i].within());
        }
    }

    /// Across the main axis the grow pass gives a child that grows there all
    /// the room inside the padding, whatever its constraints, and leaves every
    /// other child as it was.
    pub proof fn lemma_grow_stretches(self, width: i32, height: i32, post: Rectangle, i: int)
        requires
            self.grow_fits(width, height),
            self.grown(width, height, post),
            0 <= i < self.children@.len(),
        ensures
            post.children@[i].extent(self.cross_dir()) == if self.children@[i].grows(self.cross_dir()) {
                oriented(self.main_dir(), width as int, height as int).1 - 2 * self.padding
            } else {
                self.children@[i].extent(self.cross_dir()) as int
            },
    {
        let (w, h) = self.child_extents(width, height, i);
        assert(self.children@[i].grow_fits(w as i32, h as i32));
        self.children@[i].lemma_grown_node(w as i32, h as i32, post.children@[i]);
    }
}

} // verus!
