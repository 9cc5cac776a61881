//! What holds of the children of every container in the whole layout: what
//! the grow pass guarantees of a fitted tree, stated of the tree as it was
//! handed in.

use vstd::prelude::*;
use crate::fill::least_size;
use crate::fill::round_limit;
use crate::fill::total_size;
use crate::fill::water_filled;
use crate::fill_lemmas::distance;
use crate::fill_lemmas::lemma_distribution_conserves;
use crate::fill_lemmas::lemma_distribution_keeps_constraints;
use crate::fill_lemmas::lemma_distribution_keeps_within;
use crate::fill_lemmas::lemma_like_slots_converge;
use crate::fill_lemmas::rounds_left;
use crate::grow_lemmas::lemma_total_by_sizes;
use crate::node::Rectangle;

verus! {

impl Rectangle {
    /// In the whole layout every child has, along the main axis, the extent
    /// that the distribution gave the slot of its fit extent, and its
    /// constraints are as they were.
    pub proof fn lemma_laid_out_children(self, width: i32, height: i32, x: i32, y: i32, post: Rectangle)
        requires
            self.arrange_fits(width, height, x, y),
            self.laid_out(width, height, x, y, post),
        ensures
            post.main_dir() == self.main_dir(),
            post.children@.len() == self.children@.len(),
            forall|i: int|
                0 <= i < self.children@.len() ==> {
                    &&& (#[trigger] post.slots()[i]).size == water_filled(
                        self.fit_slots(),
                        self.main_extent(width, height),
                        self.padding,
                        self.child_gap,
                    )[i].size
                    &&& post.slots()[i].min == self.fit_slots()[i].min
                    &&& post.slots()[i].max == self.fit_slots()[i].max
                },
    {
        assert forall|i: int| 0 <= i < self.children@.len() implies {
            &&& (#[trigger] post.slots()[i]).size == water_filled(
                self.fit_slots(),
                self.main_extent(width, height),
                self.padding,
                self.child_gap,
            )[i].size
            &&& post.slots()[i].min == self.fit_slots()[i].min
            &&& post.slots()[i].max == self.fit_slots()[i].max
        } by {
            let (cx, cy) = self.final_child_origin(width, height, x, y, i);
            let (cw, ch) = self.final_child_extents(width, height, i);
            self.children@[i].lemma_laid_out_node(cw as i32, ch as i32, cx as i32, cy as i32, post.children@[i]);
            self.children@[i].lemma_laid_out_policy(cw as i32, ch as i32, cx as i32, cy as i32, post.children@[i]);
        }
    }

    /// In the whole layout the children of a container never take more than it
    /// has: where their fit extents leave space and every growing child fits
    /// at or above its floor, the sum of their main-axis extents is at most
    /// the container's extent less padding and gaps. It is exactly that where
    /// the distribution came to rest with a round to spare and a child that
    /// still grows.
    pub proof fn lemma_layout_conserves(self, width: i32, height: i32, x: i32, y: i32, post: Rectangle)
        requires
            self.arrange_fits(width, height, x, y),
            self.laid_out(width, height, x, y, post),
            total_size(self.fit_slots()) <= self.room_along(width, height),
            forall|i: int|
                0 <= i < self.children@.len() && (#[trigger] self.fit_slots()[i]).grow ==> self.fit_slots()[i].min
                    <= self.fit_slots()[i].size,
        ensures
            total_size(post.slots()) <= post.room_along(width, height),
            rounds_left(self.fit_slots(), self.room_along(width, height), round_limit(self.fit_slots())) > 0
                && least_size(
                water_filled(self.fit_slots(), self.main_extent(width, height), self.padding, self.child_gap),
                None,
            ) is Some ==> total_size(post.slots()) == post.room_along(width, height),
    {
        let filled = water_filled(self.fit_slots(), self.main_extent(width, height), self.padding, self.child_gap);
        self.lemma_laid_out_children(width, height, x, y, post);
        lemma_distribution_keeps_constraints(
            self.fit_slots(),
            self.room_along(width, height),
            round_limit(self.fit_slots()),
        );
        lemma_distribution_conserves(self.fit_slots(), self.room_along(width, height), round_limit(self.fit_slots()));
        lemma_total_by_sizes(post.slots(), filled);
    }

    /// In the whole layout like children never drift apart: of two growing
    /// children with the same main-axis constraints, whose fit extents lie
    /// within them, the main-axis extents are no further apart than the fit
    /// extents were.
    pub proof fn lemma_layout_converges(
        self,
        width: i32,
        height: i32,
        x: i32,
        y: i32,
        post: Rectangle,
        i: int,
        j: int,
    )
        requires
            self.arrange_fits(width, height, x, y),
            self.laid_out(width, height, x, y, post),
            0 <= i < self.children@.len(),
            0 <= j < self.children@.len(),
            self.fit_slots()[i].grow,
            self.fit_slots()[j].grow,
            self.fit_slots()[i].min == self.fit_slots()[j].min,
            self.fit_slots()[i].max == self.fit_slots()[j].max,
            self.fit_slots()[i].within(),
            self.fit_slots()[j].within(),
        ensures
            distance(post.slots()[i].size as int, post.slots()[j].size as int) <= distance(
                self.fit_slots()[i].size as int,
                self.fit_slots()[j].size as int,
            ),
    {
        self.lemma_laid_out_children(width, height, x, y, post);
        lemma_like_slots_converge(
            self.fit_slots(),
            self.room_along(width, height),
            round_limit(self.fit_slots()),
            i,
            j,
        );
    }

    /// In the whole layout every child lies within its constraints along the
    /// main axis whose fit extent lay within them.
    pub proof fn lemma_layout_keeps_within(self, width: i32, height: i32, x: i32, y: i32, post: Rectangle)
        requires
            self.arrange_fits(width, height, x, y),
            self.laid_out(width, height, x, y, post),
            forall|i: int| 0 <= i < self.children@.len() ==> (#[trigger] self.fit_slots()[i]).within(),
        ensures
            forall|i: int| 0 <= i < self.children@.len() ==> (#[trigger] post.slots()[i]).within(),
    {
        self.lemma_laid_out_children(width, height, x, y, post);
        lemma_distribution_keeps_constraints(
            self.fit_slots(),
            self.room_along(width, height),
            round_limit(self.fit_slots()),
        );
        lemma_distribution_keeps_within(
            self.fit_slots(),
            self.room_along(width, height),
            round_limit(self.fit_slots()),
        );
        assert forall|i: int| 0 <= i < self.children@.len() implies (#[trigger] post.slots()[i]).within() by {
            let filled = water_filled(
                self.fit_slots(),
                self.main_extent(width, height),
                self.padding,
                self.child_gap,
            );
            assert(filled[i].within());
        }
    }
}

} // verus!
