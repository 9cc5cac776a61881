//! What the three passes make of a tree when they run one after the other:
//! the whole layout, stated over the sizing policy alone.

use vstd::prelude::*;
use crate::fill::water_fill_fits;
use crate::fill::water_filled;
use crate::fill::Slot;
use crate::fit::storable;
use crate::grow::oriented;
use crate::node::Primative;
use crate::node::Rectangle;
use crate::sizing::Axis;

verus! {

impl Primative {
    /// The node as the distribution along `axis` sees it after the fit pass.
    pub open spec fn fit_slot(self, axis: Axis) -> Slot {
        Slot {
            size: self.fit_extent(axis) as i32,
            min: self.floor(axis),
            max: self.ceiling(axis),
            grow: self.grows(axis),
        }
    }

    /// Whether growing and placing the fitted node, at the given extents and
    /// position, assigns below it only what can be stored.
    pub open spec fn arrange_fits(self, width: i32, height: i32, x: i32, y: i32) -> bool
        decreases self,
    {
        match self {
            Primative::Leaf(_) => true,
            Primative::Container(rect) => rect.arrange_fits(width, height, x, y),
        }
    }

    /// Whether `post` is the layout of `self` at the given extents and
    /// position.
    pub open spec fn laid_out(self, width: i32, height: i32, x: i32, y: i32, post: Primative) -> bool
        decreases self,
    {
        match self {
            Primative::Leaf(leaf) => post == Primative::Leaf(leaf.resized(width, height).moved((x, y))),
            Primative::Container(rect) => post matches Primative::Container(after) && rect.laid_out(
                width,
                height,
                x,
                y,
                after,
            ),
        }
    }
}

impl Rectangle {
    /// The children as the distribution along the main axis sees them after
    /// the fit pass.
    pub open spec fn fit_slots(self) -> Seq<Slot> {
        Seq::new(self.children@.len(), |i: int| self.children@[i].fit_slot(self.main_dir()))
    }

    /// The final extent of child `i` along the main axis in a container of
    /// the given extents: its fit extent and its part of the leftover space.
    pub open spec fn final_child_along(self, width: i32, height: i32, i: int) -> int {
        let (along, across) = oriented(self.main_dir(), width as int, height as int);
        water_filled(self.fit_slots(), along as i32, self.padding, self.child_gap)[i].size as int
    }

    /// The final extent of child `i` across the main axis in a container of
    /// the given extents: the room inside the padding where the child grows
    /// there, its fit extent where it does not.
    pub open spec fn final_child_across(self, width: i32, height: i32, i: int) -> int {
        let (along, across) = oriented(self.main_dir(), width as int, height as int);
        if self.children@[i].grows(self.cross_dir()) {
            across - 2 * self.padding
        } else {
            self.children@[i].fit_extent(self.cross_dir())
        }
    }

    /// The final width and height of child `i`.
    pub open spec fn final_child_extents(self, width: i32, height: i32, i: int) -> (int, int) {
        oriented(self.main_dir(), self.final_child_along(width, height, i), self.final_child_across(width, height, i))
    }

    /// How far along the main axis child `i` finally starts behind the first
    /// child.
    pub open spec fn final_child_offset(self, width: i32, height: i32, i: int) -> int
        decreases i,
    {
        if i <= 0 {
            0
        } else {
            self.final_child_offset(width, height, i - 1) + self.final_child_along(width, height, i - 1)
                + self.child_gap
        }
    }

    /// The final position of child `i` in a container of the given extents at
    /// `(x, y)`.
    pub open spec fn final_child_origin(self, width: i32, height: i32, x: i32, y: i32, i: int) -> (int, int) {
        match self.main_dir() {
            Axis::Horizontal => (x + self.padding + self.final_child_offset(width, height, i), y + self.padding),
            Axis::Vertical => (x + self.padding, y + self.padding + self.final_child_offset(width, height, i)),
        }
    }

    /// Whether growing and placing the fitted container, at the given extents
    /// and position, assigns in the subtree only what can be stored.
    pub open spec fn arrange_fits(self, width: i32, height: i32, x: i32, y: i32) -> bool
        decreases self,
    {
        let (along, across) = oriented(self.main_dir(), width as int, height as int);
        &&& water_fill_fits(self.fit_slots(), along as i32, self.padding, self.child_gap)
        &&& forall|i: int|
            0 <= i < self.children@.len() ==> {
                let (cx, cy) = #[trigger] self.final_child_origin(width, height, x, y, i);
                let (cw, ch) = self.final_child_extents(width, height, i);
                &&& storable(cw)
                &&& storable(ch)
                &&& storable(cx)
                &&& storable(cy)
                &&& self.children@[i].arrange_fits(cw as i32, ch as i32, cx as i32, cy as i32)
            }
    }

    /// Whether `post` is the layout of `self` at the given extents and
    /// position: the container has them, every child has its final extents
    /// and its final position and is laid out in its turn, and the policy is
    /// as it was.
    pub open spec fn laid_out(self, width: i32, height: i32, x: i32, y: i32, post: Rectangle) -> bool
        decreases self,
    {
        &&& self.same_policy(post)
        &&& post.width == width
        &&& post.height == height
        &&& post.position == (x, y)
        &&& forall|i: int|
            0 <= i < self.children@.len() ==> {
                let (cx, cy) = #[trigger] self.final_child_origin(width, height, x, y, i);
                let (cw, ch) = self.final_child_extents(width, height, i);
                self.children@[i].laid_out(cw as i32, ch as i32, cx as i32, cy as i32, post.children@[i])
            }
    }

    /// Whether `fit` has the policy of `self` and, for children, the
    /// children of `self` after the fit pass.
    pub open spec fn fitted_below(self, fit: Rectangle) -> bool {
        &&& self.same_policy(fit)
        &&& forall|i: int| 0 <= i < self.children@.len() ==> (#[trigger] self.children@[i]).fitted(fit.children@[i])
    }
}

impl Primative {
    /// A fitted node shows its fit extents, and its policy is as it was.
    pub proof fn lemma_fitted_slot(self, post: Primative, axis: Axis)
        requires
            self.fitted(post),
        ensures
            post.extent(axis) == self.fit_extent(axis),
            post.slot(axis) == self.fit_slot(axis),
            post.grows(axis) == self.grows(axis),
            self is Leaf <==> post is Leaf,
            self is Container ==> post is Container && self->Container_0.fitted_below(post->Container_0),
    {
    }
}

impl Rectangle {
    /// After the fit pass, the distribution finds in the children what the
    /// whole layout is stated over.
    pub proof fn lemma_fitted_children(self, fit: Rectangle, width: i32, height: i32)
        requires
            self.fitted_below(fit),
        ensures
            fit.slots() == self.fit_slots(),
            forall|i: int|
                0 <= i < self.children@.len() ==> #[trigger] fit.child_extents(width, height, i)
                    == self.final_child_extents(width, height, i),
    {
        assert(fit.slots() =~= self.fit_slots()) by {
            assert forall|j: int| 0 <= j < self.children@.len() implies fit.slots()[j] == self.fit_slots()[j] by {
                self.children@[j].lemma_fitted_slot(fit.children@[j], self.main_dir());
            }
        }
        assert forall|i: int| 0 <= i < self.children@.len() implies #[trigger] fit.child_extents(width, height, i)
            == self.final_child_extents(width, height, i) by {
            self.children@[i].lemma_fitted_slot(fit.children@[i], self.main_dir());
            self.children@[i].lemma_fitted_slot(fit.children@[i], self.cross_dir());
        }
    }

    /// After the fit and the grow pass, the children start where the whole
    /// layout says.
    pub proof fn lemma_grown_offsets(self, fit: Rectangle, grown: Rectangle, width: i32, height: i32, i: int)
        requires
            self.fitted_below(fit),
            fit.grown(width, height, grown),
            0 <= i <= self.children@.len(),
        ensures
            grown.child_offset(i) == self.final_child_offset(width, height, i),
        decreases i,
    {
        if i > 0 {
            self.lemma_grown_offsets(fit, grown, width, height, i - 1);
            self.lemma_fitted_children(fit, width, height);
            let (w, h) = fit.child_extents(width, height, i - 1);
            assert(fit.children@[i - 1].grown(w as i32, h as i32, grown.children@[i - 1]));
            assert(fit.child_extents(width, height, i - 1) == self.final_child_extents(width, height, i - 1));
        }
    }

    /// Where the whole layout can be stored, the grow pass succeeds on the
    /// fitted tree.
    pub proof fn lemma_arranged_grows(self, fit: Rectangle, width: i32, height: i32, x: i32, y: i32)
        requires
            self.fitted_below(fit),
            self.arrange_fits(width, height, x, y),
        ensures
            fit.grow_fits(width, height),
        decreases self,
    {
        self.lemma_fitted_children(fit, width, height);
        assert forall|i: int| 0 <= i < fit.children@.len() implies {
            let (w, h) = fit.child_extents(width, height, i);
            &&& storable(w)
            &&& storable(h)
            &&& (#[trigger] fit.children@[i]).grow_fits(w as i32, h as i32)
        } by {
            let (cx, cy) = self.final_child_origin(width, height, x, y, i);
            let (cw, ch) = self.final_child_extents(width, height, i);
            assert(fit.child_extents(width, height, i) == (cw, ch));
            self.children@[i].lemma_fitted_slot(fit.children@[i], self.main_dir());
            match self.children@[i] {
                Primative::Leaf(_) => {},
                Primative::Container(rect) => {
                    let after = fit.children@[i]->Container_0;
                    rect.lemma_arranged_grows(after, cw as i32, ch as i32, cx as i32, cy as i32);
                },
            }
        }
    }

    /// Where the whole layout can be stored, the position pass succeeds on
    /// the fitted and grown tree.
    pub proof fn lemma_arranged_places(
        self,
        fit: Rectangle,
        grown: Rectangle,
        width: i32,
        height: i32,
        x: i32,
        y: i32,
    )
        requires
            self.fitted_below(fit),
            fit.grown(width, height, grown),
            self.arrange_fits(width, height, x, y),
        ensures
            grown.place_fits(x, y),
        decreases self,
    {
        self.lemma_fitted_children(fit, width, height);
        assert forall|i: int| 0 <= i < grown.children@.len() implies {
            let (cx, cy) = #[trigger] grown.child_origin(x, y, i);
            &&& storable(cx)
            &&& storable(cy)
            &&& grown.children@[i].place_fits(cx as i32, cy as i32)
        } by {
            self.lemma_grown_offsets(fit, grown, width, height, i);
            let (cx, cy) = self.final_child_origin(width, height, x, y, i);
            let (cw, ch) = self.final_child_extents(width, height, i);
            assert(grown.child_origin(x, y, i) == (cx, cy));
            assert(fit.child_extents(width, height, i) == (cw, ch));
            assert(fit.children@[i].grown(cw as i32, ch as i32, grown.children@[i]));
            self.children@[i].lemma_fitted_slot(fit.children@[i], self.main_dir());
            match self.children@[i] {
                Primative::Leaf(_) => {},
                Primative::Container(rect) => {
                    let after = fit.children@[i]->Container_0;
                    let later = grown.children@[i]->Container_0;
                    rect.lemma_arranged_places(after, later, cw as i32, ch as i32, cx as i32, cy as i32);
                },
            }
        }
    }

    /// Where the grow pass and the position pass succeed one after the other
    /// on the fitted tree, the whole layout can be stored.
    pub proof fn lemma_passes_arrange(
        self,
        fit: Rectangle,
        grown: Rectangle,
        width: i32,
        height: i32,
        x: i32,
        y: i32,
    )
        requires
            self.fitted_below(fit),
            fit.grow_fits(width, height),
            fit.grown(width, height, grown),
            grown.place_fits(x, y),
        ensures
            self.arrange_fits(width, height, x, y),
        decreases self,
    {
        self.lemma_fitted_children(fit, width, height);
        assert forall|i: int| 0 <= i < self.children@.len() implies {
            let (cx, cy) = #[trigger] self.final_child_origin(width, height, x, y, i);
            let (cw, ch) = self.final_child_extents(width, height, i);
            &&& storable(cw)
            &&& storable(ch)
            &&& storable(cx)
            &&& storable(cy)
            &&& self.children@[i].arrange_fits(cw as i32, ch as i32, cx as i32, cy as i32)
        } by {
            self.lemma_grown_offsets(fit, grown, width, height, i);
            let (cx, cy) = self.final_child_origin(width, height, x, y, i);
            let (cw, ch) = self.final_child_extents(width, height, i);
            assert(grown.child_origin(x, y, i) == (cx, cy));
            assert(fit.child_extents(width, height, i) == (cw, ch));
            assert(fit.children@[i].grow_fits(cw as i32, ch as i32));
            assert(fit.children@[i].grown(cw as i32, ch as i32, grown.children@[i]));
            self.children@[i].lemma_fitted_slot(fit.children@[i], self.main_dir());
            match self.children@[i] {
                Primative::Leaf(_) => {},
                Primative::Container(rect) => {
                    let after = fit.children@[i]->Container_0;
                    let later = grown.children@[i]->Container_0;
                    rect.lemma_passes_arrange(after, later, cw as i32, ch as i32, cx as i32, cy as i32);
                },
            }
        }
    }

    /// The three passes, one after the other, give the whole layout.
    pub proof fn lemma_passes_lay_out(
        self,
        fit: Rectangle,
        grown: Rectangle,
        post: Rectangle,
        width: i32,
        height: i32,
        x: i32,
        y: i32,
    )
        requires
            self.fitted_below(fit),
            fit.position == self.position,
            fit.grown(width, height, grown),
            grown.placed(x, y, post),
        ensures
            self.laid_out(width, height, x, y, post),
        decreases self,
    {
        self.lemma_fitted_children(fit, width, height);
        assert forall|i: int| 0 <= i < self.children@.len() implies {
            let (cx, cy) = #[trigger] self.final_child_origin(width, height, x, y, i);
            let (cw, ch) = self.final_child_extents(width, height, i);
            self.children@[i].laid_out(cw as i32, ch as i32, cx as i32, cy as i32, post.children@[i])
        } by {
            self.lemma_grown_offsets(fit, grown, width, height, i);
            let (cx, cy) = self.final_child_origin(width, height, x, y, i);
            let (cw, ch) = self.final_child_extents(width, height, i);
            assert(grown.child_origin(x, y, i) == (cx, cy));
            assert(fit.child_extents(width, height, i) == (cw, ch));
            assert(fit.children@[i].grown(cw as i32, ch as i32, grown.children@[i]));
            assert(grown.children@[i].placed(cx as i32, cy as i32, post.children@[i]));
            assert(self.children@[i].fitted(fit.children@[i]));
            self.children@[i].lemma_fitted_slot(fit.children@[i], self.main_dir());
            match self.children@[i] {
                Primative::Leaf(_) => {},
                Primative::Container(rect) => {
                    let after = fit.children@[i]->Container_0;
                    let later = grown.children@[i]->Container_0;
                    let last = post.children@[i]->Container_0;
                    rect.lemma_passes_lay_out(after, later, last, cw as i32, ch as i32, cx as i32, cy as i32);
                },
            }
        }
    }
}

} // verus!
