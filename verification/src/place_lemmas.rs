//! What holds of the positions after the position pass: the children of a
//! container tile its main axis, gap by gap, from its padded corner on.

use vstd::prelude::*;
use crate::node::Primative;
use crate::node::Rectangle;
use crate::sizing::Axis;

verus! {

/// The coordinate of a point along `axis`.
pub open spec fn coordinate(point: (i32, i32), axis: Axis) -> i32 {
    match axis {
        Axis::Horizontal => point.0,
        Axis::Vertical => point.1,
    }
}

impl Primative {
    /// A placed node is where it was put and as large as it was.
    pub proof fn lemma_placed_node(self, x: i32, y: i32, post: Primative)
        requires
            self.placed(x, y, post),
        ensures
            post.origin() == (x, y),
            post.extent(Axis::Horizontal) == self.extent(Axis::Horizontal),
            post.extent(Axis::Vertical) == self.extent(Axis::Vertical),
    {
    }

    /// A laid-out node has the constraints and the sizing that it had.
    pub proof fn lemma_laid_out_policy(self, width: i32, height: i32, x: i32, y: i32, post: Primative)
        requires
            self.laid_out(width, height, x, y, post),
        ensures
            forall|axis: Axis| #[trigger] post.floor(axis) == self.floor(axis),
            forall|axis: Axis| #[trigger] post.ceiling(axis) == self.ceiling(axis),
            forall|axis: Axis| #[trigger] post.grows(axis) == self.grows(axis),
    {
    }

    /// A laid-out node is where it was put and as large as it was made.
    pub proof fn lemma_laid_out_node(self, width: i32, height: i32, x: i32, y: i32, post: Primative)
        requires
            self.laid_out(width, height, x, y, post),
        ensures
            post.origin() == (x, y),
            post.extent(Axis::Horizontal) == width,
            post.extent(Axis::Vertical) == height,
    {
    }
}

/// Whether the children of `post`, a container at `(x, y)`, tile its main
/// axis: all start at the padded edge across the main axis, the first starts
/// at the padded edge along it, and each further one starts where its
/// predecessor ends and the gap has passed.
pub open spec fn tiled(post: Rectangle, x: i32, y: i32) -> bool {
    let main = post.main_dir();
    let cross = post.cross_dir();
    &&& forall|i: int|
        0 <= i < post.children@.len() ==> coordinate((#[trigger] post.children@[i]).origin(), cross) == coordinate(
            (x, y),
            cross,
        ) + post.padding
    &&& post.children@.len() > 0 ==> coordinate(post.children@[0].origin(), main) == coordinate((x, y), main)
        + post.padding
    &&& forall|i: int|
        0 <= i && i + 1 < post.children@.len() ==> coordinate(post.children@[i + 1].origin(), main) == coordinate(
            (#[trigger] post.children@[i]).origin(),
            main,
        ) + post.children@[i].extent(main) + post.child_gap
}

impl Rectangle {
    /// The position pass changes no extent: every node of the subtree that
    /// lay within its constraints before lies within them after.
    pub proof fn lemma_placed_keeps_within(self, x: i32, y: i32, post: Rectangle)
        requires
            self.placed(x, y, post),
            self.all_within(),
        ensures
            post.all_within(),
        decreases self,
    {
        assert forall|i: int| 0 <= i < post.children@.len() implies (#[trigger] post.children@[i]).all_within() by {
            let (cx, cy) = self.child_origin(x, y, i);
            assert(self.children@[i].placed(cx as i32, cy as i32, post.children@[i]));
            assert(self.children@[i].all_within());
            match self.children@[i] {
                Primative::Leaf(_) => {},
                Primative::Container(rect) => {
                    rect.lemma_placed_keeps_within(cx as i32, cy as i32, post.children@[i]->Container_0);
                },
            }
        }
    }

    /// After the position pass the children of the container tile its main
    /// axis.
    pub proof fn lemma_children_tile(self, x: i32, y: i32, post: Rectangle)
        requires
            self.place_fits(x, y),
            self.placed(x, y, post),
        ensures
            tiled(post, x, y),
    {
        assert forall|i: int| 0 <= i < self.children@.len() implies {
            let (cx, cy) = self.child_origin(x, y, i);
            &&& (#[trigger] post.children@[i]).origin() == (cx as i32, cy as i32)
            &&& cx == cx as i32
            &&& cy == cy as i32
            &&& post.children@[i].extent(self.main_dir()) == self.children@[i].extent(self.main_dir())
        } by {
            let (cx, cy) = self.child_origin(x, y, i);
            self.children@[i].lemma_placed_node(cx as i32, cy as i32, post.children@[i]);
        }
        assert forall|i: int| 0 <= i && i + 1 < post.children@.len() implies coordinate(
            post.children@[i + 1].origin(),
            post.main_dir(),
        ) == coordinate((#[trigger] post.children@[i]).origin(), post.main_dir()) + post.children@[i].extent(
            post.main_dir(),
        ) + post.child_gap by {
            let here = self.child_origin(x, y, i);
            let there = self.child_origin(x, y, i + 1);
            assert(self.child_offset(i + 1) == self.child_offset(i) + self.children@[i].extent(self.main_dir())
                + self.child_gap);
            assert(post.children@[i + 1].origin() == (there.0 as i32, there.1 as i32));
        }
        if post.children@.len() > 0 {
            let first = self.child_origin(x, y, 0);
            assert(self.child_offset(0) == 0);
            assert(post.children@[0].origin() == (first.0 as i32, first.1 as i32));
        }
    }

    /// In the whole layout the children of the container tile its main axis.
    pub proof fn lemma_layout_tiles(self, width: i32, height: i32, x: i32, y: i32, post: Rectangle)
        requires
            self.arrange_fits(width, height, x, y),
            self.laid_out(width, height, x, y, post),
        ensures
            tiled(post, x, y),
    {
        assert forall|i: int| 0 <= i < self.children@.len() implies {
            let (cx, cy) = self.final_child_origin(width, height, x, y, i);
            &&& (#[trigger] post.children@[i]).origin() == (cx as i32, cy as i32)
            &&& cx == cx as i32
            &&& cy == cy as i32
            &&& post.children@[i].extent(self.main_dir()) == self.final_child_along(width, height, i)
        } by {
            let (cx, cy) = self.final_child_origin(width, height, x, y, i);
            let (cw, ch) = self.final_child_extents(width, height, i);
            self.children@[i].lemma_laid_out_node(cw as i32, ch as i32, cx as i32, cy as i32, post.children@[i]);
        }
        assert forall|i: int| 0 <= i && i + 1 < post.children@.len() implies coordinate(
            post.children@[i + 1].origin(),
            post.main_dir(),
        ) == coordinate((#[trigger] post.children@[i]).origin(), post.main_dir()) + post.children@[i].extent(
            post.main_dir(),
        ) + post.child_gap by {
            let there = self.final_child_origin(width, height, x, y, i + 1);
            let here = self.final_child_origin(width, height, x, y, i);
            assert(self.final_child_offset(width, height, i + 1) == self.final_child_offset(width, height, i)
                + self.final_child_along(width, height, i) + self.child_gap);
            assert(post.children@[i + 1].origin() == (there.0 as i32, there.1 as i32));
        }
        if post.children@.len() > 0 {
            let first = self.final_child_origin(width, height, x, y, 0);
            assert(self.final_child_offset(width, height, 0) == 0);
            assert(post.children@[0].origin() == (first.0 as i32, first.1 as i32));
        }
    }
}

} // verus!
