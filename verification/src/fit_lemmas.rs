//! What holds of a tree after the fit pass: every node has exactly the box of
//! its content, as far as its policy allows, and lies within its constraints
//! where these can be met.

use vstd::prelude::*;
use crate::fit::clamped;
use crate::fit::extent_peak;
use crate::fit::extent_sum;
use crate::fit::resolved;
use crate::node::Leaf;
use crate::node::Primative;
use crate::node::Rectangle;
use crate::sizing::Axis;
use crate::sizing::SizingMode;

verus! {

/// Whether an extent lies between a floor and an optional ceiling.
pub open spec fn between(extent: int, min: i32, max: Option<i32>) -> bool {
    &&& min <= extent
    &&& max matches Some(ceiling) ==> extent <= ceiling
}

/// Whether a fixed extent, if the mode holds one, lies within the constraints,
/// and the floor is not above the ceiling: whether some extent can meet the
/// constraints under the mode.
pub open spec fn reconcilable(mode: SizingMode, min: i32, max: Option<i32>) -> bool {
    &&& max matches Some(ceiling) ==> min <= ceiling
    &&& mode matches SizingMode::Fixed(value) ==> between(value as int, min, max)
}

impl Leaf {
    /// Whether the constraints can be met on both axes.
    pub open spec fn consistent(self) -> bool {
        &&& self.max_width matches Some(ceiling) ==> self.min_width <= ceiling
        &&& self.max_height matches Some(ceiling) ==> self.min_height <= ceiling
    }

    /// Whether the extents lie within the constraints on both axes.
    pub open spec fn within(self) -> bool {
        &&& between(self.width as int, self.min_width, self.max_width)
        &&& between(self.height as int, self.min_height, self.max_height)
    }
}

impl Primative {
    /// Whether the constraints of every node of the subtree can be met.
    pub open spec fn consistent(self) -> bool
        decreases self,
    {
        match self {
            Primative::Leaf(leaf) => leaf.consistent(),
            Primative::Container(rect) => rect.consistent(),
        }
    }

    /// Whether every node of the subtree lies within its constraints.
    pub open spec fn all_within(self) -> bool
        decreases self,
    {
        match self {
            Primative::Leaf(leaf) => leaf.within(),
            Primative::Container(rect) => rect.all_within(),
        }
    }

    /// Whether every node of the subtree has its fit extents: a leaf its
    /// minimum, a container the box of its content as far as its policy
    /// allows.
    pub open spec fn is_fit(self) -> bool
        decreases self,
    {
        match self {
            Primative::Leaf(leaf) => leaf.width == leaf.min_width && leaf.height == leaf.min_height,
            Primative::Container(rect) => rect.is_fit(),
        }
    }
}

impl Rectangle {
    /// The extents of the children along `axis` as they stand.
    pub open spec fn child_extents_along(self, axis: Axis) -> Seq<int> {
        Seq::new(self.children@.len(), |i: int| self.children@[i].extent(axis) as int)
    }

    /// The box of the content along `axis` as it stands: along the main axis
    /// the children's extents and the gaps between them, across it the largest
    /// child, in both cases inside the padding.
    pub open spec fn content_box(self, axis: Axis) -> int {
        if axis == self.main_dir() {
            2 * self.padding + extent_sum(self.child_extents_along(axis)) + self.child_gap * (if self.children@.len() == 0 {
                0
            } else {
                self.children@.len() - 1
            })
        } else {
            2 * self.padding + extent_peak(self.child_extents_along(axis))
        }
    }

    /// Whether the container has, along `axis`, the box of its content as far
    /// as its policy allows.
    pub open spec fn hugs_content(self, axis: Axis) -> bool {
        self.extent(axis) == resolved(
            self.sizing.along(axis),
            self.content_box(axis),
            self.floor(axis),
            self.ceiling(axis),
        )
    }

    /// Whether every node of the subtree has its fit extents.
    pub open spec fn is_fit(self) -> bool
        decreases self,
    {
        &&& self.hugs_content(Axis::Horizontal)
        &&& self.hugs_content(Axis::Vertical)
        &&& forall|i: int| 0 <= i < self.children@.len() ==> (#[trigger] self.children@[i]).is_fit()
    }

    /// Whether the constraints of every node of the subtree can be met.
    pub open spec fn consistent(self) -> bool
        decreases self,
    {
        &&& reconcilable(self.sizing.width, self.min_width, self.max_width)
        &&& reconcilable(self.sizing.height, self.min_height, self.max_height)
        &&& forall|i: int| 0 <= i < self.children@.len() ==> (#[trigger] self.children@[i]).consistent()
    }

    /// Whether the extents of the container itself lie within its constraints.
    pub open spec fn within(self) -> bool {
        &&& between(self.width as int, self.min_width, self.max_width)
        &&& between(self.height as int, self.min_height, self.max_height)
    }

    /// Whether every node of the subtree lies within its constraints.
    pub open spec fn all_within(self) -> bool
        decreases self,
    {
        &&& self.within()
        &&& forall|i: int| 0 <= i < self.children@.len() ==> (#[trigger] self.children@[i]).all_within()
    }

    /// After the fit pass every node has exactly the box of its content, as
    /// far as its policy allows: the fixed extent where the mode is fixed, the
    /// box held to the constraints where it is not.
    pub proof fn lemma_fitted_is_fit(self, post: Rectangle)
        requires
            self.fitted(post),
        ensures
            post.is_fit(),
        decreases self,
    {
        assert forall|i: int| 0 <= i < post.children@.len() implies (#[trigger] post.children@[i]).is_fit() by {
            assert(self.children@[i].fitted(post.children@[i]));
            match self.children@[i] {
                Primative::Leaf(_) => {},
                Primative::Container(rect) => {
                    rect.lemma_fitted_is_fit(post.children@[i]->Container_0);
                },
            }
        }
        assert(post.child_extents_along(Axis::Horizontal) =~= self.child_fit_extents(Axis::Horizontal)) by {
            assert forall|i: int| 0 <= i < self.children@.len() implies post.children@[i].extent(Axis::Horizontal)
                == self.children@[i].fit_extent(Axis::Horizontal) by {
                assert(self.children@[i].fitted(post.children@[i]));
            }
        }
        assert(post.child_extents_along(Axis::Vertical) =~= self.child_fit_extents(Axis::Vertical)) by {
            assert forall|i: int| 0 <= i < self.children@.len() implies post.children@[i].extent(Axis::Vertical)
                == self.children@[i].fit_extent(Axis::Vertical) by {
                assert(self.children@[i].fitted(post.children@[i]));
            }
        }
        assert(post.content_box(Axis::Horizontal) == self.content_extent(Axis::Horizontal));
        assert(post.content_box(Axis::Vertical) == self.content_extent(Axis::Vertical));
    }

    /// A container that fits or grows along an axis, and whose content box
    /// lies within its constraints there, has after the fit pass exactly that
    /// box: its extent is the least that holds its children, the gaps and the
    /// padding.
    pub proof fn lemma_fit_is_minimal(self, post: Rectangle, axis: Axis)
        requires
            self.fitted(post),
            !(post.sizing.along(axis) is Fixed),
            between(post.content_box(axis), post.floor(axis), post.ceiling(axis)),
        ensures
            post.extent(axis) == post.content_box(axis),
    {
        self.lemma_fitted_is_fit(post);
        assert(post.hugs_content(axis));
    }

    /// After the fit pass every node lies within its constraints, where the
    /// constraints of every node can be met.
    pub proof fn lemma_fitted_is_within(self, post: Rectangle)
        requires
            self.fitted(post),
            self.consistent(),
        ensures
            post.all_within(),
        decreases self,
    {
        assert forall|i: int| 0 <= i < post.children@.len() implies (#[trigger] post.children@[i]).all_within() by {
            assert(self.children@[i].fitted(post.children@[i]));
            assert(self.children@[i].consistent());
            match self.children@[i] {
                Primative::Leaf(_) => {},
                Primative::Container(rect) => {
                    rect.lemma_fitted_is_within(post.children@[i]->Container_0);
                },
            }
        }
        lemma_clamped_is_between(self.content_extent(Axis::Horizontal), self.min_width, self.max_width);
        lemma_clamped_is_between(self.content_extent(Axis::Vertical), self.min_height, self.max_height);
    }
}

/// A content extent held to constraints that can be met lies within them.
pub proof fn lemma_clamped_is_between(content: int, min: i32, max: Option<i32>)
    requires
        max matches Some(ceiling) ==> min <= ceiling,
    ensures
        between(clamped(content, min, max), min, max),
{
}

} // verus!
