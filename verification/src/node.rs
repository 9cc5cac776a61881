//! The nodes of a layout tree: leaves, and containers that stack children.

use vstd::prelude::*;
use crate::sizing::Axis;
use crate::sizing::LayoutMode;
use crate::sizing::Sizing;
use crate::sizing::SizingMode;

verus! {

/// The colour type of `tinycolors`. The layout never looks inside a colour; it
/// carries it from a node to what is drawn for the node.
#[verifier::external_type_specification]
#[verifier::external_body]
pub struct ExSrgb(tinycolors::srgb);

/// `srgb::default()`: the colour of a node that was given none.
#[verifier::external_body]
pub(crate) fn default_color() -> tinycolors::srgb {
    tinycolors::srgb::default()
}

/// A node without children and without a sizing policy: in the fit pass it
/// adopts its minimum on both axes, and it never grows.
#[derive(Debug)]
pub struct Leaf {
    /// The resolved extents; the passes set them.
    pub width: i32,
    pub height: i32,
    /// The least extents.
    pub min_width: i32,
    pub min_height: i32,
    /// The largest extents, where there are any.
    pub max_width: Option<i32>,
    pub max_height: Option<i32>,
    /// The top-left corner; the position pass sets it.
    pub position: (i32, i32),
    pub color: tinycolors::srgb,
}

/// A container: a rectangle that stacks its children along its main axis,
/// inside a uniform padding and with a uniform gap between neighbours.
#[derive(Debug)]
pub struct Rectangle {
    /// The resolved extents; the passes set them.
    pub width: i32,
    pub height: i32,
    /// The least extents.
    pub min_width: i32,
    pub min_height: i32,
    /// The largest extents, where there are any.
    pub max_width: Option<i32>,
    pub max_height: Option<i32>,
    /// The top-left corner; the position pass sets it in every node but the
    /// root.
    pub position: (i32, i32),
    /// The direction in which the children are stacked.
    pub layout_mode: LayoutMode,
    /// How the container picks its own extents.
    pub sizing: Sizing,
    /// The inset of the children on all four sides.
    pub padding: i32,
    /// The space between neighbouring children along the main axis.
    pub child_gap: i32,
    pub color: tinycolors::srgb,
    /// The children, in the order in which they are stacked and painted.
    pub children: Vec<Primative>,
}

/// A node as its parent sees it: something with an extent and a position that
/// is either a leaf or a container in its own right.
#[derive(Debug)]
pub enum Primative {
    Leaf(Leaf),
    Container(Rectangle),
}

impl Default for Leaf {
    /// A leaf of no extent at the origin, without constraints.
    fn default() -> (leaf: Leaf)
        ensures
            leaf.width == 0,
            leaf.height == 0,
            leaf.min_width == 0,
            leaf.min_height == 0,
            leaf.max_width is None,
            leaf.max_height is None,
            leaf.position == (0i32, 0i32),
    {
        Leaf {
            width: 0,
            height: 0,
            min_width: 0,
            min_height: 0,
            max_width: None,
            max_height: None,
            position: (0, 0),
            color: default_color(),
        }
    }
}

impl Default for Rectangle {
    /// An empty container of no extent at the origin: fit on both axes, left
    /// to right, without padding, gap or constraints.
    fn default() -> (rect: Rectangle)
        ensures
            rect.width == 0,
            rect.height == 0,
            rect.min_width == 0,
            rect.min_height == 0,
            rect.max_width is None,
            rect.max_height is None,
            rect.position == (0i32, 0i32),
            rect.layout_mode == LayoutMode::LeftToRight,
            rect.sizing == (Sizing { width: SizingMode::Fit, height: SizingMode::Fit }),
            rect.padding == 0,
            rect.child_gap == 0,
            rect.children@.len() == 0,
    {
        Rectangle {
            width: 0,
            height: 0,
            min_width: 0,
            min_height: 0,
            max_width: None,
            max_height: None,
            position: (0, 0),
            layout_mode: LayoutMode::LeftToRight,
            sizing: Sizing::fit(),
            padding: 0,
            child_gap: 0,
            color: default_color(),
            children: Vec::new(),
        }
    }
}

impl Leaf {
    /// The extent along `axis`.
    pub open spec fn extent(self, axis: Axis) -> i32 {
        match axis {
            Axis::Horizontal => self.width,
            Axis::Vertical => self.height,
        }
    }

    /// The minimum along `axis`.
    pub open spec fn floor(self, axis: Axis) -> i32 {
        match axis {
            Axis::Horizontal => self.min_width,
            Axis::Vertical => self.min_height,
        }
    }

    /// The maximum along `axis`, if one is set.
    pub open spec fn ceiling(self, axis: Axis) -> Option<i32> {
        match axis {
            Axis::Horizontal => self.max_width,
            Axis::Vertical => self.max_height,
        }
    }

    /// `self` with the given extents and everything else as before.
    pub open spec fn resized(self, width: i32, height: i32) -> Leaf {
        Leaf { width, height, ..self }
    }

    /// `self` at the given position and everything else as before.
    pub open spec fn moved(self, position: (i32, i32)) -> Leaf {
        Leaf { position, ..self }
    }
}

impl Rectangle {
    /// The extent along `axis`.
    pub open spec fn extent(self, axis: Axis) -> i32 {
        match axis {
            Axis::Horizontal => self.width,
            Axis::Vertical => self.height,
        }
    }

    /// The minimum along `axis`.
    pub open spec fn floor(self, axis: Axis) -> i32 {
        match axis {
            Axis::Horizontal => self.min_width,
            Axis::Vertical => self.min_height,
        }
    }

    /// The maximum along `axis`, if one is set.
    pub open spec fn ceiling(self, axis: Axis) -> Option<i32> {
        match axis {
            Axis::Horizontal => self.max_width,
            Axis::Vertical => self.max_height,
        }
    }

    /// The axis along which the children are stacked.
    pub open spec fn main_dir(self) -> Axis {
        self.layout_mode.main_dir()
    }

    /// The axis across which the children are stretched.
    pub open spec fn cross_dir(self) -> Axis {
        self.layout_mode.main_dir().flipped()
    }

    /// Whether `other` has the sizing policy, the constraints, the stacking,
    /// the colour and the number of children of `self`: all that no pass
    /// changes in a node itself.
    pub open spec fn same_policy(self, other: Rectangle) -> bool {
        &&& other.min_width == self.min_width
        &&& other.min_height == self.min_height
        &&& other.max_width == self.max_width
        &&& other.max_height == self.max_height
        &&& other.layout_mode == self.layout_mode
        &&& other.sizing == self.sizing
        &&& other.padding == self.padding
        &&& other.child_gap == self.child_gap
        &&& other.color == self.color
        &&& other.children@.len() == self.children@.len()
    }
}

impl Primative {
    /// The extent along `axis`.
    pub open spec fn extent(self, axis: Axis) -> i32 {
        match self {
            Primative::Leaf(leaf) => leaf.extent(axis),
            Primative::Container(rect) => rect.extent(axis),
        }
    }

    /// The minimum along `axis`.
    pub open spec fn floor(self, axis: Axis) -> i32 {
        match self {
            Primative::Leaf(leaf) => leaf.floor(axis),
            Primative::Container(rect) => rect.floor(axis),
        }
    }

    /// The maximum along `axis`, if one is set.
    pub open spec fn ceiling(self, axis: Axis) -> Option<i32> {
        match self {
            Primative::Leaf(leaf) => leaf.ceiling(axis),
            Primative::Container(rect) => rect.ceiling(axis),
        }
    }

    /// The top-left corner.
    pub open spec fn origin(self) -> (i32, i32) {
        match self {
            Primative::Leaf(leaf) => leaf.position,
            Primative::Container(rect) => rect.position,
        }
    }

    /// Whether the node claims leftover space along `axis`: a container whose
    /// sizing mode there is `Grow`.
    pub open spec fn grows(self, axis: Axis) -> bool {
        match self {
            Primative::Leaf(_) => false,
            Primative::Container(rect) => rect.sizing.along(axis) == SizingMode::Grow,
        }
    }

    /// Whether the node claims leftover space along `axis`.
    pub fn grows_along(&self, axis: Axis) -> (grows: bool)
        ensures
            grows == self.grows(axis),
    {
        match self {
            Primative::Leaf(_) => false,
            Primative::Container(rect) => match rect.sizing.mode(axis) {
                SizingMode::Grow => true,
                _ => false,
            },
        }
    }

    /// The extent along `axis`.
    pub fn get_size_along_axis(&self, axis: Axis) -> (size: i32)
        ensures
            size == self.extent(axis),
    {
        match self {
            Primative::Leaf(leaf) => match axis {
                Axis::Horizontal => leaf.width,
                Axis::Vertical => leaf.height,
            },
            Primative::Container(rect) => match axis {
                Axis::Horizontal => rect.width,
                Axis::Vertical => rect.height,
            },
        }
    }
}

impl Primative {
    /// The minimum along `axis`.
    pub fn get_min_along_axis(&self, axis: Axis) -> (min: i32)
        ensures
            min == self.floor(axis),
    {
        match self {
            Primative::Leaf(leaf) => match axis {
                Axis::Horizontal => leaf.min_width,
                Axis::Vertical => leaf.min_height,
            },
            Primative::Container(rect) => match axis {
                Axis::Horizontal => rect.min_width,
                Axis::Vertical => rect.min_height,
            },
        }
    }

    /// The maximum along `axis`, if one is set.
    pub fn get_max_along_axis(&self, axis: Axis) -> (max: Option<i32>)
        ensures
            max == self.ceiling(axis),
    {
        match self {
            Primative::Leaf(leaf) => match axis {
                Axis::Horizontal => leaf.max_width,
                Axis::Vertical => leaf.max_height,
            },
            Primative::Container(rect) => match axis {
                Axis::Horizontal => rect.max_width,
                Axis::Vertical => rect.max_height,
            },
        }
    }
}

impl Leaf {
    /// Whether `other` has the constraints and the colour of `self`: all that
    /// no pass changes in a leaf.
    pub open spec fn same_policy(self, other: Leaf) -> bool {
        &&& other.min_width == self.min_width
        &&& other.min_height == self.min_height
        &&& other.max_width == self.max_width
        &&& other.max_height == self.max_height
        &&& other.color == self.color
    }
}

impl Primative {
    /// Whether `other` is the tree of `self` but for extents and positions:
    /// node for node of the same kind and with the same policy.
    pub open spec fn same_tree(self, other: Primative) -> bool
        decreases self,
    {
        match self {
            Primative::Leaf(leaf) => other matches Primative::Leaf(after) && leaf.same_policy(after),
            Primative::Container(rect) => other matches Primative::Container(after) && rect.same_tree(after),
        }
    }

    /// Every tree is its own tree.
    pub proof fn lemma_same_tree_reflexive(self)
        ensures
            self.same_tree(self),
        decreases self,
    {
        match self {
            Primative::Leaf(_) => {},
            Primative::Container(rect) => {
                rect.lemma_same_tree_reflexive();
            },
        }
    }

    /// What is the same tree as the same tree is the same tree.
    pub proof fn lemma_same_tree_transitive(self, second: Primative, third: Primative)
        requires
            self.same_tree(second),
            second.same_tree(third),
        ensures
            self.same_tree(third),
        decreases self,
    {
        match self {
            Primative::Leaf(_) => {},
            Primative::Container(rect) => {
                rect.lemma_same_tree_transitive(second->Container_0, third->Container_0);
            },
        }
    }
}

impl Rectangle {
    /// Whether `other` is the tree of `self` but for extents and positions:
    /// node for node of the same kind and with the same policy. No pass
    /// inserts or removes a node or changes a policy.
    pub open spec fn same_tree(self, other: Rectangle) -> bool
        decreases self,
    {
        &&& self.same_policy(other)
        &&& forall|i: int|
            0 <= i < self.children@.len() ==> (#[trigger] self.children@[i]).same_tree(other.children@[i])
    }

    /// Every tree is its own tree.
    pub proof fn lemma_same_tree_reflexive(self)
        ensures
            self.same_tree(self),
        decreases self,
    {
        assert forall|i: int| 0 <= i < self.children@.len() implies (#[trigger] self.children@[i]).same_tree(
            self.children@[i],
        ) by {
            self.children@[i].lemma_same_tree_reflexive();
        }
    }

    /// What is the same tree as the same tree is the same tree.
    pub proof fn lemma_same_tree_transitive(self, second: Rectangle, third: Rectangle)
        requires
            self.same_tree(second),
            second.same_tree(third),
        ensures
            self.same_tree(third),
        decreases self,
    {
        assert forall|i: int| 0 <= i < self.children@.len() implies (#[trigger] self.children@[i]).same_tree(
            third.children@[i],
        ) by {
            assert(self.children@[i].same_tree(second.children@[i]));
            assert(second.children@[i].same_tree(third.children@[i]));
            self.children@[i].lemma_same_tree_transitive(second.children@[i], third.children@[i]);
        }
    }

    /// A tree whose children are, from `from` on, those of `self` and before
    /// that the same trees as those of `self`, and whose policy is that of
    /// `self`, is the same tree as `self`.
    pub proof fn lemma_same_tree_so_far(self, other: Rectangle, from: int)
        requires
            self.same_policy(other),
            forall|j: int| 0 <= j < from && j < self.children@.len() ==> (#[trigger] self.children@[j]).same_tree(
                other.children@[j],
            ),
            forall|j: int| from <= j < self.children@.len() ==> other.children@[j] == self.children@[j],
        ensures
            self.same_tree(other),
    {
        assert forall|i: int| 0 <= i < self.children@.len() implies (#[trigger] self.children@[i]).same_tree(
            other.children@[i],
        ) by {
            if i >= from {
                self.children@[i].lemma_same_tree_reflexive();
            }
        }
    }
}

} // verus!
