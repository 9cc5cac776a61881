//! Sizing primitives: the two axes, the per-axis sizing policy of a node and
//! the stacking direction of a container.

use vstd::prelude::*;

verus! {

/// One of the two directions of the plane.
#[derive(Debug, Clone, Copy, PartialEq, Eq, Structural)]
pub enum Axis {
    Horizontal,
    Vertical,
}

impl Axis {
    /// The axis orthogonal to `self`.
    pub open spec fn flipped(self) -> Axis {
        match self {
            Axis::Horizontal => Axis::Vertical,
            Axis::Vertical => Axis::Horizontal,
        }
    }

    /// Flipping twice gives the axis back.
    pub proof fn lemma_flip_involution(self)
        ensures
            self.flipped().flipped() == self,
            self.flipped() != self,
    {
    }
}

impl std::ops::Not for Axis {
    type Output = Axis;

    /// The axis orthogonal to `self`.
    fn not(self) -> (r: Axis) {
        match self {
            Axis::Horizontal => Axis::Vertical,
            Axis::Vertical => Axis::Horizontal,
        }
    }
}

impl vstd::std_specs::ops::NotSpecImpl for Axis {
    open spec fn obeys_not_spec() -> bool {
        true
    }

    open spec fn not_req(self) -> bool {
        true
    }

    open spec fn not_spec(self) -> Axis {
        self.flipped()
    }
}

/// How a node picks its extent along one axis.
#[derive(Debug, Clone, Copy, PartialEq, Eq, Structural)]
pub enum SizingMode {
    /// The extent is frozen at the given value.
    Fixed(i32),
    /// The extent is the minimum that holds the content.
    Fit,
    /// The extent starts at the content minimum and claims leftover space.
    Grow,
}

impl Default for SizingMode {
    /// `Fit`.
    fn default() -> (r: SizingMode)
        ensures
            r == SizingMode::Fit,
    {
        SizingMode::Fit
    }
}

/// The sizing policy of a node, one mode per axis.
#[derive(Debug, Clone, Copy, PartialEq, Eq, Structural)]
pub struct Sizing {
    pub width: SizingMode,
    pub height: SizingMode,
}

impl Sizing {
    /// Fit on both axes.
    pub fn fit() -> (r: Sizing)
        ensures
            r == (Sizing { width: SizingMode::Fit, height: SizingMode::Fit }),
    {
        Sizing { width: SizingMode::Fit, height: SizingMode::Fit }
    }

    /// Grow on both axes.
    pub fn grow() -> (r: Sizing)
        ensures
            r == (Sizing { width: SizingMode::Grow, height: SizingMode::Grow }),
    {
        Sizing { width: SizingMode::Grow, height: SizingMode::Grow }
    }

    /// The mode along `axis`.
    pub open spec fn along(self, axis: Axis) -> SizingMode {
        match axis {
            Axis::Horizontal => self.width,
            Axis::Vertical => self.height,
        }
    }

    /// The mode along `axis`.
    pub fn mode(&self, axis: Axis) -> (m: SizingMode)
        ensures
            m == self.along(axis),
    {
        match axis {
            Axis::Horizontal => self.width,
            Axis::Vertical => self.height,
        }
    }
}

impl Default for Sizing {
    /// Fit on both axes.
    fn default() -> (r: Sizing)
        ensures
            r == (Sizing { width: SizingMode::Fit, height: SizingMode::Fit }),
    {
        Sizing::fit()
    }
}

/// The direction in which a container stacks its children.
#[derive(Debug, Clone, Copy, PartialEq, Eq, Structural)]
pub enum LayoutMode {
    TopToBottom,
    LeftToRight,
}

impl LayoutMode {
    /// The axis along which children are stacked.
    pub open spec fn main_dir(self) -> Axis {
        match self {
            LayoutMode::TopToBottom => Axis::Vertical,
            LayoutMode::LeftToRight => Axis::Horizontal,
        }
    }

    /// The axis along which children are stacked.
    pub fn main_axis(&self) -> (axis: Axis)
        ensures
            axis == self.main_dir(),
    {
        match self {
            LayoutMode::TopToBottom => Axis::Vertical,
            LayoutMode::LeftToRight => Axis::Horizontal,
        }
    }
}

impl Default for LayoutMode {
    /// `LeftToRight`.
    fn default() -> (r: LayoutMode)
        ensures
            r == LayoutMode::LeftToRight,
    {
        LayoutMode::LeftToRight
    }
}

} // verus!
