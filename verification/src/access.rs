//! Reading and setting the extents, the constraints and the position of a
//! node, by name or along an axis.

use vstd::prelude::*;
use crate::node::Leaf;
use crate::node::Primative;
use crate::node::Rectangle;
use crate::sizing::Axis;
use crate::sizing::Sizing;
use crate::sizing::SizingMode;

verus! {

impl Leaf {
    /// `self` with the extent along `axis` replaced.
    pub open spec fn with_extent(self, axis: Axis, size: i32) -> Leaf {
        match axis {
            Axis::Horizontal => Leaf { width: size, ..self },
            Axis::Vertical => Leaf { height: size, ..self },
        }
    }

    /// `self` with the minimum along `axis` replaced.
    pub open spec fn with_floor(self, axis: Axis, min: i32) -> Leaf {
        match axis {
            Axis::Horizontal => Leaf { min_width: min, ..self },
            Axis::Vertical => Leaf { min_height: min, ..self },
        }
    }

    /// `self` with the maximum along `axis` replaced.
    pub open spec fn with_ceiling(self, axis: Axis, max: Option<i32>) -> Leaf {
        match axis {
            Axis::Horizontal => Leaf { max_width: max, ..self },
            Axis::Vertical => Leaf { max_height: max, ..self },
        }
    }
}

impl Rectangle {
    /// `self` with the extent along `axis` replaced.
    pub open spec fn with_extent(self, axis: Axis, size: i32) -> Rectangle {
        match axis {
            Axis::Horizontal => Rectangle { width: size, ..self },
            Axis::Vertical => Rectangle { height: size, ..self },
        }
    }

    /// `self` with the minimum along `axis` replaced.
    pub open spec fn with_floor(self, axis: Axis, min: i32) -> Rectangle {
        match axis {
            Axis::Horizontal => Rectangle { min_width: min, ..self },
            Axis::Vertical => Rectangle { min_height: min, ..self },
        }
    }

    /// `self` with the maximum along `axis` replaced.
    pub open spec fn with_ceiling(self, axis: Axis, max: Option<i32>) -> Rectangle {
        match axis {
            Axis::Horizontal => Rectangle { max_width: max, ..self },
            Axis::Vertical => Rectangle { max_height: max, ..self },
        }
    }

    /// `self` at the given position and everything else as before.
    pub open spec fn moved(self, position: (i32, i32)) -> Rectangle {
        Rectangle { position, ..self }
    }

    /// The width.
    pub fn get_width(&self) -> (value: i32)
        ensures
            value == self.extent(Axis::Horizontal),
    {
        self.width
    }

    /// The minimum width.
    pub fn get_min_width(&self) -> (value: i32)
        ensures
            value == self.floor(Axis::Horizontal),
    {
        self.min_width
    }

    /// The maximum width, if one is set.
    pub fn get_max_width(&self) -> (value: Option<i32>)
        ensures
            value == self.ceiling(Axis::Horizontal),
    {
        self.max_width
    }

    /// Sets the width.
    pub fn set_width(&mut self, value: i32)
        ensures
            *final(self) == old(self).with_extent(Axis::Horizontal, value),
    {
        self.width = value;
    }

    /// Sets the minimum width.
    pub fn set_min_width(&mut self, value: i32)
        ensures
            *final(self) == old(self).with_floor(Axis::Horizontal, value),
    {
        self.min_width = value;
    }

    /// Sets or clears the maximum width.
    pub fn set_max_width(&mut self, value: Option<i32>)
        ensures
            *final(self) == old(self).with_ceiling(Axis::Horizontal, value),
    {
        self.max_width = value;
    }

    /// The height.
    pub fn get_height(&self) -> (value: i32)
        ensures
            value == self.extent(Axis::Vertical),
    {
        self.height
    }

    /// The minimum height.
    pub fn get_min_height(&self) -> (value: i32)
        ensures
            value == self.floor(Axis::Vertical),
    {
        self.min_height
    }

    /// The maximum height, if one is set.
    pub fn get_max_height(&self) -> (value: Option<i32>)
        ensures
            value == self.ceiling(Axis::Vertical),
    {
        self.max_height
    }

    /// Sets the height.
    pub fn set_height(&mut self, value: i32)
        ensures
            *final(self) == old(self).with_extent(Axis::Vertical, value),
    {
        self.height = value;
    }

    /// Sets the minimum height.
    pub fn set_min_height(&mut self, value: i32)
        ensures
            *final(self) == old(self).with_floor(Axis::Vertical, value),
    {
        self.min_height = value;
    }

    /// Sets or clears the maximum height.
    pub fn set_max_height(&mut self, value: Option<i32>)
        ensures
            *final(self) == old(self).with_ceiling(Axis::Vertical, value),
    {
        self.max_height = value;
    }

    /// The extent along `axis`.
    pub fn get_size_along_axis(&self, axis: Axis) -> (size: i32)
        ensures
            size == self.extent(axis),
    {
        match axis {
            Axis::Horizontal => self.width,
            Axis::Vertical => self.height,
        }
    }

    /// Sets the extent along `axis`.
    pub fn set_size_along_axis(&mut self, axis: Axis, size: i32)
        ensures
            *final(self) == old(self).with_extent(axis, size),
    {
        match axis {
            Axis::Horizontal => {
                self.width = size;
            },
            Axis::Vertical => {
                self.height = size;
            },
        }
    }

    /// The minimum along `axis`.
    pub fn get_min_along_axis(&self, axis: Axis) -> (min: i32)
        ensures
            min == self.floor(axis),
    {
        match axis {
            Axis::Horizontal => self.min_width,
            Axis::Vertical => self.min_height,
        }
    }

    /// The maximum along `axis`, if one is set.
    pub fn get_max_along_axis(&self, axis: Axis) -> (max: Option<i32>)
        ensures
            max == self.ceiling(axis),
    {
        match axis {
            Axis::Horizontal => self.max_width,
            Axis::Vertical => self.max_height,
        }
    }

    /// The top-left corner.
    pub fn get_position(&self) -> (position: (i32, i32))
        ensures
            position == self.position,
    {
        self.position
    }

    /// Moves the top-left corner.
    pub fn set_position(&mut self, position: (i32, i32))
        ensures
            *final(self) == old(self).moved(position),
    {
        self.position = position;
    }

    /// The sizing policy.
    pub fn get_sizing(&self) -> (sizing: &Sizing)
        ensures
            *sizing == self.sizing,
    {
        &self.sizing
    }

    /// The sizing mode along `axis`.
    pub fn get_sizing_along_axis(&self, axis: Axis) -> (mode: &SizingMode)
        ensures
            *mode == self.sizing.along(axis),
    {
        match axis {
            Axis::Horizontal => &self.sizing.width,
            Axis::Vertical => &self.sizing.height,
        }
    }
}

impl Primative {
    /// `self` with the extent along `axis` replaced.
    pub open spec fn with_extent(self, axis: Axis, size: i32) -> Primative {
        match self {
            Primative::Leaf(leaf) => Primative::Leaf(leaf.with_extent(axis, size)),
            Primative::Container(rect) => Primative::Container(rect.with_extent(axis, size)),
        }
    }

    /// `self` with the minimum along `axis` replaced.
    pub open spec fn with_floor(self, axis: Axis, min: i32) -> Primative {
        match self {
            Primative::Leaf(leaf) => Primative::Leaf(leaf.with_floor(axis, min)),
            Primative::Container(rect) => Primative::Container(rect.with_floor(axis, min)),
        }
    }

    /// `self` with the maximum along `axis` replaced.
    pub open spec fn with_ceiling(self, axis: Axis, max: Option<i32>) -> Primative {
        match self {
            Primative::Leaf(leaf) => Primative::Leaf(leaf.with_ceiling(axis, max)),
            Primative::Container(rect) => Primative::Container(rect.with_ceiling(axis, max)),
        }
    }

    /// `self` at the given position and everything else as before.
    pub open spec fn moved(self, position: (i32, i32)) -> Primative {
        match self {
            Primative::Leaf(leaf) => Primative::Leaf(leaf.moved(position)),
            Primative::Container(rect) => Primative::Container(rect.moved(position)),
        }
    }

    /// The width.
    pub fn get_width(&self) -> (value: i32)
        ensures
            value == self.extent(Axis::Horizontal),
    {
        self.get_size_along_axis(Axis::Horizontal)
    }

    /// The minimum width.
    pub fn get_min_width(&self) -> (value: i32)
        ensures
            value == self.floor(Axis::Horizontal),
    {
        self.get_min_along_axis(Axis::Horizontal)
    }

    /// The maximum width, if one is set.
    pub fn get_max_width(&self) -> (value: Option<i32>)
        ensures
            value == self.ceiling(Axis::Horizontal),
    {
        self.get_max_along_axis(Axis::Horizontal)
    }

    /// Sets the width.
    pub fn set_width(&mut self, value: i32)
        ensures
            *final(self) == old(self).with_extent(Axis::Horizontal, value),
    {
        self.set_size_along_axis(Axis::Horizontal, value);
    }

    /// Sets the minimum width.
    pub fn set_min_width(&mut self, value: i32)
        ensures
            *final(self) == old(self).with_floor(Axis::Horizontal, value),
    {
        self.set_min_along_axis(Axis::Horizontal, value);
    }

    /// Sets or clears the maximum width.
    pub fn set_max_width(&mut self, value: Option<i32>)
        ensures
            *final(self) == old(self).with_ceiling(Axis::Horizontal, value),
    {
        self.set_max_along_axis(Axis::Horizontal, value);
    }

    /// The height.
    pub fn get_height(&self) -> (value: i32)
        ensures
            value == self.extent(Axis::Vertical),
    {
        self.get_size_along_axis(Axis::Vertical)
    }

    /// The minimum height.
    pub fn get_min_height(&self) -> (value: i32)
        ensures
            value == self.floor(Axis::Vertical),
    {
        self.get_min_along_axis(Axis::Vertical)
    }

    /// The maximum height, if one is set.
    pub fn get_max_height(&self) -> (value: Option<i32>)
        ensures
            value == self.ceiling(Axis::Vertical),
    {
        self.get_max_along_axis(Axis::Vertical)
    }

    /// Sets the height.
    pub fn set_height(&mut self, value: i32)
        ensures
            *final(self) == old(self).with_extent(Axis::Vertical, value),
    {
        self.set_size_along_axis(Axis::Vertical, value);
    }

    /// Sets the minimum height.
    pub fn set_min_height(&mut self, value: i32)
        ensures
            *final(self) == old(self).with_floor(Axis::Vertical, value),
    {
        self.set_min_along_axis(Axis::Vertical, value);
    }

    /// Sets or clears the maximum height.
    pub fn set_max_height(&mut self, value: Option<i32>)
        ensures
            *final(self) == old(self).with_ceiling(Axis::Vertical, value),
    {
        self.set_max_along_axis(Axis::Vertical, value);
    }

    /// Sets the extent along `axis`.
    pub fn set_size_along_axis(&mut self, axis: Axis, value: i32)
        ensures
            *final(self) == old(self).with_extent(axis, value),
    {
        match self {
            Primative::Leaf(leaf) => match axis {
                Axis::Horizontal => {
                    leaf.width = value;
                },
                Axis::Vertical => {
                    leaf.height = value;
                },
            },
            Primative::Container(rect) => match axis {
                Axis::Horizontal => {
                    rect.width = value;
                },
                Axis::Vertical => {
                    rect.height = value;
                },
            },
        }
    }

    /// Sets the minimum along `axis`.
    pub fn set_min_along_axis(&mut self, axis: Axis, value: i32)
        ensures
            *final(self) == old(self).with_floor(axis, value),
    {
        match self {
            Primative::Leaf(leaf) => match axis {
                Axis::Horizontal => {
                    leaf.min_width = value;
                },
                Axis::Vertical => {
                    leaf.min_height = value;
                },
            },
            Primative::Container(rect) => match axis {
                Axis::Horizontal => {
                    rect.min_width = value;
                },
                Axis::Vertical => {
                    rect.min_height = value;
                },
            },
        }
    }

    /// Sets or clears the maximum along `axis`.
    pub fn set_max_along_axis(&mut self, axis: Axis, value: Option<i32>)
        ensures
            *final(self) == old(self).with_ceiling(axis, value),
    {
        match self {
            Primative::Leaf(leaf) => match axis {
                Axis::Horizontal => {
                    leaf.max_width = value;
                },
                Axis::Vertical => {
                    leaf.max_height = value;
                },
            },
            Primative::Container(rect) => match axis {
                Axis::Horizontal => {
                    rect.max_width = value;
                },
                Axis::Vertical => {
                    rect.max_height = value;
                },
            },
        }
    }

    /// The top-left corner.
    pub fn get_position(&self) -> (position: (i32, i32))
        ensures
            position == self.origin(),
    {
        match self {
            Primative::Leaf(leaf) => leaf.position,
            Primative::Container(rect) => rect.position,
        }
    }

    /// Moves the top-left corner.
    pub fn set_position(&mut self, position: (i32, i32))
        ensures
            *final(self) == old(self).moved(position),
    {
        match self {
            Primative::Leaf(leaf) => {
                leaf.position = position;
            },
            Primative::Container(rect) => {
                rect.position = position;
            },
        }
    }
}

} // verus!
