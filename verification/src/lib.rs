//! A retained-tree layout engine: sizing policies in, absolute rectangles out.
//!
//! A tree of nodes, each with a sizing mode per axis, constraints, a padding,
//! a gap and a stacking direction, is turned into a width, a height and a
//! position for every node, in three passes:
//!
//! - [`fit`]: bottom-up, every node takes the least extent that holds its
//!   content;
//! - [`grow`]: top-down, every container hands its leftover space to its
//!   growing children, by the water-filling of [`fill`];
//! - [`place`]: top-down, every container lines its children up.
//!
//! [`ui`] runs the three on a tree in a viewport, and [`layout`] states what
//! comes of that. [`draw`] lists the rectangles in painting order.
//!
//! All sizes and coordinates are `i32`. A pass that would have to store a
//! value beyond that fails with [`error::LayoutError::Overflow`] and does so
//! on exactly those inputs; no pass panics.

pub mod access;
pub mod bytes;
pub mod draw;
pub mod error;
pub mod fill;
pub mod fill_lemmas;
pub mod fit;
pub mod fit_lemmas;
pub mod grow;
pub mod grow_lemmas;
pub mod layout;
pub mod layout_lemmas;
pub mod node;
pub mod place;
pub mod place_lemmas;
pub mod sizing;
pub mod ui;
