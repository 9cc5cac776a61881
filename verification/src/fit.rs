//! The fit pass: bottom-up, every node takes the least extent that holds its
//! content, as far as its sizing mode and its constraints allow.

use vstd::prelude::*;
use crate::error::LayoutError;
use crate::node::Primative;
use crate::node::Rectangle;
use crate::sizing::Axis;
use crate::sizing::SizingMode;

verus! {

/// The sum of a sequence of extents.
pub open spec fn extent_sum(extents: Seq<int>) -> int
    decreases extents.len(),
{
    if extents.len() == 0 {
        0
    } else {
        extent_sum(extents.drop_last()) + extents.last()
    }
}

/// The largest of a sequence of extents, and 0 where none is positive.
pub open spec fn extent_peak(extents: Seq<int>) -> int
    decreases extents.len(),
{
    if extents.len() == 0 {
        0
    } else {
        let rest = extent_peak(extents.drop_last());
        if extents.last() > rest {
            extents.last()
        } else {
            rest
        }
    }
}

/// `content` held to the floor `min` and then, where one is set, to the
/// ceiling `max`.
pub open spec fn clamped(content: int, min: i32, max: Option<i32>) -> int {
    let floored = if content < min {
        min as int
    } else {
        content
    };
    match max {
        Some(ceiling) => if floored > ceiling {
            ceiling as int
        } else {
            floored
        },
        None => floored,
    }
}

/// The extent that a sizing mode makes of a content extent: the fixed value,
/// or the content held to the constraints.
pub open spec fn resolved(mode: SizingMode, content: int, min: i32, max: Option<i32>) -> int {
    match mode {
        SizingMode::Fixed(value) => value as int,
        SizingMode::Fit => clamped(content, min, max),
        SizingMode::Grow => clamped(content, min, max),
    }
}

/// Whether an extent can be stored.
pub open spec fn storable(extent: int) -> bool {
    i32::MIN <= extent <= i32::MAX
}

impl Primative {
    /// The extent that the fit pass gives the node along `axis`.
    pub open spec fn fit_extent(self, axis: Axis) -> int
        decreases self, 0int,
    {
        match self {
            Primative::Leaf(leaf) => leaf.floor(axis) as int,
            Primative::Container(rect) => rect.fit_extent(axis),
        }
    }

    /// Whether the fit pass can store every extent in the subtree.
    pub open spec fn fit_fits(self) -> bool
        decreases self,
    {
        match self {
            Primative::Leaf(_) => true,
            Primative::Container(rect) => rect.fit_fits(),
        }
    }

    /// Whether `post` is `self` after the fit pass.
    pub open spec fn fitted(self, post: Primative) -> bool
        decreases self,
    {
        match self {
            Primative::Leaf(leaf) => post == Primative::Leaf(leaf.resized(leaf.min_width, leaf.min_height)),
            Primative::Container(rect) => post matches Primative::Container(after) && rect.fitted(after),
        }
    }
}

impl Rectangle {
    /// The extents that the fit pass gives the children along `axis`, in order.
    pub open spec fn child_fit_extents(self, axis: Axis) -> Seq<int>
        decreases self, 0int,
    {
        Seq::new(
            self.children@.len(),
            |i: int|
                if 0 <= i < self.children@.len() {
                    self.children@[i].fit_extent(axis)
                } else {
                    0
                },
        )
    }

    /// The least extent along `axis` that holds the content: along the main
    /// axis the children's extents and the gaps between them, across it the
    /// largest child, in both cases inside the padding.
    pub open spec fn content_extent(self, axis: Axis) -> int
        decreases self, 1int,
    {
        if axis == self.main_dir() {
            2 * self.padding + extent_sum(self.child_fit_extents(axis)) + self.child_gap * (if self.children@.len() == 0 {
                0
            } else {
                self.children@.len() - 1
            })
        } else {
            2 * self.padding + extent_peak(self.child_fit_extents(axis))
        }
    }

    /// The extent that the fit pass gives the container along `axis`.
    pub open spec fn fit_extent(self, axis: Axis) -> int
        decreases self, 2int,
    {
        resolved(self.sizing.along(axis), self.content_extent(axis), self.floor(axis), self.ceiling(axis))
    }

    /// Whether the fit pass can store every extent in the subtree.
    pub open spec fn fit_fits(self) -> bool
        decreases self,
    {
        &&& storable(self.fit_extent(Axis::Horizontal))
        &&& storable(self.fit_extent(Axis::Vertical))
        &&& forall|i: int| 0 <= i < self.children@.len() ==> (#[trigger] self.children@[i]).fit_fits()
    }

    /// Whether `post` is `self` after the fit pass: every node of the subtree
    /// has its fit extents, and nothing else has changed.
    pub open spec fn fitted(self, post: Rectangle) -> bool
        decreases self,
    {
        &&& self.same_policy(post)
        &&& post.position == self.position
        &&& post.width == self.fit_extent(Axis::Horizontal)
        &&& post.height == self.fit_extent(Axis::Vertical)
        &&& forall|i: int| 0 <= i < self.children@.len() ==> (#[trigger] self.children@[i]).fitted(post.children@[i])
    }
}

/// Taking one more extent adds it to the sum and holds it against the peak.
pub proof fn lemma_extent_take(extents: Seq<int>, i: int)
    requires
        0 <= i < extents.len(),
    ensures
        extent_sum(extents.take(i + 1)) == extent_sum(extents.take(i)) + extents[i],
        extent_peak(extents.take(i + 1)) == if extents[i] > extent_peak(extents.take(i)) {
            extents[i]
        } else {
            extent_peak(extents.take(i))
        },
{
    assert(extents.take(i + 1).drop_last() =~= extents.take(i));
}

/// The extent that a sizing mode makes of a content extent, where it can be
/// stored.
fn resolve_extent(mode: SizingMode, content: i128, min: i32, max: Option<i32>) -> (r: Result<
    i32,
    LayoutError,
>)
    ensures
        r is Ok <==> storable(resolved(mode, content as int, min, max)),
        r matches Ok(extent) ==> extent == resolved(mode, content as int, min, max),
{
    match mode {
        SizingMode::Fixed(value) => Ok(value),
        _ => {
            let floored: i128 = if content < min as i128 {
                min as i128
            } else {
                content
            };
            let held: i128 = match max {
                Some(ceiling) => if floored > ceiling as i128 {
                    ceiling as i128
                } else {
                    floored
                },
                None => floored,
            };
            if held > i32::MAX as i128 {
                Err(LayoutError::Overflow)
            } else {
                Ok(held as i32)
            }
        },
    }
}

impl Rectangle {
    /// The fit pass over the subtree, children first: a leaf adopts its
    /// minimum on both axes; a container takes, on each axis, its fixed extent
    /// or the extent of its content held to its constraints.
    ///
    /// Fails exactly where one of these extents does not fit in an `i32`; the
    /// subtree is then left partly fitted. Either way it is the same tree.
    pub fn fit_sizing(&mut self) -> (r: Result<(), LayoutError>)
        ensures
            r is Ok <==> old(self).fit_fits(),
            r is Ok ==> old(self).fitted(*final(self)),
            old(self).same_tree(*final(self)),
        decreases *old(self),
    {
        let main = self.layout_mode.main_axis();
        let cross = std::ops::Not::not(main);
        let n = self.children.len();
        let mut sum: i128 = 0;
        let mut peak: i32 = 0;
        let mut i: usize = 0;
        while i < n
            invariant
                i <= n,
                n == self.children@.len(),
                *self == (Rectangle { children: self.children, ..*old(self) }),
                old(self).same_policy(*self),
                main == old(self).main_dir(),
                cross == old(self).cross_dir(),
                forall|j: int| 0 <= j < i ==> (#[trigger] old(self).children@[j]).fitted(self.children@[j]),
                forall|j: int| 0 <= j < i ==> (#[trigger] old(self).children@[j]).fit_fits(),
                forall|j: int| 0 <= j < i ==> (#[trigger] old(self).children@[j]).same_tree(self.children@[j]),
                forall|j: int| i <= j < n ==> self.children@[j] == old(self).children@[j],
                sum == extent_sum(old(self).child_fit_extents(main).take(i as int)),
                peak == extent_peak(old(self).child_fit_extents(cross).take(i as int)),
                -0x8000_0000 * i <= sum <= 0x7fff_ffff * i,
            decreases n - i,
        {
            let ghost child = old(self).children@[i as int];
            assert(self.children@[i as int] == child);
            match &mut self.children[i] {
                Primative::Container(rect) => {
                    match rect.fit_sizing() {
                        Ok(()) => {},
                        Err(e) => {
                            proof {
                                assert(!child.fit_fits());
                                assert(child.same_tree(self.children@[i as int]));
                                old(self).lemma_same_tree_so_far(*self, i + 1);
                            }
                            return Err(e);
                        },
                    }
                },
                Primative::Leaf(leaf) => {
                    leaf.width = leaf.min_width;
                    leaf.height = leaf.min_height;
                },
            }
            assert(child.fitted(self.children@[i as int]));
            assert(child.fit_fits());
            assert(child.same_tree(self.children@[i as int]));
            let along = self.children[i].get_size_along_axis(main);
            let across = self.children[i].get_size_along_axis(cross);
            proof {
                assert(along == child.fit_extent(main));
                assert(across == child.fit_extent(cross));
                lemma_extent_take(old(self).child_fit_extents(main), i as int);
                lemma_extent_take(old(self).child_fit_extents(cross), i as int);
            }
            sum = sum + along as i128;
            if across > peak {
                peak = across;
            }
            i += 1;
        }
        proof {
            old(self).lemma_same_tree_so_far(*self, n as int);
            assert(old(self).child_fit_extents(main).take(n as int) =~= old(self).child_fit_extents(main));
            assert(old(self).child_fit_extents(cross).take(n as int) =~= old(self).child_fit_extents(cross));
        }
        let gaps: usize = if n == 0 {
            0
        } else {
            n - 1
        };
        assert(-0x8000_0000_0000_0000_0000_0000 <= (self.child_gap as int) * (gaps as int) <= 0x8000_0000_0000_0000_0000_0000)
            by (nonlinear_arith)
            requires
                -0x8000_0000 <= self.child_gap <= 0x7fff_ffff,
                0 <= gaps <= 0xffff_ffff_ffff_ffff,
        ;
        assert(-0x8000_0000_0000_0000_0000_0000 <= sum <= 0x8000_0000_0000_0000_0000_0000)
            by (nonlinear_arith)
            requires
                -0x8000_0000 * i <= sum <= 0x7fff_ffff * i,
                0 <= i <= 0xffff_ffff_ffff_ffff,
        ;
        let stacked: i128 = 2 * (self.padding as i128) + sum + (self.child_gap as i128) * (gaps as i128);
        let spanned: i128 = 2 * (self.padding as i128) + peak as i128;
        let (content_width, content_height) = match main {
            Axis::Horizontal => (stacked, spanned),
            Axis::Vertical => (spanned, stacked),
        };
        assert(content_width == old(self).content_extent(Axis::Horizontal));
        assert(content_height == old(self).content_extent(Axis::Vertical));
        let width = match resolve_extent(self.sizing.width, content_width, self.min_width, self.max_width) {
            Ok(extent) => extent,
            Err(e) => {
                return Err(e);
            },
        };
        let height = match resolve_extent(self.sizing.height, content_height, self.min_height, self.max_height) {
            Ok(extent) => extent,
            Err(e) => {
                return Err(e);
            },
        };
        self.width = width;
        self.height = height;
        Ok(())
    }
}

} // verus!
