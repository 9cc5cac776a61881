//! The root driver: it owns the tree, seeds the root with the viewport and
//! runs the three passes in order.

use vstd::prelude::*;
use crate::draw::Quad;
use crate::error::LayoutError;
use crate::node::default_color;
use crate::node::Rectangle;
use crate::sizing::Axis;
use crate::sizing::Sizing;
use crate::sizing::SizingMode;

verus! {

/// A user interface: a viewport and the tree that is laid out in it.
#[derive(Debug)]
pub struct UI {
    pub background_color: tinycolors::srgb,
    /// The width and the height of the viewport.
    pub size: (i32, i32),
    /// The root of the tree; `None` while there is no tree.
    pub root_item: Option<Rectangle>,
}

/// The extent of the root along an axis once the viewport has been forced on
/// it: the viewport's where the root grows there, its fit extent elsewhere.
pub open spec fn forced(mode: SizingMode, viewport: i32, fit: int) -> int {
    if mode == SizingMode::Grow {
        viewport as int
    } else {
        fit
    }
}

impl Default for UI {
    /// A user interface without a tree, in a viewport of no extent.
    fn default() -> (ui: UI)
        ensures
            ui.size == (0i32, 0i32),
            ui.root_item is None,
    {
        UI { background_color: default_color(), size: (0, 0), root_item: None }
    }
}

impl UI {
    /// The width and the height that the root has during the grow pass.
    pub open spec fn root_extents(self, root: Rectangle) -> (int, int) {
        (
            forced(root.sizing.width, self.size.0, root.fit_extent(Axis::Horizontal)),
            forced(root.sizing.height, self.size.1, root.fit_extent(Axis::Vertical)),
        )
    }

    /// Whether the layout assigns only extents and positions that can be
    /// stored.
    pub open spec fn layout_fits(self) -> bool {
        match self.root_item {
            None => true,
            Some(root) => {
                let (width, height) = self.root_extents(root);
                &&& root.fit_fits()
                &&& root.arrange_fits(width as i32, height as i32, root.position.0, root.position.1)
            },
        }
    }

    /// Whether `post` is `self` with its tree laid out: the root at its old
    /// position with the extents that the viewport forces on it, everything
    /// below it as they determine.
    pub open spec fn laid_out(self, post: UI) -> bool {
        &&& post.size == self.size
        &&& post.background_color == self.background_color
        &&& match self.root_item {
            None => post.root_item is None,
            Some(root) => {
                let (width, height) = self.root_extents(root);
                post.root_item matches Some(after) && root.laid_out(
                    width as i32,
                    height as i32,
                    root.position.0,
                    root.position.1,
                    after,
                )
            },
        }
    }

    /// Whether `post` is `self` but for the extents and the positions in its
    /// tree: the same viewport, the same background and the same tree.
    pub open spec fn same_tree(self, post: UI) -> bool {
        &&& post.size == self.size
        &&& post.background_color == self.background_color
        &&& match self.root_item {
            None => post.root_item is None,
            Some(root) => post.root_item matches Some(after) && root.same_tree(after),
        }
    }

    /// Forces the viewport on the root: on each axis on which the root grows,
    /// its extent becomes the viewport's.
    fn grow_root(size: (i32, i32), root: &mut Rectangle)
        ensures
            *final(root) == (Rectangle {
                width: forced(old(root).sizing.width, size.0, old(root).width as int) as i32,
                height: forced(old(root).sizing.height, size.1, old(root).height as int) as i32,
                ..*old(root)
            }),
    {
        match root.sizing.width {
            SizingMode::Grow => {
                root.width = size.0;
            },
            _ => {},
        }
        match root.sizing.height {
            SizingMode::Grow => {
                root.height = size.1;
            },
            _ => {},
        }
    }

    /// Lays the tree out in the viewport: the fit pass, the viewport forced on
    /// the root, the grow pass, the position pass. Without a tree there is
    /// nothing to do.
    ///
    /// Fails exactly where an extent or a position that the layout assigns
    /// does not fit in an `i32`; the tree is then left partly laid out. Either
    /// way it is the same tree in the same viewport.
    pub fn compute_layout(&mut self) -> (r: Result<(), LayoutError>)
        ensures
            r is Ok <==> old(self).layout_fits(),
            r is Ok ==> old(self).laid_out(*final(self)),
            old(self).same_tree(*final(self)),
    {
        let size = self.size;
        match &mut self.root_item {
            None => Ok(()),
            Some(root) => {
                let ghost before = *root;
                match root.fit_sizing() {
                    Ok(()) => {},
                    Err(e) => {
                        return Err(e);
                    },
                }
                let ghost fitted = *root;
                Self::grow_root(size, root);
                let ghost fit = *root;
                let ghost (x, y) = before.position;
                proof {
                    assert(before.fitted_below(fit));
                    fitted.lemma_same_tree_so_far(fit, 0);
                    before.lemma_same_tree_transitive(fitted, fit);
                }
                match root.grow_sizing() {
                    Ok(()) => {},
                    Err(e) => {
                        proof {
                            if before.arrange_fits(fit.width, fit.height, x, y) {
                                before.lemma_arranged_grows(fit, fit.width, fit.height, x, y);
                            }
                            before.lemma_same_tree_transitive(fit, *root);
                        }
                        return Err(e);
                    },
                }
                let ghost grown = *root;
                proof {
                    before.lemma_same_tree_transitive(fit, grown);
                }
                match root.set_child_positions() {
                    Ok(()) => {},
                    Err(e) => {
                        proof {
                            if before.arrange_fits(fit.width, fit.height, x, y) {
                                before.lemma_arranged_places(fit, grown, fit.width, fit.height, x, y);
                            }
                            before.lemma_same_tree_transitive(grown, *root);
                        }
                        return Err(e);
                    },
                }
                proof {
                    before.lemma_passes_arrange(fit, grown, fit.width, fit.height, x, y);
                    before.lemma_passes_lay_out(fit, grown, *root, fit.width, fit.height, x, y);
                    before.lemma_same_tree_transitive(grown, *root);
                }
                Ok(())
            },
        }
    }
}

impl UI {
    /// The fit pass over the tree, if there is one.
    ///
    /// Fails exactly where the fit pass of the root does.
    pub fn fit_sizing(&mut self) -> (r: Result<(), LayoutError>)
        ensures
            old(self).same_tree(*final(self)),
            match old(self).root_item {
                None => r is Ok && final(self).root_item is None,
                Some(root) => {
                    &&& r is Ok <==> root.fit_fits()
                    &&& r is Ok ==> (final(self).root_item matches Some(after) && root.fitted(after))
                },
            },
    {
        match &mut self.root_item {
            None => Ok(()),
            Some(root) => root.fit_sizing(),
        }
    }

    /// Nothing: the viewport is not grown by anything, and the root of the
    /// tree is grown by `compute_layout` once the viewport is forced on it.
    pub fn grow_sizing(&mut self)
        ensures
            *final(self) == *old(self),
    {
    }

    /// The position pass over the tree, if there is one, with the root where
    /// it is.
    ///
    /// Fails exactly where the position pass of the root does.
    pub fn set_child_positions(&mut self) -> (r: Result<(), LayoutError>)
        ensures
            old(self).same_tree(*final(self)),
            match old(self).root_item {
                None => r is Ok && final(self).root_item is None,
                Some(root) => {
                    &&& r is Ok <==> root.place_fits(root.position.0, root.position.1)
                    &&& r is Ok ==> (final(self).root_item matches Some(after) && root.placed(
                        root.position.0,
                        root.position.1,
                        after,
                    ))
                },
            },
    {
        match &mut self.root_item {
            None => Ok(()),
            Some(root) => root.set_child_positions(),
        }
    }

    /// The rectangles of the tree in painting order; none without a tree.
    pub open spec fn paint_order(self) -> Seq<Quad> {
        match self.root_item {
            None => Seq::empty(),
            Some(root) => root.paint_order(),
        }
    }

    /// Appends the rectangles of the tree to `quads`, in painting order.
    pub fn draw(&self, quads: &mut Vec<Quad>)
        ensures
            final(quads)@ == old(quads)@ + self.paint_order(),
    {
        match &self.root_item {
            None => {
                assert(quads@ =~= old(quads)@ + self.paint_order());
            },
            Some(root) => {
                root.draw(quads);
            },
        }
    }

    /// The sizing policy of the viewport: it takes all the space there is.
    pub fn get_sizing(&self) -> (sizing: Sizing)
        ensures
            sizing == (Sizing { width: SizingMode::Grow, height: SizingMode::Grow }),
    {
        Sizing::grow()
    }

    /// The sizing mode of the viewport along any axis.
    pub fn get_sizing_along_axis(&self, axis: Axis) -> (mode: SizingMode)
        ensures
            mode == SizingMode::Grow,
    {
        SizingMode::Grow
    }
}

} // verus!
