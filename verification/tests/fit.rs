use teacup::error::LayoutError;
use teacup::node::Leaf;
use teacup::node::Primative;
use teacup::node::Rectangle;
use teacup::sizing::LayoutMode;
use teacup::sizing::Sizing;
use teacup::sizing::SizingMode;

fn leaf_of(min_width: i32, min_height: i32) -> Primative {
    Primative::Leaf(Leaf { width: 999, height: 999, min_width, min_height, ..Default::default() })
}

fn row_of(children: Vec<Primative>) -> Rectangle {
    Rectangle { children, ..Default::default() }
}

fn extents_of(node: &Primative) -> (i32, i32) {
    match node {
        Primative::Leaf(leaf) => (leaf.width, leaf.height),
        Primative::Container(rect) => (rect.width, rect.height),
    }
}

#[test]
fn leaf_adopts_its_minimum() {
    let mut root = row_of(vec![leaf_of(50, 20)]);
    assert_eq!(root.fit_sizing(), Ok(()));
    assert_eq!(extents_of(&root.children[0]), (50, 20));
}

#[test]
fn row_sums_along_and_takes_the_largest_across() {
    let mut root = Rectangle { padding: 3, child_gap: 1, ..row_of(vec![leaf_of(10, 7), leaf_of(0, 0), leaf_of(5, 9)]) };
    assert_eq!(root.fit_sizing(), Ok(()));
    assert_eq!((root.width, root.height), (23, 15));
}

#[test]
fn column_sums_along_and_takes_the_largest_across() {
    let mut root = Rectangle {
        layout_mode: LayoutMode::TopToBottom,
        padding: 5,
        child_gap: 3,
        ..row_of(vec![leaf_of(10, 20), leaf_of(30, 5), leaf_of(7, 11)])
    };
    assert_eq!(root.fit_sizing(), Ok(()));
    assert_eq!((root.width, root.height), (40, 52));
}

#[test]
fn empty_container_is_its_padding() {
    let mut root = Rectangle { padding: 16, child_gap: 100, ..Default::default() };
    assert_eq!(root.fit_sizing(), Ok(()));
    assert_eq!((root.width, root.height), (32, 32));
}

#[test]
fn single_child_has_no_gap() {
    let mut root = Rectangle { child_gap: 100, ..row_of(vec![leaf_of(10, 10)]) };
    assert_eq!(root.fit_sizing(), Ok(()));
    assert_eq!((root.width, root.height), (10, 10));
}

#[test]
fn fixed_extent_ignores_content_and_constraints() {
    let mut root = Rectangle {
        sizing: Sizing { width: SizingMode::Fixed(300), height: SizingMode::Fixed(2) },
        min_height: 10,
        max_width: Some(100),
        ..row_of(vec![leaf_of(50, 20)])
    };
    assert_eq!(root.fit_sizing(), Ok(()));
    assert_eq!((root.width, root.height), (300, 2));
}

#[test]
fn content_is_held_to_the_floor() {
    let mut root = Rectangle { min_width: 80, min_height: 90, ..row_of(vec![leaf_of(50, 20)]) };
    assert_eq!(root.fit_sizing(), Ok(()));
    assert_eq!((root.width, root.height), (80, 90));
}

#[test]
fn content_is_held_to_the_ceiling() {
    let mut root = Rectangle { max_width: Some(30), max_height: Some(100), ..row_of(vec![leaf_of(50, 20)]) };
    assert_eq!(root.fit_sizing(), Ok(()));
    assert_eq!((root.width, root.height), (30, 20));
}

#[test]
fn ceiling_wins_over_a_higher_floor() {
    let mut root = Rectangle { min_width: 80, max_width: Some(30), ..row_of(vec![leaf_of(50, 20)]) };
    assert_eq!(root.fit_sizing(), Ok(()));
    assert_eq!(root.width, 30);
}

#[test]
fn grow_fits_like_fit_in_the_fit_pass() {
    let mut root = Rectangle { sizing: Sizing::grow(), min_width: 60, ..row_of(vec![leaf_of(50, 20)]) };
    assert_eq!(root.fit_sizing(), Ok(()));
    assert_eq!((root.width, root.height), (60, 20));
}

#[test]
fn negative_child_does_not_lower_the_cross_extent_below_the_padding() {
    let mut root = Rectangle { padding: 4, ..row_of(vec![leaf_of(-5, -7)]) };
    assert_eq!(root.fit_sizing(), Ok(()));
    assert_eq!((root.width, root.height), (3, 8));
}

#[test]
fn nested_containers_are_fitted_bottom_up() {
    let inner = Rectangle {
        sizing: Sizing { width: SizingMode::Grow, height: SizingMode::Fit },
        padding: 3,
        child_gap: 1,
        ..row_of(vec![leaf_of(10, 7), Primative::Container(Rectangle { sizing: Sizing::grow(), ..Default::default() }), leaf_of(5, 9)])
    };
    let tall = Rectangle {
        sizing: Sizing { width: SizingMode::Fit, height: SizingMode::Grow },
        max_height: Some(40),
        ..row_of(vec![leaf_of(70, 5)])
    };
    let mut root = Rectangle {
        layout_mode: LayoutMode::TopToBottom,
        sizing: Sizing { width: SizingMode::Fixed(300), height: SizingMode::Fit },
        min_height: 10,
        padding: 4,
        child_gap: 2,
        ..row_of(vec![leaf_of(50, 20), Primative::Container(inner), Primative::Container(tall)])
    };
    assert_eq!(root.fit_sizing(), Ok(()));
    assert_eq!((root.width, root.height), (300, 52));
    assert_eq!(extents_of(&root.children[0]), (50, 20));
    assert_eq!(extents_of(&root.children[1]), (23, 15));
    assert_eq!(extents_of(&root.children[2]), (70, 5));
    match &root.children[1] {
        Primative::Container(rect) => {
            assert_eq!(extents_of(&rect.children[0]), (10, 7));
            assert_eq!(extents_of(&rect.children[1]), (0, 0));
            assert_eq!(extents_of(&rect.children[2]), (5, 9));
        },
        Primative::Leaf(_) => panic!("a container was expected"),
    }
}

#[test]
fn fit_is_the_bounding_box_of_the_content() {
    let mut root = Rectangle { padding: 2, child_gap: 5, ..row_of(vec![leaf_of(11, 4), leaf_of(13, 6), leaf_of(17, 5)]) };
    assert_eq!(root.fit_sizing(), Ok(()));
    let along: i32 = root.children.iter().map(|child| extents_of(child).0).sum();
    let across: i32 = root.children.iter().map(|child| extents_of(child).1).max().unwrap();
    assert_eq!(root.width, 2 * 2 + along + 2 * 5);
    assert_eq!(root.height, 2 * 2 + across);
}

#[test]
fn fit_keeps_policy_and_position() {
    let mut root = Rectangle { position: (7, 9), padding: 2, max_width: Some(500), ..row_of(vec![leaf_of(11, 4)]) };
    assert_eq!(root.fit_sizing(), Ok(()));
    assert_eq!(root.position, (7, 9));
    assert_eq!(root.padding, 2);
    assert_eq!(root.max_width, Some(500));
    assert_eq!(root.children.len(), 1);
}

#[test]
fn fitted_nodes_lie_within_their_constraints() {
    let inner = Rectangle { min_width: 20, max_width: Some(25), min_height: 3, ..row_of(vec![leaf_of(50, 1)]) };
    let mut root = Rectangle { min_height: 10, max_height: Some(12), ..row_of(vec![Primative::Container(inner), leaf_of(4, 40)]) };
    assert_eq!(root.fit_sizing(), Ok(()));
    assert_eq!((root.width, root.height), (29, 12));
    assert_eq!(extents_of(&root.children[0]), (25, 3));
}

#[test]
fn content_beyond_i32_is_an_overflow() {
    let mut root = row_of(vec![leaf_of(i32::MAX, 0), leaf_of(1, 0)]);
    assert_eq!(root.fit_sizing(), Err(LayoutError::Overflow));
}

#[test]
fn ceiling_keeps_wide_content_storable() {
    let mut root = Rectangle { max_width: Some(10), ..row_of(vec![leaf_of(i32::MAX, 0), leaf_of(i32::MAX, 0)]) };
    assert_eq!(root.fit_sizing(), Ok(()));
    assert_eq!(root.width, 10);
}

#[test]
fn overflow_deep_in_the_tree_is_reported() {
    let inner = Rectangle { padding: i32::MAX, ..Default::default() };
    let mut root = Rectangle { max_width: Some(10), max_height: Some(10), ..row_of(vec![Primative::Container(inner)]) };
    assert_eq!(root.fit_sizing(), Err(LayoutError::Overflow));
}

#[test]
fn failed_fit_leaves_the_same_tree() {
    let inner = Rectangle { padding: i32::MAX, min_width: 3, ..Default::default() };
    let mut root = Rectangle {
        padding: 7,
        max_width: Some(10),
        ..row_of(vec![leaf_of(1, 2), Primative::Container(inner), leaf_of(3, 4)])
    };
    assert_eq!(root.fit_sizing(), Err(LayoutError::Overflow));
    assert_eq!((root.padding, root.max_width), (7, Some(10)));
    assert_eq!(root.children.len(), 3);
    match &root.children[1] {
        Primative::Container(rect) => assert_eq!((rect.padding, rect.min_width), (i32::MAX, 3)),
        Primative::Leaf(_) => panic!("a container was expected"),
    }
    match &root.children[2] {
        Primative::Leaf(leaf) => assert_eq!((leaf.min_width, leaf.min_height), (3, 4)),
        Primative::Container(_) => panic!("a leaf was expected"),
    }
}
