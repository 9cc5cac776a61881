use teacup::error::LayoutError;
use teacup::node::Leaf;
use teacup::node::Primative;
use teacup::node::Rectangle;
use teacup::sizing::Axis;
use teacup::sizing::LayoutMode;
use teacup::sizing::Sizing;
use teacup::sizing::SizingMode;

fn leaf_sized(width: i32, height: i32) -> Primative {
    Primative::Leaf(Leaf { width, height, ..Default::default() })
}

fn grower_sized(width: i32, height: i32) -> Rectangle {
    Rectangle { width, height, sizing: Sizing::grow(), ..Default::default() }
}

fn widths_of(rect: &Rectangle) -> Vec<i32> {
    rect.children.iter().map(|child| child.get_width()).collect()
}

fn heights_of(rect: &Rectangle) -> Vec<i32> {
    rect.children.iter().map(|child| child.get_height()).collect()
}

#[test]
fn leftover_width_goes_to_the_growing_children() {
    let mut root = Rectangle {
        width: 300,
        height: 100,
        padding: 10,
        child_gap: 5,
        children: vec![
            leaf_sized(40, 10),
            Primative::Container(grower_sized(0, 0)),
            Primative::Container(grower_sized(20, 0)),
        ],
        ..Default::default()
    };
    assert_eq!(root.grow_sizing(), Ok(()));
    assert_eq!((root.width, root.height), (300, 100));
    assert_eq!(widths_of(&root), vec![40, 115, 115]);
    assert_eq!(heights_of(&root), vec![10, 80, 80]);
}

#[test]
fn leftover_height_goes_to_the_growing_children_of_a_column() {
    let mut root = Rectangle {
        width: 100,
        height: 300,
        layout_mode: LayoutMode::TopToBottom,
        padding: 10,
        child_gap: 5,
        children: vec![
            leaf_sized(40, 10),
            Primative::Container(grower_sized(0, 0)),
            Primative::Container(grower_sized(0, 20)),
        ],
        ..Default::default()
    };
    assert_eq!(root.grow_sizing(), Ok(()));
    assert_eq!(heights_of(&root), vec![10, 130, 130]);
    assert_eq!(widths_of(&root), vec![40, 80, 80]);
}

#[test]
fn leaves_and_fitting_containers_keep_their_extents() {
    let mut root = Rectangle {
        width: 500,
        height: 500,
        children: vec![leaf_sized(40, 10), Primative::Container(Rectangle { width: 7, height: 8, ..Default::default() })],
        ..Default::default()
    };
    assert_eq!(root.grow_sizing(), Ok(()));
    assert_eq!(widths_of(&root), vec![40, 7]);
    assert_eq!(heights_of(&root), vec![10, 8]);
}

#[test]
fn modes_are_independent_per_axis() {
    let wide = Rectangle { sizing: Sizing { width: SizingMode::Grow, height: SizingMode::Fit }, height: 9, ..Default::default() };
    let tall = Rectangle { sizing: Sizing { width: SizingMode::Fixed(30), height: SizingMode::Grow }, width: 30, ..Default::default() };
    let mut root = Rectangle {
        width: 100,
        height: 50,
        padding: 5,
        children: vec![Primative::Container(wide), Primative::Container(tall)],
        ..Default::default()
    };
    assert_eq!(root.grow_sizing(), Ok(()));
    assert_eq!(widths_of(&root), vec![60, 30]);
    assert_eq!(heights_of(&root), vec![9, 40]);
}

#[test]
fn cross_stretch_ignores_the_constraints() {
    let child = Rectangle { max_height: Some(100), min_height: 3, ..grower_sized(0, 50) };
    let mut root = Rectangle { width: 100, height: 600, padding: 16, children: vec![Primative::Container(child)], ..Default::default() };
    assert_eq!(root.grow_sizing(), Ok(()));
    assert_eq!(heights_of(&root), vec![568]);
}

#[test]
fn overfull_container_changes_no_main_extent() {
    let mut root = Rectangle {
        width: 50,
        height: 10,
        children: vec![leaf_sized(40, 10), Primative::Container(grower_sized(30, 0))],
        ..Default::default()
    };
    assert_eq!(root.grow_sizing(), Ok(()));
    assert_eq!(widths_of(&root), vec![40, 30]);
}

#[test]
fn small_container_gives_negative_cross_room() {
    let mut root = Rectangle { width: 100, height: 10, padding: 16, children: vec![Primative::Container(grower_sized(0, 0))], ..Default::default() };
    assert_eq!(root.grow_sizing(), Ok(()));
    assert_eq!(heights_of(&root), vec![-22]);
    assert_eq!(widths_of(&root), vec![68]);
}

#[test]
fn grown_children_grow_their_own_children() {
    let inner = Rectangle {
        layout_mode: LayoutMode::TopToBottom,
        padding: 16,
        child_gap: 16,
        children: vec![
            Primative::Container(Rectangle { min_width: 100, min_height: 50, ..grower_sized(100, 50) }),
            Primative::Container(Rectangle { min_width: 100, min_height: 50, ..grower_sized(100, 50) }),
        ],
        ..grower_sized(132, 148)
    };
    let mut root = Rectangle { width: 472, height: 1200, padding: 16, children: vec![Primative::Container(inner)], ..Default::default() };
    assert_eq!(root.grow_sizing(), Ok(()));
    match &root.children[0] {
        Primative::Container(rect) => {
            assert_eq!((rect.width, rect.height), (440, 1168));
            assert_eq!(widths_of(rect), vec![408, 408]);
            assert_eq!(heights_of(rect), vec![560, 560]);
        },
        Primative::Leaf(_) => panic!("a container was expected"),
    }
}

#[test]
fn children_never_take_more_than_the_container_has() {
    let mut root = Rectangle {
        width: 101,
        height: 10,
        padding: 3,
        child_gap: 2,
        children: vec![
            Primative::Container(grower_sized(1, 0)),
            Primative::Container(Rectangle { max_width: Some(9), ..grower_sized(0, 0) }),
            leaf_sized(4, 0),
            Primative::Container(grower_sized(2, 0)),
        ],
        ..Default::default()
    };
    assert_eq!(root.grow_sizing(), Ok(()));
    let total: i32 = widths_of(&root).iter().sum();
    assert_eq!(widths_of(&root), vec![38, 9, 4, 38]);
    assert_eq!(total, 101 - 2 * 3 - 3 * 2);
}

#[test]
fn like_children_end_alike() {
    let mut root = Rectangle {
        width: 200,
        height: 10,
        children: vec![
            Primative::Container(Rectangle { min_width: 5, max_width: Some(80), ..grower_sized(10, 0) }),
            leaf_sized(20, 0),
            Primative::Container(Rectangle { min_width: 5, max_width: Some(80), ..grower_sized(30, 0) }),
        ],
        ..Default::default()
    };
    assert_eq!(root.grow_sizing(), Ok(()));
    assert_eq!(widths_of(&root), vec![80, 20, 80]);
}

#[test]
fn grown_children_stay_within_their_main_constraints() {
    let mut root = Rectangle {
        width: 1000,
        height: 10,
        children: vec![
            Primative::Container(Rectangle { min_width: 5, max_width: Some(80), ..grower_sized(10, 0) }),
            Primative::Container(Rectangle { min_width: 40, max_width: Some(90), ..grower_sized(40, 0) }),
        ],
        ..Default::default()
    };
    assert_eq!(root.grow_sizing(), Ok(()));
    for child in &root.children {
        let width = child.get_width();
        assert!(child.get_min_along_axis(Axis::Horizontal) <= width);
        assert!(width <= child.get_max_along_axis(Axis::Horizontal).unwrap());
    }
    assert_eq!(widths_of(&root), vec![80, 90]);
}

#[test]
fn cross_room_beyond_i32_is_an_overflow() {
    let mut root = Rectangle {
        width: 0,
        height: i32::MAX,
        padding: -1,
        children: vec![Primative::Container(grower_sized(0, 0))],
        ..Default::default()
    };
    assert_eq!(root.grow_sizing(), Err(LayoutError::Overflow));
}

#[test]
fn main_extent_beyond_i32_is_an_overflow() {
    let mut root = Rectangle {
        width: i32::MAX,
        height: 0,
        padding: -2,
        children: vec![Primative::Container(Rectangle { sizing: Sizing { width: SizingMode::Grow, height: SizingMode::Fit }, ..Default::default() })],
        ..Default::default()
    };
    assert_eq!(root.grow_sizing(), Err(LayoutError::Overflow));
}

#[test]
fn slot_shows_a_child_along_an_axis() {
    let child = Primative::Container(Rectangle { min_width: 5, max_width: Some(80), min_height: 2, ..grower_sized(10, 30) });
    let across = child.slot_along(Axis::Vertical);
    let along = child.slot_along(Axis::Horizontal);
    assert_eq!((along.size, along.min, along.max, along.grow), (10, 5, Some(80), true));
    assert_eq!((across.size, across.min, across.max, across.grow), (30, 2, None, true));
    let leaf = leaf_sized(4, 6).slot_along(Axis::Horizontal);
    assert_eq!((leaf.size, leaf.min, leaf.max, leaf.grow), (4, 0, None, false));
}
