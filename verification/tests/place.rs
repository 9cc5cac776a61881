use teacup::error::LayoutError;
use teacup::node::Leaf;
use teacup::node::Primative;
use teacup::node::Rectangle;
use teacup::sizing::LayoutMode;

fn leaf_box(width: i32, height: i32) -> Primative {
    Primative::Leaf(Leaf { width, height, position: (-1, -1), ..Default::default() })
}

fn positions_of(rect: &Rectangle) -> Vec<(i32, i32)> {
    rect.children.iter().map(|child| child.get_position()).collect()
}

#[test]
fn row_children_follow_each_other_from_the_padded_corner() {
    let mut root = Rectangle {
        position: (-4, 9),
        padding: 5,
        child_gap: 3,
        children: vec![leaf_box(10, 20), leaf_box(30, 5), leaf_box(7, 11)],
        ..Default::default()
    };
    assert_eq!(root.set_child_positions(), Ok(()));
    assert_eq!(root.position, (-4, 9));
    assert_eq!(positions_of(&root), vec![(1, 14), (14, 14), (47, 14)]);
}

#[test]
fn column_children_follow_each_other_from_the_padded_corner() {
    let mut root = Rectangle {
        position: (100, 200),
        layout_mode: LayoutMode::TopToBottom,
        padding: 5,
        child_gap: 3,
        children: vec![leaf_box(10, 20), leaf_box(30, 5), leaf_box(7, 11)],
        ..Default::default()
    };
    assert_eq!(root.set_child_positions(), Ok(()));
    assert_eq!(positions_of(&root), vec![(105, 205), (105, 228), (105, 236)]);
}

#[test]
fn each_child_starts_where_its_predecessor_ends_plus_the_gap() {
    let mut root = Rectangle {
        position: (3, 4),
        padding: 2,
        child_gap: 6,
        children: vec![leaf_box(10, 1), leaf_box(0, 1), leaf_box(25, 1), leaf_box(4, 1)],
        ..Default::default()
    };
    assert_eq!(root.set_child_positions(), Ok(()));
    assert_eq!(root.children[0].get_position(), (3 + 2, 4 + 2));
    for i in 0..3 {
        let here = root.children[i].get_position();
        let there = root.children[i + 1].get_position();
        assert_eq!(there.0, here.0 + root.children[i].get_width() + 6);
        assert_eq!(there.1, here.1);
    }
}

#[test]
fn nested_containers_place_their_own_children() {
    let inner = Rectangle {
        width: 40,
        height: 30,
        layout_mode: LayoutMode::TopToBottom,
        padding: 1,
        child_gap: 2,
        children: vec![leaf_box(5, 6), leaf_box(7, 8)],
        ..Default::default()
    };
    let mut root = Rectangle {
        position: (10, 20),
        padding: 4,
        child_gap: 9,
        children: vec![leaf_box(50, 20), Primative::Container(inner)],
        ..Default::default()
    };
    assert_eq!(root.set_child_positions(), Ok(()));
    assert_eq!(positions_of(&root), vec![(14, 24), (73, 24)]);
    match &root.children[1] {
        Primative::Container(rect) => {
            assert_eq!(positions_of(rect), vec![(74, 25), (74, 33)]);
            assert_eq!((rect.width, rect.height), (40, 30));
        },
        Primative::Leaf(_) => panic!("a container was expected"),
    }
}

#[test]
fn container_without_children_is_placed_as_it_is() {
    let mut root = Rectangle { position: (i32::MAX, i32::MIN), padding: i32::MAX, ..Default::default() };
    assert_eq!(root.set_child_positions(), Ok(()));
    assert_eq!(root.position, (i32::MAX, i32::MIN));
}

#[test]
fn position_beyond_i32_is_an_overflow() {
    let mut root = Rectangle { position: (i32::MAX, 0), padding: 1, children: vec![leaf_box(1, 1)], ..Default::default() };
    assert_eq!(root.set_child_positions(), Err(LayoutError::Overflow));
    let mut root = Rectangle { position: (0, 0), children: vec![leaf_box(i32::MAX, 1), leaf_box(1, 1), leaf_box(1, 1)], ..Default::default() };
    assert_eq!(root.set_child_positions(), Err(LayoutError::Overflow));
}

#[test]
fn last_child_may_end_beyond_i32() {
    let mut root = Rectangle { position: (0, 0), children: vec![leaf_box(1, 1), leaf_box(i32::MAX, 1)], ..Default::default() };
    assert_eq!(root.set_child_positions(), Ok(()));
    assert_eq!(positions_of(&root), vec![(0, 0), (1, 0)]);
}
