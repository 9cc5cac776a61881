use teacup::node::Leaf;
use teacup::node::Primative;
use teacup::node::Rectangle;
use teacup::sizing::Axis;
use teacup::sizing::LayoutMode;
use teacup::sizing::Sizing;
use teacup::sizing::SizingMode;
use tinycolors::srgb;

fn sample_rectangle() -> Rectangle {
    Rectangle {
        width: 1,
        height: 2,
        min_width: 3,
        min_height: 4,
        max_width: Some(5),
        max_height: None,
        position: (6, 7),
        sizing: Sizing { width: SizingMode::Grow, height: SizingMode::Fixed(2) },
        ..Default::default()
    }
}

fn sample_leaf() -> Leaf {
    Leaf {
        width: 11,
        height: 12,
        min_width: 13,
        min_height: 14,
        max_width: None,
        max_height: Some(16),
        position: (17, 18),
        ..Default::default()
    }
}

#[test]
fn default_rectangle_is_empty_and_unconstrained() {
    let rect = Rectangle::default();
    assert_eq!((rect.width, rect.height), (0, 0));
    assert_eq!((rect.min_width, rect.min_height), (0, 0));
    assert_eq!((rect.max_width, rect.max_height), (None, None));
    assert_eq!(rect.position, (0, 0));
    assert_eq!(rect.layout_mode, LayoutMode::LeftToRight);
    assert_eq!(rect.sizing, Sizing::fit());
    assert_eq!((rect.padding, rect.child_gap), (0, 0));
    assert_eq!(rect.color, srgb::default());
    assert!(rect.children.is_empty());
}

#[test]
fn default_leaf_is_empty_and_unconstrained() {
    let leaf = Leaf::default();
    assert_eq!((leaf.width, leaf.height), (0, 0));
    assert_eq!((leaf.min_width, leaf.min_height), (0, 0));
    assert_eq!((leaf.max_width, leaf.max_height), (None, None));
    assert_eq!(leaf.position, (0, 0));
    assert_eq!(leaf.color, srgb::default());
}

#[test]
fn rectangle_getters_read_the_fields() {
    let rect = sample_rectangle();
    assert_eq!(rect.get_width(), 1);
    assert_eq!(rect.get_height(), 2);
    assert_eq!(rect.get_min_width(), 3);
    assert_eq!(rect.get_min_height(), 4);
    assert_eq!(rect.get_max_width(), Some(5));
    assert_eq!(rect.get_max_height(), None);
    assert_eq!(rect.get_position(), (6, 7));
    assert_eq!(rect.get_size_along_axis(Axis::Horizontal), 1);
    assert_eq!(rect.get_size_along_axis(Axis::Vertical), 2);
    assert_eq!(rect.get_min_along_axis(Axis::Horizontal), 3);
    assert_eq!(rect.get_min_along_axis(Axis::Vertical), 4);
    assert_eq!(rect.get_max_along_axis(Axis::Horizontal), Some(5));
    assert_eq!(rect.get_max_along_axis(Axis::Vertical), None);
    assert_eq!(*rect.get_sizing(), Sizing { width: SizingMode::Grow, height: SizingMode::Fixed(2) });
    assert_eq!(*rect.get_sizing_along_axis(Axis::Horizontal), SizingMode::Grow);
    assert_eq!(*rect.get_sizing_along_axis(Axis::Vertical), SizingMode::Fixed(2));
}

#[test]
fn rectangle_setters_write_one_field_each() {
    let mut rect = sample_rectangle();
    rect.set_width(21);
    rect.set_height(22);
    rect.set_min_width(23);
    rect.set_min_height(24);
    rect.set_max_width(None);
    rect.set_max_height(Some(26));
    rect.set_position((27, 28));
    assert_eq!((rect.width, rect.height), (21, 22));
    assert_eq!((rect.min_width, rect.min_height), (23, 24));
    assert_eq!((rect.max_width, rect.max_height), (None, Some(26)));
    assert_eq!(rect.position, (27, 28));
    rect.set_size_along_axis(Axis::Horizontal, 31);
    assert_eq!((rect.width, rect.height), (31, 22));
    rect.set_size_along_axis(Axis::Vertical, 32);
    assert_eq!((rect.width, rect.height), (31, 32));
    assert_eq!(rect.sizing, sample_rectangle().sizing);
}

#[test]
fn node_getters_read_a_leaf() {
    let node = Primative::Leaf(sample_leaf());
    assert_eq!(node.get_width(), 11);
    assert_eq!(node.get_height(), 12);
    assert_eq!(node.get_min_width(), 13);
    assert_eq!(node.get_min_height(), 14);
    assert_eq!(node.get_max_width(), None);
    assert_eq!(node.get_max_height(), Some(16));
    assert_eq!(node.get_position(), (17, 18));
    assert_eq!(node.get_size_along_axis(Axis::Vertical), 12);
    assert_eq!(node.get_min_along_axis(Axis::Horizontal), 13);
    assert_eq!(node.get_max_along_axis(Axis::Vertical), Some(16));
    assert!(!node.grows_along(Axis::Horizontal));
    assert!(!node.grows_along(Axis::Vertical));
}

#[test]
fn node_getters_read_a_container() {
    let node = Primative::Container(sample_rectangle());
    assert_eq!(node.get_width(), 1);
    assert_eq!(node.get_height(), 2);
    assert_eq!(node.get_min_width(), 3);
    assert_eq!(node.get_min_height(), 4);
    assert_eq!(node.get_max_width(), Some(5));
    assert_eq!(node.get_max_height(), None);
    assert_eq!(node.get_position(), (6, 7));
    assert_eq!(node.get_size_along_axis(Axis::Horizontal), 1);
    assert_eq!(node.get_min_along_axis(Axis::Vertical), 4);
    assert_eq!(node.get_max_along_axis(Axis::Horizontal), Some(5));
    assert!(node.grows_along(Axis::Horizontal));
    assert!(!node.grows_along(Axis::Vertical));
}

#[test]
fn node_setters_write_a_leaf() {
    let mut node = Primative::Leaf(sample_leaf());
    node.set_width(41);
    node.set_height(42);
    node.set_min_width(43);
    node.set_min_height(44);
    node.set_max_width(Some(45));
    node.set_max_height(None);
    node.set_position((47, 48));
    match &node {
        Primative::Leaf(leaf) => {
            assert_eq!((leaf.width, leaf.height), (41, 42));
            assert_eq!((leaf.min_width, leaf.min_height), (43, 44));
            assert_eq!((leaf.max_width, leaf.max_height), (Some(45), None));
            assert_eq!(leaf.position, (47, 48));
        },
        Primative::Container(_) => panic!("a leaf was expected"),
    }
}

#[test]
fn node_setters_write_a_container() {
    let mut node = Primative::Container(sample_rectangle());
    node.set_size_along_axis(Axis::Horizontal, 51);
    node.set_size_along_axis(Axis::Vertical, 52);
    node.set_min_along_axis(Axis::Horizontal, 53);
    node.set_min_along_axis(Axis::Vertical, 54);
    node.set_max_along_axis(Axis::Horizontal, None);
    node.set_max_along_axis(Axis::Vertical, Some(56));
    node.set_position((57, 58));
    match &node {
        Primative::Container(rect) => {
            assert_eq!((rect.width, rect.height), (51, 52));
            assert_eq!((rect.min_width, rect.min_height), (53, 54));
            assert_eq!((rect.max_width, rect.max_height), (None, Some(56)));
            assert_eq!(rect.position, (57, 58));
            assert_eq!(rect.sizing, sample_rectangle().sizing);
        },
        Primative::Leaf(_) => panic!("a container was expected"),
    }
}
