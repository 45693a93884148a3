use lotus_script::graphics::Color;
use lotus_script::math::{Rectangle, UVec2};

#[test]
fn test_rectangle_creation() {
    let start = UVec2 { x: 0, y: 0 };
    let end = UVec2 { x: 5, y: 5 };
    let rect = Rectangle::new(start, end);
    assert_eq!(rect.start(), start);
    assert_eq!(rect.end(), end);
}

#[test]
fn test_rectangle_width_and_height() {
    let start = UVec2 { x: 1, y: 1 };
    let end = UVec2 { x: 4, y: 6 };
    let rect = Rectangle::new(start, end);
    assert_eq!(rect.width(), 3);
    assert_eq!(rect.height(), 5);
}

#[test]
fn test_rectangle_contains() {
    let start = UVec2 { x: 0, y: 0 };
    let end = UVec2 { x: 10, y: 10 };
    let rect = Rectangle::new(start, end);
    assert!(rect.contains(UVec2 { x: 5, y: 5 }));
    assert!(!rect.contains(UVec2 { x: 11, y: 5 }));
}

#[test]
fn test_rectangle_intersects() {
    let rect1 = Rectangle::new(UVec2 { x: 0, y: 0 }, UVec2 { x: 5, y: 5 });
    let rect2 = Rectangle::new(UVec2 { x: 3, y: 3 }, UVec2 { x: 7, y: 7 });
    let rect3 = Rectangle::new(UVec2 { x: 6, y: 6 }, UVec2 { x: 8, y: 8 });

    assert!(rect1.intersects(&rect2));
    assert!(!rect1.intersects(&rect3));
}

#[test]
fn rectangle_from_size_and_size() {
    let rect = Rectangle::from_size(UVec2 { x: 2, y: 3 }, UVec2 { x: 4, y: 5 });
    assert_eq!(rect.start(), UVec2 { x: 2, y: 3 });
    assert_eq!(rect.end(), UVec2 { x: 6, y: 8 });
    assert_eq!(rect.size(), UVec2 { x: 4, y: 5 });
}

#[test]
fn color_packs_and_unpacks() {
    let c = Color::rgba(0x12, 0x34, 0x56, 0x78);
    let packed: u32 = c.into();
    assert_eq!(packed, 0x1234_5678);
    let back: Color = 0x1234_5678u32.into();
    assert_eq!(back, c);
    assert_eq!(Color::rgb(1, 2, 3), Color::rgba(1, 2, 3, 255));
}
