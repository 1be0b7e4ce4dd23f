use shardkv::rect::Rectangle;

#[test]
fn large_can_hold_small() {
    let large = Rectangle::new(8, 7);
    let small = Rectangle::new(5, 1);
    // we can add an optional custom failure message to assert macros
    assert!(
        large.can_hold(&small),
        "Large rectangle should be able to hold small rectangle"
    );
}

#[test]
fn small_cannot_hold_large() {
    let large = Rectangle::new(8, 7);
    let small = Rectangle::new(5, 1);
    assert!(!small.can_hold(&large));
}

#[test]
fn test_using_result() -> Result<(), String> {
    let rect = Rectangle::new(3, 4);
    if rect.width != 3 {
        return Err(String::from("Width is not correct"));
    }
    Ok(())
}

#[test]
fn area_multiplies_width_by_height() {
    let rect = Rectangle::new(3, 4);
    assert_eq!(rect.area(), 12);
}

#[test]
fn increase_width_leaves_height_alone() {
    let mut rect = Rectangle::new(30, 50);
    rect.increase_width(30);
    assert_eq!(rect.width, 60);
    assert_eq!(rect.height, 50);
}

#[test]
fn equal_rectangles_cannot_hold_each_other() {
    let a = Rectangle::new(5, 5);
    let b = Rectangle::new(5, 5);
    assert!(!a.can_hold(&b));
    assert!(!b.can_hold(&a));
}
