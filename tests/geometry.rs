use breakout::geometry::{resolve_collison, Point, Rectangle, Size};

fn rect(x: i32, y: i32, w: u32, h: u32) -> Rectangle {
    Rectangle::new(Point::new(x, y), Size::new(w, h))
}

#[test]
fn center_rounds_half_size_down() {
    assert_eq!(rect(5, 10, 10, 20).center(), Point::new(10, 20));
    assert_eq!(rect(0, 0, 5, 3).center(), Point::new(2, 1));
}

#[test]
fn translate_moves_top_left_only() {
    let r = rect(5, 10, 10, 20).translate(Point::new(-10, 3));
    assert_eq!(r, rect(-5, 13, 10, 20));
}

#[test]
fn disjoint_boxes_do_not_collide() {
    let mut a = rect(0, 0, 4, 4);
    let mut v = Point::new(1, 1);
    let b = rect(10, 10, 4, 4);
    assert!(!resolve_collison(&mut a, &mut v, &b));
    assert_eq!(a, rect(0, 0, 4, 4));
    assert_eq!(v, Point::new(1, 1));
}

#[test]
fn touching_boxes_do_not_collide() {
    let mut a = rect(0, 0, 4, 4);
    let mut v = Point::new(1, -1);
    let b = rect(4, 0, 4, 4);
    assert!(!resolve_collison(&mut a, &mut v, &b));
    assert_eq!(a, rect(0, 0, 4, 4));
    assert_eq!(v, Point::new(1, -1));
}

#[test]
fn zero_sized_box_does_not_collide() {
    let mut a = rect(2, 2, 0, 4);
    let mut v = Point::new(1, 1);
    let b = rect(0, 0, 10, 10);
    assert!(!resolve_collison(&mut a, &mut v, &b));
    assert_eq!(a, rect(2, 2, 0, 4));
    assert_eq!(v, Point::new(1, 1));
}

#[test]
fn wide_overlap_resolves_vertically() {
    // Overlap is 4 wide and 2 tall; the static box lies below.
    let mut a = rect(10, 8, 4, 4);
    let mut v = Point::new(1, 1);
    let b = rect(0, 10, 40, 5);
    assert!(resolve_collison(&mut a, &mut v, &b));
    assert_eq!(a, rect(10, 6, 4, 4));
    assert_eq!(v, Point::new(1, -1));
}

#[test]
fn tall_overlap_resolves_horizontally_away_from_static_box() {
    // Overlap is 2 wide and 4 tall; the static box lies to the left.
    let mut a = rect(8, 0, 4, 4);
    let mut v = Point::new(-1, 1);
    let b = rect(0, 0, 10, 10);
    assert!(resolve_collison(&mut a, &mut v, &b));
    assert_eq!(a, rect(10, 0, 4, 4));
    assert_eq!(v, Point::new(1, 1));
}

#[test]
fn tie_resolves_horizontally() {
    // Overlap is 2 by 2; the static box lies to the right and below.
    let mut a = rect(0, 0, 4, 4);
    let mut v = Point::new(1, 1);
    let b = rect(2, 2, 4, 4);
    assert!(resolve_collison(&mut a, &mut v, &b));
    assert_eq!(a, rect(-2, 0, 4, 4));
    assert_eq!(v, Point::new(-1, 1));
}

#[test]
fn equal_centers_flip_to_positive_without_push() {
    let mut a = rect(5, 0, 4, 4);
    let mut v = Point::new(0, -1);
    let b = rect(1, 1, 20, 3);
    // Overlap 4 wide, 3 tall: vertical; centers level, so no push.
    assert!(resolve_collison(&mut a, &mut v, &b));
    assert_eq!(a, rect(5, 0, 4, 4));
    assert_eq!(v, Point::new(0, 1));
}

#[test]
fn post_collision_velocity_points_from_static_to_moving_center() {
    let mut a = rect(3, 10, 4, 4);
    let mut v = Point::new(1, -1);
    let b = rect(0, 0, 40, 12);
    // Overlap 4 wide, 2 tall: vertical; the moving center is below.
    assert!(resolve_collison(&mut a, &mut v, &b));
    assert_eq!(a, rect(3, 12, 4, 4));
    assert!(v.y > 0);
    assert_eq!(v, Point::new(1, 1));
}
