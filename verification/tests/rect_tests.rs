use roguelike_core::rect::Rect;

#[test]
fn new_stores_corner_and_extent() {
    let r = Rect::new(20, 15, 10, 15);
    assert_eq!(r, Rect { x1: 20, y1: 15, x2: 30, y2: 30 });
}

#[test]
fn center_rounds_halves_down() {
    let r = Rect::new(20, 15, 10, 15);
    assert_eq!(r.center(), (25, 22));
    let odd = Rect::new(0, 0, 5, 7);
    assert_eq!(odd.center(), (2, 3));
}

#[test]
fn intersect_is_inclusive_on_both_axes() {
    let a = Rect::new(0, 0, 10, 10);
    let b = Rect::new(10, 10, 5, 5);
    // touching edges count as overlap
    assert!(a.intersect(&b));
    assert!(b.intersect(&a));
    let c = Rect::new(11, 0, 5, 5);
    assert!(!a.intersect(&c));
    let d = Rect::new(0, 11, 5, 5);
    assert!(!a.intersect(&d));
    let e = Rect::new(3, 3, 2, 2);
    assert!(a.intersect(&e));
}
