use libremarkable::geom::Rect;

#[test]
fn contains_ordinary_rectangles() {
    let a = Rect { top: 0, left: 0, width: 10, height: 10 };
    let b = Rect { top: 2, left: 3, width: 4, height: 5 };
    assert!(a.contains(&b));
    assert!(!b.contains(&a));
    assert!(a.contains(&a));
}

#[test]
fn contains_touching_edges() {
    let a = Rect { top: 10, left: 20, width: 8, height: 8 };
    let inside = Rect { top: 10, left: 20, width: 8, height: 8 };
    let wider = Rect { top: 10, left: 20, width: 9, height: 8 };
    let taller = Rect { top: 10, left: 20, width: 8, height: 9 };
    assert!(a.contains(&inside));
    assert!(!a.contains(&wider));
    assert!(!a.contains(&taller));
}

#[test]
fn empty_rect_is_contained_everywhere() {
    let a = Rect { top: 5, left: 5, width: 3, height: 3 };
    let empty = Rect { top: 1000, left: 1000, width: 0, height: 0 };
    assert!(a.contains(&empty));
}

#[test]
fn sentinel_contains_nothing_but_itself() {
    let s = Rect::sentinel();
    let a = Rect { top: 0, left: 0, width: 10, height: 10 };
    assert!(!s.contains(&a));
    assert!(!a.contains(&s));
    assert!(s.contains(&s));
    assert!(s.is_invalid());
    assert!(!a.is_invalid());
}

#[test]
fn point_containment() {
    let a = Rect { top: 2, left: 3, width: 4, height: 5 };
    assert!(a.contains_point(2, 3));
    assert!(a.contains_point(6, 6));
    assert!(!a.contains_point(7, 3));
    assert!(!a.contains_point(2, 7));
    assert!(!a.contains_point(1, 3));
    assert!(!Rect::sentinel().contains_point(0, 0));
}

#[test]
fn intersection() {
    let a = Rect { top: 0, left: 0, width: 10, height: 10 };
    let b = Rect { top: 9, left: 9, width: 5, height: 5 };
    let c = Rect { top: 10, left: 10, width: 5, height: 5 };
    assert!(a.intersects(&b));
    assert!(b.intersects(&a));
    assert!(!a.intersects(&c));
    let empty = Rect { top: 5, left: 5, width: 0, height: 3 };
    assert!(!a.intersects(&empty));
    assert!(!a.intersects(&Rect::sentinel()));
}

#[test]
fn stroke_bound_of_three_points() {
    let b = Rect::stroke_bound((4, 10), (2, 14), (6, 12));
    assert_eq!(b, Rect { top: 2, left: 10, width: 5, height: 5 });
    assert!(b.contains_point(4, 10));
    assert!(b.contains_point(2, 14));
    assert!(b.contains_point(6, 12));
}
