use ratatui_core::layout::rect::Rect;

#[test]
fn new_cuts_a_size_that_passes_the_end() {
    assert_eq!(Rect::new(1, 2, 3, 4), Rect { x: 1, y: 2, width: 3, height: 4 });
    assert_eq!(
        Rect::new(65530, 65535, 10, 10),
        Rect { x: 65530, y: 65535, width: 5, height: 0 }
    );
    assert_eq!(Rect::default(), Rect { x: 0, y: 0, width: 0, height: 0 });
}

#[test]
fn edges_and_area() {
    let r = Rect::new(1, 2, 3, 4);
    assert_eq!((r.left(), r.right(), r.top(), r.bottom()), (1, 4, 2, 6));
    assert_eq!(r.area(), 12);
    assert_eq!(Rect::new(0, 0, 65535, 65535).area(), 4294836225);
    assert!(!r.is_empty());
    assert!(Rect::new(1, 2, 0, 4).is_empty());
    assert!(Rect::new(1, 2, 3, 0).is_empty());
}

#[test]
fn contains_the_cells_before_the_far_edges() {
    let r = Rect::new(1, 2, 3, 4);
    assert!(r.contains(1, 2));
    assert!(r.contains(3, 5));
    assert!(!r.contains(4, 5));
    assert!(!r.contains(3, 6));
    assert!(!r.contains(0, 2));
    assert!(!r.contains(1, 1));
    assert!(!Rect::new(1, 2, 0, 4).contains(1, 2));
}

#[test]
fn intersection_and_union() {
    let a = Rect::new(1, 2, 3, 4);
    let b = Rect::new(2, 3, 4, 5);
    assert_eq!(a.intersection(b), Rect::new(2, 3, 2, 3));
    assert_eq!(a.union(b), Rect::new(1, 2, 5, 6));
    assert!(a.intersects(b));
    let c = Rect::new(4, 2, 3, 4);
    assert!(!a.intersects(c));
    assert!(a.intersection(c).is_empty());
    assert_eq!(a.intersection(c), Rect { x: 4, y: 2, width: 0, height: 4 });
    assert_eq!(a.intersection(Rect::new(10, 10, 1, 1)), Rect { x: 10, y: 10, width: 0, height: 0 });
    assert!(!a.intersects(Rect::new(2, 3, 0, 1)));
    assert_eq!(a.union(a), a);
    assert_eq!(a.intersection(a), a);
}

#[test]
fn inner_takes_the_margin_off_both_ends() {
    let r = Rect::new(10, 20, 10, 6);
    assert_eq!(r.inner(1, 2), Rect::new(11, 22, 8, 2));
    assert_eq!(r.inner(0, 0), r);
    assert_eq!(r.inner(5, 3), Rect { x: 15, y: 23, width: 0, height: 0 });
    assert_eq!(r.inner(7, 1), Rect { x: 17, y: 21, width: 0, height: 4 });
    assert_eq!(r.inner(20, 40000), Rect { x: 20, y: 26, width: 0, height: 0 });
}
