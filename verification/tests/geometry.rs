use ascii_tilemap::geometry::{Rect, UVec2};

fn collect_points(rect: &Rect) -> Vec<UVec2> {
    let mut points = rect.points();
    let mut out = Vec::new();
    while let Some(p) = points.next() {
        out.push(p);
    }
    out
}

#[test]
fn iter() {
    let rect = Rect::with_dimension(0, 0, 2, 2);
    assert_eq!(
        collect_points(&rect),
        vec![
            UVec2::new(0, 0),
            UVec2::new(1, 0),
            UVec2::new(0, 1),
            UVec2::new(1, 1),
        ]
    );
}

#[test]
fn iter_offset() {
    let rect = Rect::with_dimension(1, 1, 2, 2);
    assert_eq!(
        collect_points(&rect),
        vec![
            UVec2::new(1, 1),
            UVec2::new(2, 1),
            UVec2::new(1, 2),
            UVec2::new(2, 2),
        ]
    );
}

#[test]
fn intersect_and_containment() {
    let a = Rect::with_dimension(0, 0, 4, 4);
    let b = Rect::with_dimension(2, 2, 4, 4);
    let c = Rect::with_dimension(10, 10, 2, 2);
    assert!(a.intersect(&b));
    assert!(b.intersect(&a));
    assert!(!a.intersect(&c));

    assert!(a.point_in_rect(UVec2::new(0, 0)));
    assert!(a.point_in_rect(UVec2::new(3, 3)));
    assert!(!a.point_in_rect(UVec2::new(4, 0)));
    assert!(!a.point_in_rect(UVec2::new(0, 4)));
}

#[test]
fn center_and_size() {
    let r = Rect::with_dimension(2, 4, 6, 8);
    assert_eq!(r.center(), UVec2::new(5, 8));
    assert_eq!(r.width(), 6);
    assert_eq!(r.height(), 8);
}

#[test]
fn empty_rect_yields_no_points() {
    let r = Rect::with_dimension(3, 3, 0, 5);
    assert_eq!(collect_points(&r), Vec::<UVec2>::new());
}
