use vacuum_salesman::geometry::{overlap, Rect, Side, SCALE};

fn units(n: i64) -> i64 {
    n * SCALE
}

fn rect(x: i64, y: i64, w: i64, h: i64) -> Rect {
    Rect { x: units(x), y: units(y), w: units(w), h: units(h) }
}

#[test]
fn disjoint_rects_do_not_overlap() {
    let a = rect(0, 0, 10, 10);
    let b = rect(100, 0, 10, 10);
    assert_eq!(overlap(&a, &b), None);
    assert_eq!(overlap(&b, &a), None);
}

#[test]
fn zero_overlap_on_one_axis_is_none() {
    // Overlapping vertically but exactly clear horizontally.
    let a = rect(0, 0, 10, 10);
    let b = rect(20, 3, 10, 10);
    assert_eq!(overlap(&a, &b), None);
    // Overlapping horizontally but clear vertically.
    let c = rect(2, 50, 10, 10);
    assert_eq!(overlap(&a, &c), None);
}

#[test]
fn edge_touching_is_not_overlap() {
    let a = rect(0, 0, 10, 10);
    let b = rect(10, 0, 10, 10);
    assert_eq!(overlap(&a, &b), None);
}

#[test]
fn left_contact_classified() {
    // `a` sticks out past `b`'s left edge: the side of `b` hit is Left.
    let a = rect(-8, 0, 10, 10);
    let b = rect(0, 0, 10, 10);
    assert_eq!(overlap(&a, &b), Some(Side::Left));
}

#[test]
fn right_contact_classified() {
    let a = rect(8, 0, 10, 10);
    let b = rect(0, 0, 10, 10);
    assert_eq!(overlap(&a, &b), Some(Side::Right));
}

#[test]
fn top_contact_classified() {
    let a = rect(0, 8, 10, 10);
    let b = rect(0, 0, 10, 10);
    assert_eq!(overlap(&a, &b), Some(Side::Top));
}

#[test]
fn bottom_contact_classified() {
    let a = rect(0, -8, 10, 10);
    let b = rect(0, 0, 10, 10);
    assert_eq!(overlap(&a, &b), Some(Side::Bottom));
}

#[test]
fn tie_prefers_horizontal_side() {
    // Equal penetration depth on both axes: the horizontal side wins.
    let a = rect(-8, -8, 10, 10);
    let b = rect(0, 0, 10, 10);
    assert_eq!(overlap(&a, &b), Some(Side::Left));
}

#[test]
fn smaller_penetration_axis_wins() {
    // Deep on x, shallow on y: the vertical side is reported.
    let a = rect(-2, -9, 10, 10);
    let b = rect(0, 0, 10, 10);
    assert_eq!(overlap(&a, &b), Some(Side::Bottom));
}

#[test]
fn contained_rect_is_inside() {
    let a = rect(0, 0, 4, 4);
    let b = rect(0, 0, 20, 20);
    assert_eq!(overlap(&a, &b), Some(Side::Inside));
}

#[test]
fn spanning_rect_is_inside() {
    // `a` spans `b` on both axes.
    let a = rect(0, 0, 40, 40);
    let b = rect(0, 0, 10, 10);
    assert_eq!(overlap(&a, &b), Some(Side::Inside));
}

#[test]
fn subunit_precision_contact() {
    // Fractional world coordinates are exact in subunits: half-unit
    // penetration classifies, half-unit clearance does not.
    let a = Rect { x: -10_500, y: 0, w: 10_000, h: 10_000 };
    let b = Rect { x: 0, y: 0, w: 10_000, h: 10_000 };
    assert_eq!(overlap(&a, &b), None);
    let c = Rect { x: -9_500, y: 0, w: 10_000, h: 10_000 };
    assert_eq!(overlap(&c, &b), Some(Side::Left));
}
