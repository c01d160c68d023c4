use rnote_engine::geometry::{Aabb, Rectangle, Transform, Vec2, TF_UNIT};

fn rect_at_origin(w: i64, h: i64) -> Rectangle {
    Rectangle::new(Vec2::new(w, h), Transform::identity())
}

#[test]
fn identity_bounds() {
    let r = rect_at_origin(10, 20);
    let b = r.bounds();
    assert_eq!(b.mins, Vec2::new(0, 0));
    assert_eq!(b.maxs, Vec2::new(10, 20));
}

#[test]
fn translate_moves_bounds() {
    let mut r = rect_at_origin(10, 20);
    assert!(r.translate(Vec2::new(5, 7)));
    let b = r.bounds();
    assert_eq!(b.mins, Vec2::new(5, 7));
    assert_eq!(b.maxs, Vec2::new(15, 27));
}

#[test]
fn rotate_quarter_turn_about_origin() {
    let mut r = rect_at_origin(10, 20);
    // cos 90 deg = 0, sin 90 deg = 1 (scaled by TF_UNIT)
    assert!(r.rotate(0, TF_UNIT, Vec2::new(0, 0)));
    let b = r.bounds();
    assert_eq!(b.mins, Vec2::new(-20, 0));
    assert_eq!(b.maxs, Vec2::new(0, 10));
}

#[test]
fn scale_by_two() {
    let mut r = rect_at_origin(10, 20);
    assert!(r.scale(2 * TF_UNIT, 2 * TF_UNIT));
    let b = r.bounds();
    assert_eq!(b.mins, Vec2::new(0, 0));
    assert_eq!(b.maxs, Vec2::new(20, 40));
}

#[test]
fn sequence_translate_then_rotate() {
    // Incremental application and the directly composed transform agree.
    let mut incremental = rect_at_origin(10, 10);
    assert!(incremental.translate(Vec2::new(100, 0)));
    assert!(incremental.rotate(0, TF_UNIT, Vec2::new(0, 0)));

    let translated = Transform::compose(
        &Transform::translation(Vec2::new(100, 0)),
        &Transform::identity(),
    )
    .unwrap();
    let rot = Transform { m11: 0, m12: -TF_UNIT, m21: TF_UNIT, m22: 0, tx: 0, ty: 0 };
    let composed = Transform::compose(&rot, &translated).unwrap();
    let direct = Rectangle::new(Vec2::new(10, 10), composed);

    assert_eq!(incremental.bounds(), direct.bounds());
    // Rotating (100..110, 0..10) a quarter turn about the origin.
    let b = incremental.bounds();
    assert_eq!(b.mins, Vec2::new(-10, 100));
    assert_eq!(b.maxs, Vec2::new(0, 110));
}

#[test]
fn aabb_contains_and_intersection() {
    let outer = Aabb::new(Vec2::new(0, 0), Vec2::new(100, 100));
    let inner = Aabb::new(Vec2::new(10, 10), Vec2::new(20, 20));
    assert!(outer.contains(&inner));
    assert!(!inner.contains(&outer));
    let overlap = Aabb::new(Vec2::new(50, 50), Vec2::new(150, 150));
    let isect = outer.intersection(&overlap).unwrap();
    assert_eq!(isect.mins, Vec2::new(50, 50));
    assert_eq!(isect.maxs, Vec2::new(100, 100));
    let disjoint = Aabb::new(Vec2::new(200, 200), Vec2::new(300, 300));
    assert!(outer.intersection(&disjoint).is_none());
}

#[test]
fn translate_shifts_bounds_exactly_across_zero() {
    // A transform with a sub-unit residue (tx = 1/65536 of a unit): under
    // floor rounding, translating by (-1, 0) moves the bounds by exactly
    // (-1, 0), residue or not.
    let t = Transform { m11: TF_UNIT, m12: 0, m21: 0, m22: TF_UNIT, tx: 1, ty: 0 };
    let mut r = Rectangle::new(Vec2::new(2, 2), t);
    let before = r.bounds();
    assert_eq!(before.mins, Vec2::new(0, 0));
    assert!(r.translate(Vec2::new(-1, 0)));
    let after = r.bounds();
    assert_eq!(after.mins, Vec2::new(before.mins.x - 1, before.mins.y));
    assert_eq!(after.maxs, Vec2::new(before.maxs.x - 1, before.maxs.y));
}
