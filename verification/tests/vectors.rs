use cloth_sim::math::Vector2;

#[test]
fn construction_and_accessors() {
    let v = Vector2::new(3, -4);
    assert_eq!(v.x, 3);
    assert_eq!(v.y, -4);
    let w = Vector2::from((7, 9));
    assert_eq!(w, Vector2::new(7, 9));
    assert_eq!(Vector2::default(), Vector2::new(0, 0));
}

#[test]
fn componentwise_arithmetic() {
    let a = Vector2::new(1, 2);
    let b = Vector2::new(10, -20);
    assert_eq!(a.add(b), Vector2::new(11, -18));
    assert_eq!(a.sub(b), Vector2::new(-9, 22));
}

#[test]
fn magnitudes_are_exact_rounded_down() {
    assert_eq!(Vector2::new(3, 4).magnitude_squared(), 25);
    assert_eq!(Vector2::new(3, 4).magnitude(), 5);
    assert_eq!(Vector2::new(0, 0).magnitude(), 0);
    // Non-square magnitudes round down.
    assert_eq!(Vector2::new(1, 1).magnitude(), 1);
    assert_eq!(Vector2::new(-3, -4).magnitude(), 5);
}

#[test]
fn distance_between_vectors() {
    let a = Vector2::new(0, 0);
    let b = Vector2::new(3, 4);
    assert_eq!(a.distance(&b), 5);
    assert_eq!(b.distance(&a), 5);
    assert_eq!(a.distance(&a), 0);
}
