use termrender::math::Vec2;
use termrender::physics::{CollisionCheck, AABB};

#[test]
fn order() {
    let v1 = Vec2::from((1, 0));
    let v2 = Vec2::from((1, 3));
    println!("{}", v1 < v2)
}

#[test]
fn lexicographic_order() {
    assert!(Vec2::from((1, 0)) < Vec2::from((1, 3)));
    assert!(Vec2::from((0, 9)) < Vec2::from((1, 0)));
    assert!(!(Vec2::from((2, 0)) < Vec2::from((1, 5))));
    assert!(Vec2::from((1, 1)) <= Vec2::from((1, 1)));
}

#[test]
fn arithmetic() {
    let a = Vec2::new(1, 2);
    let b = Vec2::new(3, -4);
    assert_eq!(a + b, Vec2::new(4, -2));
    assert_eq!((a + b) - b, a);
    let mut c = a;
    c += b;
    assert_eq!(c, Vec2::new(4, -2));
    c -= b;
    assert_eq!(c, a);
    assert_eq!(Vec2::from(7i32), Vec2::new(7, 7));
    assert_eq!(Vec2::from((3u16, 4u16)), Vec2::new(3, 4));
    assert_eq!(Vec2::default(), Vec2::new(0, 0));
}

#[test]
fn cells_truncate() {
    assert_eq!(Vec2::new(-1, 70000).to_cell(), (65535, 4464));
    assert_eq!(Vec2::new(5, 6).to_cell(), (5, 6));
}

#[test]
fn boxes_are_normalised() {
    let b = AABB::new(Vec2::new(5, 1), Vec2::new(2, 7));
    assert_eq!(b.cor1, Vec2::new(2, 1));
    assert_eq!(b.cor2, Vec2::new(5, 7));
    let (tl, tr, br, bl) = b.get_corners();
    assert_eq!(tl, Vec2::new(2, 1));
    assert_eq!(tr, Vec2::new(5, 1));
    assert_eq!(br, Vec2::new(5, 7));
    assert_eq!(bl, Vec2::new(2, 7));
}

#[test]
fn collisions() {
    let a = AABB::new(Vec2::new(0, 0), Vec2::new(3, 3));
    let b = AABB::new(Vec2::new(3, 3), Vec2::new(6, 6));
    let c = AABB::new(Vec2::new(4, 0), Vec2::new(6, 2));
    assert!(a.is_colliding(&b));
    assert!(b.is_colliding(&a));
    assert!(a.is_colliding(&a));
    assert!(!a.is_colliding(&c));
    assert!(!c.is_colliding(&a));
    let shift = Vec2::new(10, -2);
    assert!((a + shift).is_colliding(&(b + shift)));
    assert!(!(a + shift).is_colliding(&(c + shift)));
    let mut m = a;
    m += shift;
    assert_eq!(m, a + shift);
    assert_eq!(AABB::from(2), AABB::new(Vec2::new(0, 0), Vec2::new(2, 2)));
    assert_eq!(a + b, AABB::new(Vec2::new(3, 3), Vec2::new(9, 9)));
}
