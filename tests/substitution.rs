use penrose::point::Point;
use penrose::tiling::{generate, refine};
use penrose::triangle::{RobinsonTriangle, RobinsonTriangleType};

const TYPES: [RobinsonTriangleType; 4] = [
    RobinsonTriangleType::ThinLeft,
    RobinsonTriangleType::ThinRight,
    RobinsonTriangleType::ThickLeft,
    RobinsonTriangleType::ThickRight,
];

const TOL: f64 = 1e-9;

/// Where an exact point lands on a screen whose origin is at (ox, oy), with
/// `scale` pixels per unit leg, the reference direction at angle `alpha`,
/// and y growing downward.
fn to_screen(p: &Point, ox: f64, oy: f64, scale: f64, alpha: f64) -> (f64, f64) {
    let c = p.coefficients();
    let mut re = 0.0;
    let mut im = 0.0;
    for (i, k) in c.iter().enumerate() {
        let a = alpha + (i as f64) * std::f64::consts::PI / 10.0;
        re += (*k as f64) * a.cos();
        im += (*k as f64) * a.sin();
    }
    (ox + scale * re, oy - scale * im)
}

fn plain(p: &Point) -> (f64, f64) {
    to_screen(p, 0.0, 0.0, 1.0, 0.0)
}

fn dist(a: (f64, f64), b: (f64, f64)) -> f64 {
    ((a.0 - b.0).powi(2) + (a.1 - b.1).powi(2)).sqrt()
}

fn area(t: &RobinsonTriangle) -> f64 {
    let (b1, b2) = t.base_points().unwrap();
    let (a, b, c) = (plain(&t.apex), plain(&b1), plain(&b2));
    ((b.0 - a.0) * (c.1 - a.1) - (c.0 - a.0) * (b.1 - a.1)).abs() / 2.0
}

fn phi() -> f64 {
    (1.0 + 5f64.sqrt()) / 2.0
}

fn seed(kind: RobinsonTriangleType, rotation: u32) -> RobinsonTriangle {
    RobinsonTriangle::from_parts(kind, Point::origin(), 0, rotation)
}

#[test]
fn angle_sum_is_a_straight_angle() {
    for kind in TYPES {
        let t = seed(kind, 0);
        assert_eq!(t.vertex_angle() + 2 * t.base_angle(), 10);
    }
    assert_eq!(seed(RobinsonTriangleType::ThinLeft, 0).vertex_angle(), 2);
    assert_eq!(seed(RobinsonTriangleType::ThickRight, 0).vertex_angle(), 6);
    assert_eq!(seed(RobinsonTriangleType::ThinRight, 0).base_angle(), 4);
    assert_eq!(seed(RobinsonTriangleType::ThickLeft, 0).base_angle(), 2);
}

#[test]
fn rotations_and_base_directions_stay_in_a_turn() {
    for kind in TYPES {
        for r in 0..20u32 {
            let t = seed(kind, r);
            let (d1, d2) = t.base_directions();
            assert!(d1 < 20 && d2 < 20);
            let (a, b) = t.decompose().unwrap();
            assert!(a.rotation < 20 && b.rotation < 20);
        }
    }
    let t = seed(RobinsonTriangleType::ThickLeft, 19);
    assert_eq!(t.base_directions(), (2, 16));
    let t = seed(RobinsonTriangleType::ThinLeft, 0);
    assert_eq!(t.base_directions(), (1, 19));
}

#[test]
fn rotation_wraps_at_construction() {
    let t = seed(RobinsonTriangleType::ThinLeft, 47);
    assert_eq!(t.rotation, 7);
}

#[test]
fn base_points_lie_at_leg_length() {
    for kind in TYPES {
        for r in 0..20u32 {
            for level in 0..4u32 {
                let t = RobinsonTriangle::from_parts(kind, Point::origin(), level, r);
                let (b1, b2) = t.base_points().unwrap();
                let leg = phi().powi(-(level as i32));
                let a = plain(&t.apex);
                assert!((dist(a, plain(&b1)) - leg).abs() < TOL);
                assert!((dist(a, plain(&b2)) - leg).abs() < TOL);
            }
        }
    }
}

#[test]
fn base_points_exact_values() {
    let t = RobinsonTriangle::new();
    let (b1, b2) = t.base_points().unwrap();
    assert_eq!(b1.coefficients(), [0, 1, 0, 0, 0, 0, 0, 0]);
    assert_eq!(b2.coefficients(), [0, 1, 0, -1, 0, 1, 0, -1]);
    let v = Point::leg(1, 0).unwrap();
    assert_eq!(v.coefficients(), [0, 0, 0, 0, 1, 0, -1, 0]);
}

#[test]
fn decompose_type_table() {
    let expect = [
        (RobinsonTriangleType::ThickRight, RobinsonTriangleType::ThinLeft),
        (RobinsonTriangleType::ThickLeft, RobinsonTriangleType::ThinRight),
        (RobinsonTriangleType::ThinRight, RobinsonTriangleType::ThickLeft),
        (RobinsonTriangleType::ThinLeft, RobinsonTriangleType::ThickRight),
    ];
    for (kind, (ea, eb)) in TYPES.iter().zip(expect.iter()) {
        let (a, b) = seed(*kind, 3).decompose().unwrap();
        assert_eq!(a.triangle_type, *ea);
        assert_eq!(b.triangle_type, *eb);
    }
}

#[test]
fn decompose_levels() {
    let (a, b) = seed(RobinsonTriangleType::ThinLeft, 0).decompose().unwrap();
    assert_eq!((a.level, b.level), (1, 1));
    let (a, b) = seed(RobinsonTriangleType::ThickRight, 0).decompose().unwrap();
    assert_eq!((a.level, b.level), (0, 1));
}

#[test]
fn area_is_conserved() {
    for kind in TYPES {
        for r in [0u32, 5, 13] {
            let t = RobinsonTriangle::from_parts(kind, Point::origin(), 2, r);
            let (a, b) = t.decompose().unwrap();
            assert!((area(&a) + area(&b) - area(&t)).abs() < TOL);
            assert!(area(&a) > 0.0 && area(&b) > 0.0);
        }
    }
}

#[test]
fn decompose_is_deterministic() {
    for kind in TYPES {
        let t = RobinsonTriangle::from_parts(kind, Point::leg(2, 7).unwrap(), 3, 11);
        assert_eq!(t.decompose(), t.decompose());
    }
}

#[test]
fn generation_doubles_the_set() {
    let seeds = vec![seed(RobinsonTriangleType::ThinLeft, 0), seed(RobinsonTriangleType::ThickRight, 4)];
    for n in 0..6u32 {
        let out = generate(&seeds, n).unwrap();
        assert_eq!(out.len(), seeds.len() << n);
    }
    assert_eq!(generate(&seeds, 0).unwrap(), seeds);
    let one = refine(&seeds).unwrap();
    let (a, b) = seeds[1].decompose().unwrap();
    assert_eq!((one[2], one[3]), (a, b));
}

#[test]
fn overflow_is_reported() {
    let t = RobinsonTriangle::from_parts(RobinsonTriangleType::ThinLeft, Point::origin(), u32::MAX, 0);
    assert_eq!(t.decompose(), None);
    let far = Point::new([i64::MAX; 8]);
    let t = RobinsonTriangle::from_parts(RobinsonTriangleType::ThickLeft, far, 0, 0);
    assert_eq!(t.base_points(), None);
    assert_eq!(generate(&vec![t], 1), None);
    assert_eq!(Point::leg(200, 0), None);
}

#[test]
fn seed_scenario() {
    let ox = 300.0;
    let oy = 350.0;
    let scale = 100.0;
    let alpha = std::f64::consts::PI / 4.0;
    let screen = |p: &Point| to_screen(p, ox, oy, scale, alpha);
    let t = RobinsonTriangle::new();
    assert_eq!(t.triangle_type, RobinsonTriangleType::ThinLeft);
    let apex = screen(&t.apex);
    assert!((apex.0 - 300.0).abs() < TOL && (apex.1 - 350.0).abs() < TOL);
    let (b1, b2) = t.base_points().unwrap();
    let (p1, p2) = (screen(&b1), screen(&b2));
    assert!((dist(apex, p1) - 100.0).abs() < 1e-7);
    assert!((dist(apex, p2) - 100.0).abs() < 1e-7);
    // the angle at the apex is 36 degrees
    let cos = ((p1.0 - apex.0) * (p2.0 - apex.0) + (p1.1 - apex.1) * (p2.1 - apex.1)) / 10000.0;
    assert!((cos - (std::f64::consts::PI / 5.0).cos()).abs() < TOL);
    // the first base vertex lies 18 degrees counterclockwise of pi/4, y down
    let a1 = alpha + std::f64::consts::PI / 10.0;
    assert!((p1.0 - (300.0 + 100.0 * a1.cos())).abs() < 1e-7);
    assert!((p1.1 - (350.0 - 100.0 * a1.sin())).abs() < 1e-7);

    let (a, b) = t.decompose().unwrap();
    assert_eq!(a.triangle_type, RobinsonTriangleType::ThickRight);
    assert_eq!(b.triangle_type, RobinsonTriangleType::ThinLeft);
    let leg = scale / phi();
    for c in [&a, &b] {
        let (q1, q2) = c.base_points().unwrap();
        let ap = screen(&c.apex);
        assert!((dist(ap, screen(&q1)) - leg).abs() < 1e-7);
        assert!((dist(ap, screen(&q2)) - leg).abs() < 1e-7);
    }
    // the children share the edge from the first base vertex to the split point
    let (a1b, a2b) = a.base_points().unwrap();
    let (_, b2b) = b.base_points().unwrap();
    assert_eq!(a2b, b.apex);
    assert_eq!(b2b, a.apex);
    assert_eq!(a1b, t.apex);
    assert_eq!(a2b, b1);
}
