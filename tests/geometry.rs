use chart_geometry::radial::radial_figure;
use chart_geometry::transform::{AffineTransform, AxisMap, Frac, Point};
use chart_geometry::vec2d::Vec2D;

fn same(a: Frac, b: Frac) -> bool {
    a.num * b.den == b.num * a.den
}

#[test]
fn vec2d_add_is_componentwise() {
    let r = Vec2D { x: 3, y: -4 }.add(Vec2D { x: 10, y: 20 });
    assert_eq!(r, Vec2D { x: 13, y: 16 });
}

#[test]
fn vec2d_mul_scales_both_components() {
    let r = Vec2D { x: 3, y: -4 }.mul(-5);
    assert_eq!(r, Vec2D { x: -15, y: 20 });
}

fn sample_transform() -> AffineTransform {
    // x |-> (400 x + 482_000) / 1640, y |-> (-400 y + 238_500) / 530
    AffineTransform {
        x: AxisMap { m: 400, b: 482_000, d: 1640 },
        y: AxisMap { m: -400, b: 238_500, d: 530 },
    }
}

#[test]
fn transform_apply_is_exact() {
    let t = sample_transform();
    let p = t.apply(&Point::from_ints(-1000, 0));
    assert!(same(p.x, Frac { num: 50, den: 1 }));
    assert!(same(p.y, Frac { num: 450, den: 1 }));
    let q = t.apply(&Point::from_ints(640, 530));
    assert!(same(q.x, Frac { num: 450, den: 1 }));
    assert!(same(q.y, Frac { num: 50, den: 1 }));
}

#[test]
fn transform_inverse_undoes_apply() {
    let t = sample_transform();
    for &(x, y) in &[(-1000, 0), (-166, 244), (500, 100), (7, -3), (123_456, -98_765)] {
        let p = Point::from_ints(x, y);
        let back = t.invert().apply(&t.apply(&p));
        assert!(same(back.x, p.x));
        assert!(same(back.y, p.y));
        assert!(back.x.den > 0 && back.y.den > 0);
    }
}

#[test]
fn transform_apply_inverse_maps_screen_to_data() {
    let t = sample_transform();
    let d = t.apply_inverse(&Point::from_ints(450, 50));
    assert!(same(d.x, Frac { num: 640, den: 1 }));
    assert!(same(d.y, Frac { num: 530, den: 1 }));
    let inv = t.invert();
    assert_eq!(inv.x, AxisMap { m: 1640, b: -482_000, d: 400 });
    assert_eq!(inv.y, AxisMap { m: -530, b: 238_500, d: 400 });
}

#[test]
fn radial_single_line_hits_segment_midpoints() {
    let f = radial_figure(500, 1);
    assert_eq!(f.center, 250);
    assert_eq!(f.lower_border, 25);
    assert_eq!(f.higher_border, 475);
    assert_eq!(f.scale, 4);
    assert_eq!(f.points.len(), 4);
    let pts: Vec<(f64, f64)> = f
        .points
        .iter()
        .map(|p| (p.x as f64 / f.scale as f64, p.y as f64 / f.scale as f64))
        .collect();
    assert_eq!(pts, vec![(362.5, 137.5), (137.5, 137.5), (137.5, 362.5), (362.5, 362.5)]);
}

#[test]
fn radial_emits_four_points_per_line_on_the_border() {
    for &(size, n) in &[(1i64, 1i64), (11, 3), (500, 100), (999, 7), (1000, 200)] {
        let f = radial_figure(size, n);
        assert_eq!(f.points.len() as i64, 4 * n);
        let c = f.scale * f.center;
        let radius = (n + 1) * (size - 2 * f.lower_border);
        assert!(radius > 0);
        for p in &f.points {
            assert_eq!((p.x - c).abs() + (p.y - c).abs(), radius);
            assert!(p.x != c && p.y != c);
        }
    }
}

#[test]
fn radial_borders_round_to_nearest() {
    let f = radial_figure(10, 1);
    assert_eq!(f.lower_border, 1);
    assert_eq!(f.higher_border, 10);
    let g = radial_figure(11, 1);
    assert_eq!(g.center, 5);
    assert_eq!(g.lower_border, 1);
    assert_eq!(g.higher_border, 10);
    let h = radial_figure(9, 2);
    assert_eq!(h.lower_border, 0);
    assert_eq!(h.higher_border, 9);
}

#[test]
fn radial_points_go_group_by_group() {
    let f = radial_figure(400, 3);
    // first segment runs from the right end of the x half-axis to the top
    let first: Vec<(f64, f64)> = f.points[0..3]
        .iter()
        .map(|p| (p.x as f64 / f.scale as f64, p.y as f64 / f.scale as f64))
        .collect();
    assert_eq!(first, vec![(335.0, 155.0), (290.0, 110.0), (245.0, 65.0)]);
}
