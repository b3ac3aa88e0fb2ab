use chart_geometry::chart::{
    build_layout, clamp_coord, crosshair, marker_radius, set_selected, sort_by_x, Canvas,
    ChartError, DataSample,
};
use chart_geometry::input::slider_value;
use chart_geometry::transform::Frac;

fn same(a: Frac, b: Frac) -> bool {
    a.num * b.den == b.num * a.den
}

fn whole(v: i128) -> Frac {
    Frac { num: v, den: 1 }
}

/// The sample data in hundredths.
fn sample_data() -> Vec<DataSample> {
    vec![
        DataSample { x: -1000, y: 0 },
        DataSample { x: -166, y: 244 },
        DataSample { x: 500, y: 100 },
        DataSample { x: 640, y: 500 },
        DataSample { x: -800, y: 380 },
        DataSample { x: 190, y: 530 },
    ]
}

fn canvas() -> Canvas {
    Canvas { width: 500, height: 500, padding: 50 }
}

#[test]
fn sort_orders_by_x_and_keeps_ties() {
    let mut d = vec![
        DataSample { x: 3, y: 0 },
        DataSample { x: 1, y: 1 },
        DataSample { x: 3, y: 2 },
        DataSample { x: -2, y: 3 },
        DataSample { x: 1, y: 4 },
    ];
    sort_by_x(&mut d);
    let ys: Vec<i64> = d.iter().map(|s| s.y).collect();
    assert_eq!(ys, vec![3, 1, 4, 0, 2]);
}

#[test]
fn sample_chart_layout() {
    let mut data = sample_data();
    sort_by_x(&mut data);
    assert_eq!(data[0], DataSample { x: -1000, y: 0 });
    let l = build_layout(&data, &canvas(), 100).unwrap();
    assert_eq!(l.bounds.min_x, -1000);
    assert_eq!(l.bounds.max_x, 640);
    assert_eq!(l.bounds.min_y, 0);
    assert_eq!(l.bounds.max_y, 530);
    // 400 pixels over 16.4 data units
    let scale_x = l.transform.x.m as f64 / l.transform.x.d as f64 * 100.0;
    assert!((scale_x - 24.39).abs() < 0.01);
    assert!(same(l.points[0].x, whole(50)));
    assert!(same(l.points[0].y, whole(450)));
    assert!(same(l.points[5].x, whole(450)));
    assert_eq!(l.points.len(), 6);
    assert_eq!(l.segments.len(), 5);
    assert_eq!(l.segments[2].start, l.points[2]);
    assert_eq!(l.segments[2].end, l.points[3]);
}

#[test]
fn sample_chart_ticks() {
    let mut data = sample_data();
    sort_by_x(&mut data);
    let l = build_layout(&data, &canvas(), 100).unwrap();
    let xs: Vec<i64> = l.x_ticks.iter().map(|t| t.value).collect();
    assert_eq!(xs, (-10..7).map(|v| v * 100).collect::<Vec<i64>>());
    let ys: Vec<i64> = l.y_ticks.iter().map(|t| t.value).collect();
    assert_eq!(ys, vec![0, 100, 200, 300, 400, 500]);
    assert!(same(l.x_ticks[0].pos, whole(50)));
    assert!(same(l.y_ticks[0].pos, whole(450)));
    assert!(same(l.y_ticks[5].pos, Frac { num: 450 * 530 - 400 * 500, den: 530 }));
}

#[test]
fn ticks_start_at_the_first_multiple() {
    let data = vec![DataSample { x: -166, y: 15 }, DataSample { x: 190, y: 300 }];
    let l = build_layout(&data, &canvas(), 100).unwrap();
    let xs: Vec<i64> = l.x_ticks.iter().map(|t| t.value).collect();
    assert_eq!(xs, vec![-100, 0, 100]);
    let ys: Vec<i64> = l.y_ticks.iter().map(|t| t.value).collect();
    assert_eq!(ys, vec![100, 200]);
}

#[test]
fn screen_points_keep_x_order() {
    let mut data = sample_data();
    sort_by_x(&mut data);
    let l = build_layout(&data, &canvas(), 100).unwrap();
    for w in l.points.windows(2) {
        assert!(w[0].x.num * w[1].x.den <= w[1].x.num * w[0].x.den);
    }
}

#[test]
fn layout_points_map_back_to_samples() {
    let mut data = sample_data();
    sort_by_x(&mut data);
    let l = build_layout(&data, &canvas(), 100).unwrap();
    let inverse = l.transform.invert();
    for (point, sample) in l.points.iter().zip(data.iter()) {
        let back = inverse.apply(point);
        assert!(same(back.x, whole(sample.x as i128)));
        assert!(same(back.y, whole(sample.y as i128)));
    }
}

#[test]
fn empty_data_is_rejected() {
    let r = build_layout(&Vec::new(), &canvas(), 100);
    assert_eq!(r, Err(ChartError::EmptyDataset));
}

#[test]
fn single_value_range_uses_unit_scale() {
    let data = vec![DataSample { x: 7, y: 3 }, DataSample { x: 7, y: 9 }];
    let l = build_layout(&data, &canvas(), 1).unwrap();
    assert!(same(l.points[0].x, whole(50)));
    assert!(same(l.points[1].x, whole(50)));
    assert!(same(l.points[0].y, whole(450)));
    assert!(same(l.points[1].y, whole(50)));
    assert_eq!(l.x_ticks.len(), 0);
}

#[test]
fn single_sample_has_no_segments() {
    let data = vec![DataSample { x: 1, y: 1 }];
    let l = build_layout(&data, &canvas(), 1).unwrap();
    assert_eq!(l.points.len(), 1);
    assert_eq!(l.segments.len(), 0);
    assert!(same(l.points[0].x, whole(50)));
    assert!(same(l.points[0].y, whole(450)));
}

#[test]
fn crosshair_clamps_to_the_plot_area() {
    let mut data = sample_data();
    sort_by_x(&mut data);
    let l = build_layout(&data, &canvas(), 100).unwrap();
    let c = crosshair(&l, &canvas(), true, 1000, -20).unwrap();
    assert_eq!((c.x, c.y), (450, 50));
    assert!(same(c.value.x, whole(640)));
    assert!(same(c.value.y, whole(530)));
    let d = crosshair(&l, &canvas(), true, 3, 499).unwrap();
    assert_eq!((d.x, d.y), (50, 450));
    assert!(same(d.value.x, whole(-1000)));
    assert!(same(d.value.y, whole(0)));
    let e = crosshair(&l, &canvas(), true, 250, 250).unwrap();
    assert_eq!((e.x, e.y), (250, 250));
    assert!(same(e.value.x, whole(-180)));
    assert!(same(e.value.y, whole(265)));
    assert_eq!(crosshair(&l, &canvas(), false, 250, 250), None);
}

#[test]
fn clamp_coord_bounds() {
    assert_eq!(clamp_coord(-7, 0, 10), 0);
    assert_eq!(clamp_coord(17, 0, 10), 10);
    assert_eq!(clamp_coord(4, 0, 10), 4);
}

#[test]
fn selecting_keeps_a_single_sample() {
    let mut flags = vec![false; 6];
    set_selected(&mut flags, 2, true);
    assert_eq!(flags, vec![false, false, true, false, false, false]);
    set_selected(&mut flags, 4, true);
    assert_eq!(flags, vec![false, false, false, false, true, false]);
    set_selected(&mut flags, 4, false);
    assert_eq!(flags, vec![false; 6]);
}

#[test]
fn selected_marker_is_larger() {
    assert_eq!(marker_radius(true), 10);
    assert_eq!(marker_radius(false), 5);
}

#[test]
fn slider_text_is_checked() {
    assert_eq!(slider_value(500, "300", 1, 1000), 300);
    assert_eq!(slider_value(500, "1000", 1, 1000), 1000);
    assert_eq!(slider_value(500, "1001", 1, 1000), 500);
    assert_eq!(slider_value(500, "0", 1, 1000), 500);
    assert_eq!(slider_value(500, "", 1, 1000), 500);
    assert_eq!(slider_value(500, "12a", 1, 1000), 500);
    assert_eq!(slider_value(500, "-3", 1, 1000), 500);
    assert_eq!(slider_value(100, "99999999999999999999999", 1, 200), 100);
    assert_eq!(slider_value(100, "007", 1, 200), 7);
}
