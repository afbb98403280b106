use orbitsim::fixed::Vec2;
use orbitsim::fixed::SCALE;
use orbitsim::orbitcurve::OrbitCurve;

#[test]
fn remove_oldest_plots() {
    let mut curve = OrbitCurve::new();
    curve.plots.push(Vec2 { x: 1 * SCALE, y: 0 });
    curve.plots.push(Vec2 { x: 2 * SCALE, y: 0 });
    curve.plots.push(Vec2 { x: 3 * SCALE, y: 0 });
    curve.plots.push(Vec2 { x: 4 * SCALE, y: 0 });

    curve.remove_oldest_plots(0);
    assert_eq!(curve.plots.len(), 4);
    assert_eq!(curve.plots[0].x, 1 * SCALE);

    curve.remove_oldest_plots(1);
    assert_eq!(curve.plots.len(), 3);
    assert_eq!(curve.plots[0].x, 2 * SCALE);

    curve.remove_oldest_plots(2);
    assert_eq!(curve.plots.len(), 1);
    assert_eq!(curve.plots[0].x, 4 * SCALE);

    curve.remove_oldest_plots(500);
    assert_eq!(curve.plots.len(), 0);
}

#[test]
fn with_minimum_plot_distance() {
    let mut curve = OrbitCurve::new();
    for i in 0..900 {
        curve.plots.push(Vec2 { x: i * SCALE, y: i * SCALE });
    }

    // ie bigger than 2 * sqrt(2)
    let filtered = curve.with_minimum_plot_distance(2_900_000_000);

    assert_eq!(filtered.plots.len(), 300);
    assert_eq!(filtered.plots[0].x, 0);
    assert_eq!(filtered.plots[1].x, 3 * SCALE);
    assert_eq!(filtered.plots[2].x, 6 * SCALE);
    assert_eq!(filtered.plots[3].x, 9 * SCALE);
}

#[test]
fn reduced_points_keep_minimum_spacing() {
    // an unevenly accelerating line still reduces to spaced-out points
    let mut curve = OrbitCurve::new();
    let mut x: i64 = 0;
    for i in 0..500 {
        x += 1_000_000 + i * 10_000;
        curve.plots.push(Vec2 { x, y: 0 });
    }
    let min_d: i64 = 50_000_000;
    let filtered = curve.with_minimum_plot_distance(min_d);
    assert!(filtered.plots.len() >= 2);
    for k in 1..filtered.plots.len() {
        let dx = (filtered.plots[k].x - filtered.plots[k - 1].x) as i128;
        let dy = (filtered.plots[k].y - filtered.plots[k - 1].y) as i128;
        assert!(dx * dx + dy * dy >= (min_d as i128) * (min_d as i128));
    }
}

#[test]
fn reduced_head_is_input_head() {
    let mut curve = OrbitCurve::new();
    curve.plots.push(Vec2 { x: 7 * SCALE, y: -3 * SCALE });
    curve.plots.push(Vec2 { x: 8 * SCALE, y: -3 * SCALE });
    curve.plots.push(Vec2 { x: 9 * SCALE, y: -3 * SCALE });
    let filtered = curve.with_minimum_plot_distance(10 * SCALE);
    assert_eq!(filtered.plots.len(), 1);
    assert_eq!(filtered.plots[0], Vec2 { x: 7 * SCALE, y: -3 * SCALE });
}

#[test]
fn is_drawable_needs_more_than_three_plots() {
    let mut curve = OrbitCurve::new();
    for i in 0..3 {
        curve.plots.push(Vec2 { x: i, y: 0 });
    }
    assert!(!curve.is_drawable());
    curve.plots.push(Vec2 { x: 3, y: 0 });
    assert!(curve.is_drawable());
}

#[test]
fn reducing_a_single_plot_keeps_it() {
    let mut curve = OrbitCurve::new();
    curve.plots.push(Vec2 { x: 5, y: 5 });
    curve.opacity = SCALE / 4;
    let filtered = curve.with_minimum_plot_distance(SCALE);
    assert_eq!(filtered.plots.len(), 1);
    assert_eq!(filtered.plots[0], Vec2 { x: 5, y: 5 });
    assert_eq!(filtered.opacity, SCALE / 4);
}
