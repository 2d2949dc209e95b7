use softraster::canvas::Canvas;
use softraster::raster::{barycentric, bounding_box, rasterize, Barycentric, BoundingBox, ScreenPoint};

fn pt(x: i32, y: i32) -> ScreenPoint {
    ScreenPoint::new(x, y)
}

fn weights(w: &Barycentric) -> (f64, f64, f64) {
    let d = w.denom as f64;
    (w.w0 as f64 / d, w.w1 as f64 / d, w.w2 as f64 / d)
}

#[test]
fn barycentric_at_vertices() {
    let (a, b, c) = (pt(10, 20), pt(70, 25), pt(30, 90));
    assert_eq!(weights(&barycentric(&a, &a, &b, &c)), (1.0, 0.0, 0.0));
    assert_eq!(weights(&barycentric(&b, &a, &b, &c)), (0.0, 1.0, 0.0));
    assert_eq!(weights(&barycentric(&c, &a, &b, &c)), (0.0, 0.0, 1.0));
}

#[test]
fn barycentric_at_centroid() {
    let (a, b, c) = (pt(0, 0), pt(9, 0), pt(0, 9));
    let g = pt(3, 3);
    let w = barycentric(&g, &a, &b, &c);
    assert_eq!(w.w0, w.w1);
    assert_eq!(w.w1, w.w2);
    assert_eq!(3 * w.w0, w.denom);
    let (x, y, z) = weights(&w);
    assert!((x - 1.0 / 3.0).abs() < 1e-12 && (y - 1.0 / 3.0).abs() < 1e-12 && (z - 1.0 / 3.0).abs() < 1e-12);
}

#[test]
fn barycentric_weights_sum_to_one() {
    let (a, b, c) = (pt(-5, 3), pt(40, -7), pt(12, 33));
    for x in -10..50 {
        for y in -10..40 {
            let w = barycentric(&pt(x, y), &a, &b, &c);
            assert!(w.denom > 0);
            assert_eq!(w.w0 + w.w1 + w.w2, w.denom);
        }
    }
}

#[test]
fn barycentric_orientation_does_not_matter() {
    let p = pt(3, 2);
    let w1 = barycentric(&p, &pt(0, 0), &pt(10, 0), &pt(0, 10));
    let w2 = barycentric(&p, &pt(0, 0), &pt(0, 10), &pt(10, 0));
    assert!(w1.is_inside() && w2.is_inside());
    assert_eq!(w1.denom, w2.denom);
    assert_eq!((w1.w0, w1.w1, w1.w2), (w2.w0, w2.w2, w2.w1));
}

#[test]
fn barycentric_degenerate_is_rejected() {
    let w = barycentric(&pt(1, 1), &pt(0, 0), &pt(1, 1), &pt(2, 2));
    assert_eq!(w, Barycentric { w0: -1, w1: 0, w2: -1, denom: 1 });
    assert!(!w.is_inside());
}

#[test]
fn barycentric_outside_point() {
    let w = barycentric(&pt(20, 20), &pt(0, 0), &pt(10, 0), &pt(0, 10));
    assert!(!w.is_inside());
    assert_eq!((w.w0, w.denom), (-300, 100));
}

#[test]
fn barycentric_extreme_coordinates() {
    let a = pt(i32::MIN, i32::MIN);
    let b = pt(i32::MAX, i32::MIN);
    let c = pt(i32::MIN, i32::MAX);
    let w = barycentric(&a, &a, &b, &c);
    assert_eq!((w.w0, w.w1, w.w2), (w.denom, 0, 0));
}

#[test]
fn bounding_box_is_clamped() {
    let bb = bounding_box(&pt(-5, 3), &pt(20, 8), &pt(4, 40), 10, 30).unwrap();
    assert_eq!(bb, BoundingBox { min_x: 0, max_x: 9, min_y: 3, max_y: 29 });
}

#[test]
fn bounding_box_outside_canvas_is_empty() {
    assert_eq!(bounding_box(&pt(-9, -9), &pt(-2, -3), &pt(-5, -1), 10, 10), None);
    assert_eq!(bounding_box(&pt(10, 0), &pt(12, 3), &pt(15, 5), 10, 10), None);
    assert_eq!(bounding_box(&pt(0, 0), &pt(1, 1), &pt(0, 1), 0, 10), None);
}

#[test]
fn rasterize_collinear_writes_nothing() {
    assert!(rasterize(&pt(0, 0), &pt(5, 5), &pt(9, 9), 20, 20).is_empty());
    assert!(rasterize(&pt(3, 4), &pt(3, 4), &pt(3, 4), 20, 20).is_empty());
    assert!(rasterize(&pt(1, 7), &pt(5, 7), &pt(12, 7), 20, 20).is_empty());
}

#[test]
fn rasterize_small_triangle() {
    let f = rasterize(&pt(0, 0), &pt(2, 0), &pt(0, 2), 10, 10);
    let pixels: Vec<(usize, usize)> = f.iter().map(|f| (f.x, f.y)).collect();
    assert_eq!(pixels, vec![(0, 0), (0, 1), (0, 2), (1, 0), (1, 1), (2, 0)]);
    for frag in &f {
        assert!(frag.weights.is_inside());
        assert_eq!(frag.weights, barycentric(&pt(frag.x as i32, frag.y as i32), &pt(0, 0), &pt(2, 0), &pt(0, 2)));
    }
}

#[test]
fn rasterize_clips_to_canvas() {
    let f = rasterize(&pt(-10, -10), &pt(30, -10), &pt(-10, 30), 4, 3);
    assert_eq!(f.len(), 12);
    assert!(f.iter().all(|f| f.x < 4 && f.y < 3));
}

#[test]
fn rasterize_outside_canvas_is_empty() {
    assert!(rasterize(&pt(-30, -30), &pt(-10, -30), &pt(-20, -5), 10, 10).is_empty());
}

fn ndc_to_screen(x: f32, y: f32, w: usize, h: usize) -> ScreenPoint {
    let hw = (w / 2) as f32;
    let hh = (h / 2) as f32;
    pt((hw * x + hw) as i32, (hh * y + hh) as i32)
}

#[test]
fn single_white_triangle_scenario() {
    let (w, h) = (1000usize, 1000usize);
    let a = ndc_to_screen(-0.5, -0.5, w, h);
    let b = ndc_to_screen(0.5, -0.5, w, h);
    let c = ndc_to_screen(0.0, 0.5, w, h);
    assert_eq!((a, b, c), (pt(250, 250), pt(750, 250), pt(500, 750)));
    let mut canvas = Canvas::new(w, h);
    let frags = rasterize(&a, &b, &c, w, h);
    assert!(!frags.is_empty());
    for f in &frags {
        // texel (1,1,1,1) times intensity dot((0,0,1),(0,0,1)) = 1, scaled to 255
        let shade = 1.0f32 * 1.0f32;
        let v = (shade * 255.0) as u8;
        assert!(canvas.write_if_closer(f.x, f.y, 0.5f32.to_bits(), &[v, v, v]));
    }
    assert_eq!(canvas.read_color(500, 400), [255, 255, 255]);
    assert_eq!(canvas.read_color(250, 250), [255, 255, 255]);
    assert_eq!(canvas.read_color(500, 750), [255, 255, 255]);
    assert_eq!(canvas.read_color(249, 250), [0, 0, 0]);
    assert_eq!(canvas.read_color(260, 700), [0, 0, 0]);
    assert_eq!(canvas.read_color(500, 751), [0, 0, 0]);
    let mut written = 0usize;
    for x in 0..w {
        for y in 0..h {
            if canvas.read_color(x, y) == [255, 255, 255] {
                written += 1;
                let bc = barycentric(&pt(x as i32, y as i32), &a, &b, &c);
                assert!(bc.is_inside());
            } else {
                assert_eq!(canvas.read_depth(x, y), 0);
            }
        }
    }
    assert_eq!(written, frags.len());
}
