use blithaven::{App, Color, Options, Vertex};

const BLUE: Color = Color { r: 0, g: 0, b: 255 };

fn positions(v: &[Vertex]) -> Vec<(i64, i64)> {
    v.iter().map(|p| (p.x, p.y)).collect()
}

#[test]
fn new_app_state() {
    let app = App::new(500, 300);
    assert_eq!(app.get_dims(), [500, 300]);
    assert!(app.uses_pixel_coords());
    assert!(app.batch().vertex_buffer().is_empty());
    assert!(app.texture_batches().is_empty());
    let o = Options::new(5, 6);
    assert!(o.use_pixel_space);
    assert_eq!((o.window_width, o.window_height), (5, 6));
}

#[test]
fn use_pixel_coords_switches_mapping() {
    let mut app = App::new(100, 100);
    app.use_pixel_coords(false);
    assert!(!app.uses_pixel_coords());
    app.rect([1, 1], 25, 25, BLUE);
    // Position (1, 1) and size 25 by 25, both in normalized units, over 100.
    assert_eq!(positions(app.batch().vertex_buffer()), vec![(100, 100), (2600, 100), (2600, -2400), (100, -2400)]);
}

#[test]
fn circle_is_one_masked_quad_around_center() {
    let mut app = App::new(100, 100);
    app.circle([50, 40], 10, BLUE);
    let v = app.batch().vertex_buffer();
    assert_eq!(v.len(), 4);
    assert!(v.iter().all(|p| p.style == 1));
    assert_eq!(positions(v), vec![(160, -120), (240, -120), (240, -200), (160, -200)]);
}

#[test]
fn rect_and_square() {
    let mut a = App::new(100, 100);
    a.rect([0, 0], 10, 10, BLUE);
    let mut b = App::new(100, 100);
    b.square([0, 0], 10, BLUE);
    assert_eq!(a.batch().vertex_buffer(), b.batch().vertex_buffer());
    assert!(a.batch().vertex_buffer().iter().all(|p| p.style == 0 && p.variator == 0));
}

#[test]
fn line_is_banded_quad() {
    let mut app = App::new(100, 100);
    app.line([10, 10], [30, 50], 25, BLUE);
    let v = app.batch().vertex_buffer();
    assert_eq!(v.len(), 4);
    assert!(v.iter().all(|p| p.style == 2 && p.variator == 25));
    assert_eq!(positions(v), vec![(40, -40), (120, -40), (120, -200), (40, -200)]);
}

#[test]
fn triangle_repeats_first_corner() {
    let mut app = App::new(100, 100);
    app.triangle([0, 0], [10, 0], [0, 10], BLUE);
    let v = app.batch().vertex_buffer();
    assert_eq!(positions(v), vec![(0, 0), (40, 0), (0, -40), (0, 0)]);
    assert_eq!(app.batch().index_buffer().clone(), vec![0, 1, 2, 0, 3, 2]);
}

#[test]
fn polygon_square_covers_rect() {
    let points = vec![0, 0, 10, 0, 10, 10, 0, 10];
    let coords: Vec<f64> = points.iter().map(|&p| p as f64).collect();
    let triangles = earcutr::earcut(&coords, &[], 2).unwrap();
    assert_eq!(triangles.len(), 6);
    let mut poly = App::new(100, 100);
    poly.polygon(points, triangles, BLUE);
    let mut rect = App::new(100, 100);
    rect.rect([0, 0], 10, 10, BLUE);
    let pv = poly.batch().vertex_buffer();
    let rv = rect.batch().vertex_buffer();
    assert_eq!(pv.len(), 8);
    assert_eq!(poly.batch().index_buffer().len(), 12);
    assert_eq!(rv.len(), 4);
    let corners = positions(rv);
    assert!(positions(pv).iter().all(|p| corners.contains(p)));
    // Each triangle is half of the box (twice its area is 40 * 40), and the two
    // halves together use all four corners, so they tile it.
    let area2 = |t: &[(i64, i64)]| {
        ((t[1].0 - t[0].0) * (t[2].1 - t[0].1) - (t[2].0 - t[0].0) * (t[1].1 - t[0].1)).abs()
    };
    let pp = positions(pv);
    assert_eq!(area2(&pp[0..3]), 1600);
    assert_eq!(area2(&pp[4..7]), 1600);
    for c in &corners {
        assert!(pp.contains(c));
    }
}

#[test]
fn polygon_skips_out_of_range_and_partial_triangles() {
    let mut app = App::new(100, 100);
    app.polygon(vec![0, 0, 10, 0, 10, 10, 7], vec![0, 1, 3, 0, 1, 2, 0, 1], BLUE);
    let v = app.batch().vertex_buffer();
    assert_eq!(v.len(), 4);
    assert_eq!(positions(v), vec![(0, 0), (40, 0), (40, -40), (0, 0)]);
}

#[test]
fn polygon_with_too_few_points_adds_nothing() {
    let mut app = App::new(100, 100);
    app.polygon(vec![0, 0, 10, 0], vec![], BLUE);
    assert!(app.batch().vertex_buffer().is_empty());
}

#[test]
fn texture_quad_same_path_one_batch() {
    let mut app = App::new(100, 100);
    assert_eq!(app.texture_quad([0, 0], 8, 8, "a.png"), Some(0));
    assert_eq!(positions(app.texture_batches()[0].batch().vertex_buffer()), vec![(0, 0), (32, 0), (32, -32), (0, -32)]);
    assert_eq!(app.texture_quad([1, 1], 8, 8, "a.png"), None);
    assert_eq!(app.texture_batches().len(), 1);
    let v = app.texture_batches()[0].batch().vertex_buffer();
    assert_eq!(v.len(), 8);
    assert_eq!(app.texture_batches()[0].batch().index_buffer().len(), 12);
    assert!(v.iter().all(|p| p.color == Color { r: 255, g: 255, b: 255 } && p.style == 0));
}

#[test]
fn texture_quad_different_paths_two_batches() {
    let mut app = App::new(100, 100);
    assert_eq!(app.texture_quad([0, 0], 8, 8, "a.png"), Some(0));
    assert_eq!(app.texture_quad([0, 0], 8, 8, "b.png"), Some(1));
    app.texture_quad([0, 0], 8, 8, "b.png");
    app.texture_quad([0, 0], 8, 8, "b.png");
    app.texture_quad([0, 0], 8, 8, "a.png");
    assert_eq!(app.texture_batches().len(), 2);
    assert_eq!(app.texture_batches()[0].path().as_str(), "a.png");
    assert_eq!(app.texture_batches()[1].path().as_str(), "b.png");
    let frame = app.finish(None, 100, 100);
    assert_eq!(frame.textures.len(), 2);
    assert_eq!(frame.textures[0][0].vertices.len(), 8);
    assert_eq!(frame.textures[1][0].vertices.len(), 12);
}

#[test]
fn add_texture_is_idempotent_by_path() {
    let mut app = App::new(100, 100);
    assert_eq!(app.add_texture("x.png", "x"), Some(0));
    assert_eq!(app.add_texture("x.png", "other"), None);
    assert_eq!(app.add_texture("y.png", "x"), Some(1));
    assert_eq!(app.texture_quad([0, 0], 1, 1, "y.png"), None);
    assert_eq!(app.texture_batches().len(), 2);
}

#[test]
fn finish_flushes_everything_in_order() {
    let mut app = App::new(100, 100);
    app.rect([0, 0], 10, 10, BLUE);
    app.circle([20, 20], 5, BLUE);
    app.add_texture("t.png", "t");
    app.texture_quad([0, 0], 4, 4, "t.png");
    let frame = app.finish(None, 100, 100);
    assert_eq!(frame.batch.len(), 1);
    assert_eq!(frame.batch[0].vertices.len(), 8);
    assert_eq!(frame.batch[0].indices, vec![0, 1, 2, 0, 3, 2, 4, 5, 6, 4, 7, 6]);
    assert_eq!(frame.textures.len(), 1);
    assert_eq!(frame.textures[0].len(), 1);
    assert!(app.batch().vertex_buffer().is_empty());
    assert!(app.texture_batches()[0].batch().vertex_buffer().is_empty());
    assert_eq!(app.texture_batches()[0].path().as_str(), "t.png");
}

#[test]
fn finish_applies_resize_and_live_size() {
    let mut app = App::new(100, 100);
    let frame = app.finish(Some([640, 0]), 1280, 720);
    assert!(frame.batch.is_empty());
    assert_eq!(app.get_dims(), [640, 100]);
    assert_eq!(app.batch().window_width(), 1280);
    assert_eq!(app.batch().window_height(), 720);
    app.finish(None, 0, 0);
    assert_eq!(app.batch().window_width(), 1280);
    app.rect([0, 0], 1, 1, BLUE);
    assert_eq!(app.batch().vertex_buffer()[0].x_den, 1280);
}

#[test]
fn pixel_space_orientation() {
    let (w, h) = (200i32, 100i32);
    let mut app = App::new(w as u32, h as u32);
    app.rect([0, 0], w, h, BLUE);
    app.rect([w / 2, h / 2], 0, 0, BLUE);
    let v = app.batch().vertex_buffer();
    // The draw matrix moves clip space by (-1, +1): device = value/den + (-1, +1).
    let device = |p: &Vertex| (p.x - p.x_den as i64, p.y + p.y_den as i64);
    assert!(device(&v[0]).1 > 0);
    assert!(device(&v[2]).1 < 0);
    assert_eq!((v[2].x, v[2].y), (4 * w as i64, -4 * h as i64));
    assert_eq!((v[4].x * 2, v[4].y * 2), (v[0].x + v[2].x, v[0].y + v[2].y));
}

#[test]
fn zero_area_and_negative_quads_are_kept_whole() {
    let mut app = App::new(100, 100);
    app.rect([5, 5], 0, 0, BLUE);
    app.rect([5, 5], -10, -10, BLUE);
    let v = app.batch().vertex_buffer();
    assert_eq!(v.len(), 8);
    assert_eq!(positions(&v[0..4]), vec![(20, -20); 4]);
    assert_eq!(positions(&v[4..8]), vec![(20, -20), (-20, -20), (-20, 20), (20, 20)]);
    assert_eq!(app.batch().index_buffer().len(), 12);
}
