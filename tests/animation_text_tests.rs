use blithaven::{layout_text, text_layout, Animation, App};

#[test]
fn animation_advances_when_due() {
    let mut a = Animation::new("walk".to_string(), 10, vec!["a.png".to_string(), "b.png".to_string()], 0);
    assert_eq!(a.advance(100_000), Some("a.png".to_string()));
    assert_eq!(a.advance(100_001), Some("a.png".to_string()));
    assert_eq!(a.advance(150_000), Some("b.png".to_string()));
    assert_eq!(a.advance(200_002), Some("b.png".to_string()));
    assert_eq!(a.advance(200_003), Some("a.png".to_string()));
    assert_eq!(a.name().as_str(), "walk");
}

#[test]
fn animation_with_zero_rate_or_no_frames() {
    let mut still = Animation::new("still".to_string(), 0, vec!["x.png".to_string(), "y.png".to_string()], 0);
    assert_eq!(still.advance(u64::MAX), Some("x.png".to_string()));
    assert_eq!(still.advance(u64::MAX), Some("x.png".to_string()));
    let mut empty = Animation::new("none".to_string(), 5, vec![], 0);
    assert_eq!(empty.advance(1_000_000), None);
}

#[test]
fn app_animate_draws_current_frame() {
    let mut app = App::new(100, 100);
    app.add_animation("walk", 10, vec!["a.png", "b.png"], 0);
    app.add_animation("walk", 1, vec!["c.png"], 0);
    assert_eq!(app.animate([0, 0], 8, 8, "walk", 0), Some(0));
    assert_eq!(app.animate([0, 0], 8, 8, "walk", 100_001), None);
    assert_eq!(app.animate([0, 0], 8, 8, "walk", 100_002), Some(1));
    assert_eq!(app.texture_batches()[1].path().as_str(), "b.png");
    assert_eq!(app.animate([0, 0], 8, 8, "run", 5), None);
    assert_eq!(app.texture_batches().len(), 2);
    assert_eq!(app.texture_batches()[0].batch().vertex_buffer().len(), 8);
    assert_eq!(app.texture_batches()[1].batch().vertex_buffer().len(), 4);
}

#[test]
fn layout_places_glyphs_left_to_right() {
    let g = layout_text("AB!?C", [10, 20], 8);
    let got: Vec<([i32; 2], i32, String)> = g.into_iter().map(|g| (g.position, g.size, g.path)).collect();
    assert_eq!(
        got,
        vec![
            ([10, 20], 8, "src/assets/font/a.png".to_string()),
            ([18, 20], 8, "src/assets/font/b.png".to_string()),
            ([26, 20], 8, "src/assets/font/!.png".to_string()),
            ([42, 20], 8, "src/assets/font/c.png".to_string()),
        ]
    );
}

#[test]
fn layout_skips_lower_case_and_out_of_range() {
    assert!(layout_text("abc", [0, 0], 8).is_empty());
    let g = layout_text("ZZ", [i32::MAX - 5, 0], 8);
    assert_eq!(g.len(), 1);
    assert_eq!(g[0].position, [i32::MAX - 5, 0]);
}

#[test]
fn text_layout_upper_cases_first() {
    let g = text_layout("hi!", [0, 0], 4);
    let paths: Vec<String> = g.iter().map(|g| g.path.clone()).collect();
    assert_eq!(
        paths,
        vec![
            "src/assets/font/h.png".to_string(),
            "src/assets/font/i.png".to_string(),
            "src/assets/font/!.png".to_string()
        ]
    );
    assert_eq!(g[2].position, [8, 0]);
}

#[test]
fn app_text_registers_each_glyph_once() {
    let mut app = App::new(100, 100);
    assert_eq!(app.text("aba", [0, 0], 10), vec![0, 1]);
    let a = app.texture_batches()[0].batch().vertex_buffer();
    assert_eq!(a.len(), 8);
    // The third glyph sits two sides to the right: 20 pixels, 80/100 in clip units.
    assert_eq!((a[4].x, a[4].y), (80, 0));
    assert_eq!(app.texture_batches()[1].batch().vertex_buffer()[0].x, 40);
    assert_eq!(app.text("ab", [0, 0], 10), Vec::<usize>::new());
    assert_eq!(app.texture_batches()[0].batch().vertex_buffer().len(), 12);
    assert_eq!(app.texture_batches()[1].batch().vertex_buffer().len(), 8);
}
