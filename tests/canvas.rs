use ferrux_engine::canvas::EngineCanvas;

fn lit_pixels(canvas: &EngineCanvas) -> Vec<(usize, usize)> {
    let mut lit = Vec::new();
    for y in 0..canvas.height() {
        for x in 0..canvas.width() {
            if canvas.is_lit(x, y) {
                lit.push((x, y));
            }
        }
    }
    lit
}

#[test]
fn diagonal_line_lights_four_pixels() {
    let mut canvas = EngineCanvas::new(8, 8);
    canvas.draw_line((0, 0), (3, 3));
    assert_eq!(lit_pixels(&canvas), vec![(0, 0), (1, 1), (2, 2), (3, 3)]);
}

#[test]
fn line_of_one_point_lights_it() {
    let mut canvas = EngineCanvas::new(4, 4);
    canvas.draw_line((2, 1), (2, 1));
    assert_eq!(lit_pixels(&canvas), vec![(2, 1)]);
}

#[test]
fn shallow_line_follows_bresenham() {
    let mut canvas = EngineCanvas::new(8, 8);
    canvas.draw_line((0, 1), (6, 4));
    let mut expected = vec![(0, 1), (1, 1), (2, 2), (3, 2), (4, 3), (5, 3), (6, 4)];
    expected.sort_by_key(|&(x, y)| (y, x));
    assert_eq!(lit_pixels(&canvas), expected);
}

#[test]
fn pixels_outside_the_canvas_are_dropped() {
    let mut canvas = EngineCanvas::new(3, 2);
    canvas.draw_line((-2, 0), (5, 0));
    assert_eq!(lit_pixels(&canvas), vec![(0, 0), (1, 0), (2, 0)]);
    canvas.push_pixel(3, 1);
    canvas.push_pixel(2, 2);
    assert_eq!(lit_pixels(&canvas), vec![(0, 0), (1, 0), (2, 0)]);
    canvas.push_pixel(2, 1);
    assert!(canvas.is_lit(2, 1));
}

#[test]
fn plotted_points_light_up() {
    let mut canvas = EngineCanvas::new(4, 4);
    canvas.plot_points(&vec![(1, 2), (-1, 2), (3, 0), (4, 4)]);
    assert_eq!(lit_pixels(&canvas), vec![(3, 0), (1, 2)]);
}

#[test]
fn triangle_outline_draws_three_edges() {
    let mut canvas = EngineCanvas::new(5, 5);
    canvas.draw_triangle((0, 0), (4, 0), (0, 4));
    let lit = lit_pixels(&canvas);
    for p in [(0, 0), (1, 0), (4, 0), (0, 4), (0, 2), (2, 2), (3, 1), (1, 3)] {
        assert!(lit.contains(&p), "{:?} should be lit", p);
    }
    assert!(!lit.contains(&(1, 1)));
    assert_eq!(lit.len(), 12);
}

#[test]
fn render_writes_rgba_and_clears() {
    let mut canvas = EngineCanvas::new(3, 2);
    canvas.push_pixel(1, 0);
    canvas.push_pixel(2, 1);
    let mut frame = vec![7u8; 3 * 2 * 4];
    canvas.render(&mut frame);
    let mut expected = vec![0u8; 24];
    for i in [1usize, 5] {
        for c in 0..4 {
            expected[4 * i + c] = 0xff;
        }
    }
    assert_eq!(frame, expected);
    assert!(lit_pixels(&canvas).is_empty());
}

#[test]
fn resize_and_clear_blank_every_pixel() {
    let mut canvas = EngineCanvas::new(2, 2);
    canvas.push_pixel(1, 1);
    canvas.clear();
    assert!(lit_pixels(&canvas).is_empty());
    canvas.push_pixel(0, 0);
    canvas.resize(4, 1);
    assert_eq!((canvas.width(), canvas.height()), (4, 1));
    assert!(lit_pixels(&canvas).is_empty());
}

#[test]
fn filled_triangle_covers_its_inside() {
    let mut canvas = EngineCanvas::new(5, 5);
    canvas.fill_triangle((0, 0), (4, 0), (0, 4));
    let lit = lit_pixels(&canvas);
    assert_eq!(lit.len(), 15);
    assert!(lit.iter().all(|&(x, y)| x + y <= 4));

    let mut reversed = EngineCanvas::new(5, 5);
    reversed.fill_triangle((0, 4), (4, 0), (0, 0));
    assert_eq!(lit_pixels(&reversed), lit);
}

#[test]
fn flat_triangle_fills_its_segment() {
    let mut canvas = EngineCanvas::new(6, 6);
    canvas.fill_triangle((0, 0), (2, 2), (4, 4));
    assert_eq!(lit_pixels(&canvas), vec![(0, 0), (1, 1), (2, 2), (3, 3), (4, 4)]);
}

#[test]
fn filled_triangle_is_clipped_to_the_canvas() {
    let mut canvas = EngineCanvas::new(5, 5);
    canvas.fill_triangle((-10, -10), (20, -10), (-10, 20));
    assert_eq!(lit_pixels(&canvas).len(), 25);
    let mut canvas = EngineCanvas::new(5, 5);
    canvas.fill_triangle((10, 10), (20, 10), (10, 20));
    assert!(lit_pixels(&canvas).is_empty());
}
