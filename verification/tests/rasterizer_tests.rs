use rasterlife::rasterizer::draw_polygon;
use rasterlife::rasterizer;
use rasterlife::{Color, Framebuffer, Point};

fn white() -> Color {
    Color::new(255, 255, 255)
}

fn plotted(fb: &Framebuffer) -> Vec<(isize, isize)> {
    let mut points = Vec::new();
    for y in 0..fb.height as isize {
        for x in 0..fb.width as isize {
            if fb.get_point(x, y) == Some(white()) {
                points.push((x, y));
            }
        }
    }
    points
}

#[test]
fn test_line_direction_independent() {
    let mut forward = Framebuffer::new(5, 5);
    rasterizer::line(&mut forward, Point { x: 0, y: 0 }, Point { x: 2, y: 0 }, white());
    let mut backward = Framebuffer::new(5, 5);
    rasterizer::line(&mut backward, Point { x: 2, y: 0 }, Point { x: 0, y: 0 }, white());
    assert_eq!(plotted(&forward), vec![(0, 0), (1, 0), (2, 0)]);
    assert_eq!(plotted(&backward), vec![(0, 0), (1, 0), (2, 0)]);
    assert_eq!(forward.buffer, backward.buffer);
}

#[test]
fn test_line_single_point() {
    let mut fb = Framebuffer::new(3, 3);
    rasterizer::line(&mut fb, Point { x: 1, y: 1 }, Point { x: 1, y: 1 }, white());
    assert_eq!(plotted(&fb), vec![(1, 1)]);
}

#[test]
fn test_line_vertical_and_diagonal() {
    let mut fb = Framebuffer::new(4, 4);
    rasterizer::line(&mut fb, Point { x: 0, y: 3 }, Point { x: 0, y: 1 }, white());
    assert_eq!(plotted(&fb), vec![(0, 1), (0, 2), (0, 3)]);
    let mut fb = Framebuffer::new(4, 4);
    rasterizer::line(&mut fb, Point { x: 0, y: 0 }, Point { x: 3, y: 3 }, white());
    assert_eq!(plotted(&fb), vec![(0, 0), (1, 1), (2, 2), (3, 3)]);
}

#[test]
fn test_line_clips_to_grid() {
    let mut fb = Framebuffer::new(2, 2);
    rasterizer::line(&mut fb, Point { x: -2, y: 0 }, Point { x: 3, y: 0 }, white());
    assert_eq!(plotted(&fb), vec![(0, 0), (1, 0)]);
}

#[test]
fn test_polygon_two_points_unchanged() {
    let mut fb = Framebuffer::new(4, 4);
    fb.set_pixel(1, 1, Color::new(5, 6, 7));
    let before = fb.buffer.clone();
    let points = vec![Point { x: 0, y: 0 }, Point { x: 3, y: 3 }];
    draw_polygon(&mut fb, &points, white());
    assert_eq!(fb.buffer, before);
    let empty: Vec<Point> = Vec::new();
    draw_polygon(&mut fb, &empty, white());
    assert_eq!(fb.buffer, before);
}

#[test]
fn test_polygon_triangle_outline() {
    let mut fb = Framebuffer::new(5, 5);
    let points = vec![Point { x: 0, y: 0 }, Point { x: 4, y: 0 }, Point { x: 0, y: 4 }];
    draw_polygon(&mut fb, &points, white());
    // the three edges: top row, diagonal, left column
    for x in 0..5 {
        assert_eq!(fb.get_point(x, 0), Some(white()), "top edge at {}", x);
    }
    for y in 0..5 {
        assert_eq!(fb.get_point(0, y), Some(white()), "left edge at {}", y);
    }
    for i in 0..5 {
        assert_eq!(fb.get_point(4 - i, i), Some(white()), "diagonal at {}", i);
    }
    // interior stays black
    assert_eq!(fb.get_point(1, 1), Some(Color::new(0, 0, 0)));
}
