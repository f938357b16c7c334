use rasterlife::{Color, Framebuffer};

fn black() -> Color {
    Color::new(0, 0, 0)
}

fn white() -> Color {
    Color::new(255, 255, 255)
}

#[test]
fn test_new_framebuffer_all_black() {
    let fb = Framebuffer::new(3, 2);
    assert_eq!(fb.width, 3);
    assert_eq!(fb.height, 2);
    assert_eq!(fb.buffer.len(), 6);
    for y in 0..2 {
        for x in 0..3 {
            assert_eq!(fb.get_point(x, y), Some(black()));
        }
    }
    assert_eq!(fb.background_color, black());
    assert_eq!(fb.current_color, white());
}

#[test]
fn test_point_uses_current_color() {
    let mut fb = Framebuffer::new(4, 4);
    fb.set_current_color(0xFF0000);
    fb.point(2, 1);
    assert_eq!(fb.get_point(2, 1), Some(Color::new(255, 0, 0)));
    assert_eq!(fb.get_point(1, 2), Some(black()));
}

#[test]
fn test_out_of_bounds_draws_do_nothing() {
    let mut fb = Framebuffer::new(3, 3);
    fb.set_pixel(1, 1, Color::new(9, 9, 9));
    let before = fb.buffer.clone();
    for &(x, y) in &[(-1, 0), (0, -1), (3, 0), (0, 3), (-7, -7), (100, 100), (2, 3), (3, 2)] {
        fb.point(x, y);
        fb.set_pixel(x, y, white());
        assert_eq!(fb.get_point(x, y), None);
    }
    assert_eq!(fb.buffer, before);
}

#[test]
fn test_clear_paints_background() {
    let mut fb = Framebuffer::new(2, 2);
    fb.set_pixel(0, 0, white());
    fb.set_background_color(0x112233);
    fb.clear();
    for y in 0..2 {
        for x in 0..2 {
            assert_eq!(fb.get_point(x, y), Some(Color::new(0x11, 0x22, 0x33)));
        }
    }
}

#[test]
fn test_set_colors_decode_hex() {
    let mut fb = Framebuffer::new(1, 1);
    fb.set_background_color(0xABCDEF);
    fb.set_current_color(0x010203);
    assert_eq!(fb.background_color, Color::new(0xAB, 0xCD, 0xEF));
    assert_eq!(fb.current_color, Color::new(1, 2, 3));
}

#[test]
fn test_as_u32_buffer_packs_argb() {
    let mut fb = Framebuffer::new(2, 1);
    fb.set_pixel(0, 0, Color::new(0x12, 0x34, 0x56));
    let packed = fb.as_u32_buffer();
    assert_eq!(packed.len(), 2);
    assert_eq!(packed[0], 0xFF123456);
    assert_eq!(packed[1], 0xFF000000);
}

#[test]
fn test_render_scene() {
    let mut fb = Framebuffer::new(30, 50);
    rasterlife::framebuffer::render(&mut fb);
    assert_eq!(fb.background_color, Color::new(0x33, 0x33, 0x55));
    assert_eq!(fb.get_point(20, 40), Some(Color::new(0xFF, 0xDD, 0xDD)));
    assert_eq!(fb.get_point(0, 0), Some(Color::new(0x33, 0x33, 0x55)));
}
