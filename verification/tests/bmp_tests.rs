use rasterlife::{Bitmap, Color, Framebuffer};

#[test]
fn test_bitmap_new_zeroed() {
    let bm = Bitmap::new(2, 3);
    assert_eq!(bm.width, 2);
    assert_eq!(bm.height, 3);
    assert_eq!(bm.data, vec![0u8; 18]);
}

#[test]
fn test_bitmap_set_pixel_bgr_order() {
    let mut bm = Bitmap::new(2, 2);
    bm.set_pixel(1, 0, (10, 20, 30));
    // index (y * width + x) * 3 = 3; bytes are blue, green, red
    assert_eq!(&bm.data[3..6], &[30, 20, 10]);
    // out of bounds is a no-op
    let before = bm.data.clone();
    bm.set_pixel(2, 0, (1, 1, 1));
    bm.set_pixel(0, 2, (1, 1, 1));
    assert_eq!(bm.data, before);
}

#[test]
fn test_encode_two_by_two_black() {
    let fb = Framebuffer::new(2, 2);
    let bm = fb.render_buffer();
    let bytes = bm.encode();
    // signature "BM"
    assert_eq!(bytes[0], 0x42);
    assert_eq!(bytes[1], 0x4D);
    // total length 54 + 2*2*3
    assert_eq!(bytes.len(), 66);
    // little-endian file size
    assert_eq!(&bytes[2..6], &[66, 0, 0, 0]);
    // reserved
    assert_eq!(&bytes[6..10], &[0, 0, 0, 0]);
    // pixel data offset 54
    assert_eq!(&bytes[10..14], &[54, 0, 0, 0]);
    // info header size 40
    assert_eq!(&bytes[14..18], &[40, 0, 0, 0]);
    // width and height fields equal 2
    assert_eq!(&bytes[18..22], &[2, 0, 0, 0]);
    assert_eq!(&bytes[22..26], &[2, 0, 0, 0]);
    // planes 1, bits per pixel 24
    assert_eq!(&bytes[26..28], &[1, 0]);
    assert_eq!(&bytes[28..30], &[24, 0]);
    // no compression; image size 12
    assert_eq!(&bytes[30..34], &[0, 0, 0, 0]);
    assert_eq!(&bytes[34..38], &[12, 0, 0, 0]);
    // remaining fields zero, pixel data all black
    assert_eq!(&bytes[38..54], &[0u8; 16]);
    assert_eq!(&bytes[54..66], &[0u8; 12]);
}

#[test]
fn test_render_buffer_flips_rows() {
    let mut fb = Framebuffer::new(2, 2);
    fb.set_pixel(0, 0, Color::new(255, 0, 0));
    fb.set_pixel(1, 1, Color::new(0, 0, 255));
    let bm = fb.render_buffer();
    // buffer row 0 lands in bitmap row 1: red pixel at data index ((2-1-0)*2+0)*3 = 6
    assert_eq!(&bm.data[6..9], &[0, 0, 255]);
    // buffer row 1 lands in bitmap row 0: blue pixel at data index ((2-1-1)*2+1)*3 = 3
    assert_eq!(&bm.data[3..6], &[255, 0, 0]);
    // untouched pixels stay black
    assert_eq!(&bm.data[0..3], &[0, 0, 0]);
    assert_eq!(&bm.data[9..12], &[0, 0, 0]);
}

#[test]
fn test_encode_keeps_pixel_bytes() {
    let mut bm = Bitmap::new(1, 1);
    bm.set_pixel(0, 0, (7, 8, 9));
    let bytes = bm.encode();
    assert_eq!(bytes.len(), 57);
    assert_eq!(&bytes[54..57], &[9, 8, 7]);
    assert_eq!(&bytes[34..38], &[3, 0, 0, 0]);
}
