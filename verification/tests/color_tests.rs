use rasterlife::Color;

#[test]
fn test_new() {
    let color = Color::new(255, 100, 50);
    assert_eq!(color.r, 255);
    assert_eq!(color.g, 100);
    assert_eq!(color.b, 50);
}

#[test]
fn test_new_clamp() {
    let color = Color::new(300, -50, 256);
    assert_eq!(color.r, 255);
    assert_eq!(color.g, 0);
    assert_eq!(color.b, 255);
}

#[test]
fn test_from_hex() {
    let color = Color::from_hex(0xFF6432);
    assert_eq!(color.r, 255);
    assert_eq!(color.g, 100);
    assert_eq!(color.b, 50);
}

#[test]
fn test_to_hex() {
    let color = Color::new(255, 100, 50);
    assert_eq!(color.to_hex(), 0xFF6432);
}

#[test]
fn test_add() {
    let color1 = Color::new(100, 150, 200);
    let color2 = Color::new(60, 100, 80);
    let result = color1.add(color2);
    assert_eq!(result.r, 160);
    assert_eq!(result.g, 250);
    assert_eq!(result.b, 255); // saturates at 255
}

#[test]
fn test_add_overflow() {
    let color1 = Color::new(200, 200, 200);
    let color2 = Color::new(100, 100, 100);
    let result = color1.add(color2);
    assert_eq!(result.r, 255); // saturates at 255
    assert_eq!(result.g, 255); // saturates at 255
    assert_eq!(result.b, 255); // saturates at 255
}

#[test]
fn test_mul() {
    let color = Color::new(100, 150, 200);
    // scaling by 3/2 is scaling by 1.5
    let result = color.scale(3, 2);
    assert_eq!(result.r, 150);
    assert_eq!(result.g, 225);
    assert_eq!(result.b, 255); // clamps at 255
}

#[test]
fn test_mul_overflow() {
    let color = Color::new(200, 200, 200);
    let result = color.scale(3, 2);
    assert_eq!(result.r, 255); // clamps at 255
    assert_eq!(result.g, 255); // clamps at 255
    assert_eq!(result.b, 255); // clamps at 255
}

#[test]
fn test_mul_underflow() {
    let color = Color::new(100, 150, 200);
    // scaling by 1/2 is scaling by 0.5
    let result = color.scale(1, 2);
    assert_eq!(result.r, 50);
    assert_eq!(result.g, 75);
    assert_eq!(result.b, 100);
}

#[test]
fn test_display() {
    let color = Color::new(100, 150, 200);
    assert_eq!(color.display_string(), "Color(r: 100, g: 150, b: 200)");
}

#[test]
fn test_set_color_clamps() {
    let mut color = Color::new(0, 0, 0);
    color.set_color(-1, 128, 999);
    assert_eq!(color.r, 0);
    assert_eq!(color.g, 128);
    assert_eq!(color.b, 255);
}

#[test]
fn test_hex_round_trip_values() {
    for h in [0x000000u32, 0xFFFFFF, 0x123456, 0xFF6432, 0x0000FF, 0x800000] {
        assert_eq!(Color::from_hex(h).to_hex(), h);
    }
}

#[test]
fn test_display_edge_digits() {
    assert_eq!(Color::new(0, 7, 42).display_string(), "Color(r: 0, g: 7, b: 42)");
    assert_eq!(Color::new(255, 10, 99).display_string(), "Color(r: 255, g: 10, b: 99)");
}

#[test]
fn test_scale_rounds_to_nearest() {
    // 5 * 1/2 = 2.5 rounds up to 3
    let c = Color::new(5, 0, 0).scale(1, 2);
    assert_eq!(c.r, 3);
    // 5 * 1/3 = 1.67 rounds to 2
    let c = Color::new(5, 0, 0).scale(1, 3);
    assert_eq!(c.r, 2);
}
