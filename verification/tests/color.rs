use pelican::color::Color;

#[test]
fn test_color_equality() {
    let color1 = Color::new(255, 255, 255, 255);
    let color2 = Color::new(255, 255, 255, 255);
    assert_eq!(color1, color2);

    let color1 = Color::new(255, 255, 255, 255);
    let color2 = Color::new(255, 255, 255, 0);
    assert_ne!(color1, color2);

    let color1 = Color::new(255, 255, 255, 255);
    let color2 = Color::new(0, 255, 255, 255);
    assert_ne!(color1, color2);
}

#[test]
fn test_white() {
    let color = Color::white();
    assert_eq!(color.red, 255);
    assert_eq!(color.green, 255);
    assert_eq!(color.blue, 255);
    assert_eq!(color.alpha, 255);
}

#[test]
fn test_black() {
    let color = Color::black();
    assert_eq!(color.red, 0);
    assert_eq!(color.green, 0);
    assert_eq!(color.blue, 0);
    assert_eq!(color.alpha, 255);
}

#[test]
fn test_red() {
    let color = Color::red();
    assert_eq!(color.red, 255);
    assert_eq!(color.green, 0);
    assert_eq!(color.blue, 0);
    assert_eq!(color.alpha, 255);
}

#[test]
fn test_green() {
    let color = Color::green();
    assert_eq!(color.red, 0);
    assert_eq!(color.green, 255);
    assert_eq!(color.blue, 0);
    assert_eq!(color.alpha, 255);
}

#[test]
fn test_blue() {
    let color = Color::blue();
    assert_eq!(color.red, 0);
    assert_eq!(color.green, 0);
    assert_eq!(color.blue, 255);
    assert_eq!(color.alpha, 255);
}

#[test]
fn test_gray() {
    let color = Color::gray();
    assert_eq!(color, Color::new(128, 128, 128, 255));
}

#[test]
fn test_clear() {
    let color = Color::clear();
    assert_eq!(color.red, 0);
    assert_eq!(color.green, 0);
    assert_eq!(color.blue, 0);
    assert_eq!(color.alpha, 0);
}

#[test]
fn test_to_graphics_color() {
    let color = Color::new(123, 45, 67, 89);
    let graphics_color = color.to_graphics_color();
    assert_eq!(graphics_color.r, 123);
    assert_eq!(graphics_color.g, 45);
    assert_eq!(graphics_color.b, 67);
    assert_eq!(graphics_color.a, 89);
}

#[test]
fn color_test_debug() {
    let color = Color::new(123, 45, 67, 89);
    assert_eq!(color.debug_string(), "Color(123, 45, 67, 89)");
}

#[test]
fn color_debug_single_and_triple_digits() {
    assert_eq!(Color::clear().debug_string(), "Color(0, 0, 0, 0)");
    assert_eq!(Color::new(5, 10, 99, 100).debug_string(), "Color(5, 10, 99, 100)");
    assert_eq!(Color::white().debug_string(), "Color(255, 255, 255, 255)");
}
