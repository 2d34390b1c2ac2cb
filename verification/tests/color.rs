use ca1::color::Paint;
use ca1::Color;

fn channels(c: &Color) -> (u8, u8, u8, u8) {
    (c.a(), c.r(), c.g(), c.b())
}

#[test]
fn from_rgb_is_opaque() {
    let c = Color::from_rgb(1, 2, 3);
    assert_eq!(channels(&c), (255, 1, 2, 3));
}

#[test]
fn from_rgba_keeps_alpha() {
    let c = Color::from_rgba(10, 20, 30, 40);
    assert_eq!(channels(&c), (40, 10, 20, 30));
}

#[test]
fn from_rgba_u32_decodes_all_four_bytes() {
    let c = Color::from_rgba_u32(0x80112233);
    assert_eq!(channels(&c), (0x80, 0x11, 0x22, 0x33));
    let d = Color::from_rgba_u32(0xffffffff);
    assert_eq!(channels(&d), (255, 255, 255, 255));
    let e = Color::from_rgba_u32(0);
    assert_eq!(channels(&e), (0, 0, 0, 0));
}

#[test]
fn from_rgb_u32_ignores_top_byte() {
    let c = Color::from_rgb_u32(0x12abcdef);
    assert_eq!(channels(&c), (255, 0xab, 0xcd, 0xef));
    let d = Color::from_rgb_u32(0x00abcdef);
    assert_eq!(channels(&d), (255, 0xab, 0xcd, 0xef));
}

#[test]
fn with_alpha_replaces_alpha_only() {
    let c = Color::from_rgb(9, 8, 7).with_alpha(0);
    assert_eq!(channels(&c), (0, 9, 8, 7));
    let d = c.with_alpha(255);
    assert_eq!(channels(&d), (255, 9, 8, 7));
}

#[test]
fn paint_is_opaque_exactly_at_full_alpha() {
    match Color::from_rgb(1, 2, 3).paint() {
        Paint::Opaque { r, g, b } => assert_eq!((r, g, b), (1, 2, 3)),
        Paint::Blended { .. } => panic!("an opaque colour was blended"),
    }
    match Color::from_rgba(1, 2, 3, 254).paint() {
        Paint::Blended { r, g, b, a } => assert_eq!((r, g, b, a), (1, 2, 3, 254)),
        Paint::Opaque { .. } => panic!("a translucent colour was painted opaque"),
    }
    match Color::from_rgba(1, 2, 3, 0).paint() {
        Paint::Blended { a, .. } => assert_eq!(a, 0),
        Paint::Opaque { .. } => panic!("a transparent colour was painted opaque"),
    }
}

#[test]
fn white_and_black() {
    assert_eq!(channels(&Color::white()), (255, 255, 255, 255));
    assert_eq!(channels(&Color::black()), (255, 0, 0, 0));
    assert_eq!(Color::white().to_string(), "#ffffff");
    assert_eq!(Color::black().to_string(), "#000000");
}

#[test]
fn hex_text_is_lower_case_with_two_digits_per_channel() {
    assert_eq!(Color::from_rgb(0x0a, 0xB0, 0xff).to_string(), "#0ab0ff");
    assert_eq!(Color::from_rgba(1, 2, 3, 0).to_string(), "#010203");
}

#[test]
fn packed_rgb_leaves_alpha_out() {
    assert_eq!(Color::from_rgba(0x11, 0x22, 0x33, 0x44).to_rgb_u32(), 0x112233);
    assert_eq!(Color::white().to_rgb_u32(), 0xffffff);
    assert_eq!(Color::black().to_rgb_u32(), 0);
}

#[test]
fn packed_rgb_round_trip() {
    let samples: [(u8, u8, u8, u8); 5] =
        [(0, 0, 0, 0), (255, 255, 255, 255), (1, 2, 3, 4), (0x80, 0x7f, 0, 0xff), (17, 0, 200, 9)];
    for (r, g, b, a) in samples {
        let c = Color::from_rgba(r, g, b, a);
        let back = Color::from_rgb_u32(c.to_rgb_u32());
        assert_eq!((back.r(), back.g(), back.b()), (r, g, b));
        assert_eq!(back.a(), 255);
    }
}

#[test]
fn color_is_copied_freely() {
    let c = Color::from_rgb(5, 6, 7);
    let d = c;
    assert_eq!(channels(&c), channels(&d));
    assert_eq!(format!("{:?}", c), format!("{:?}", d));
}
