use nffray::axis::{advance, Axis};
use nffray::ppm::{encode, fmt_u32, Rgb};

#[test]
fn encode_small_image() {
    let pixels = vec![
        Rgb { r: 64, g: 128, b: 191 },
        Rgb { r: 0, g: 0, b: 0 },
        Rgb { r: 255, g: 255, b: 255 },
        Rgb { r: 1, g: 2, b: 3 },
    ];
    let out = encode(2, 2, &pixels);
    let mut expected = b"P6\n2 2\n255\n".to_vec();
    expected.extend_from_slice(&[64, 128, 191, 0, 0, 0, 255, 255, 255, 1, 2, 3]);
    assert_eq!(out, expected);
}

#[test]
fn encode_empty_image() {
    let out = encode(0, 0, &Vec::new());
    assert_eq!(out, b"P6\n0 0\n255\n".to_vec());
}

#[test]
fn encode_multi_digit_dimensions() {
    let pixels = vec![Rgb { r: 7, g: 8, b: 9 }; 120];
    let out = encode(12, 10, &pixels);
    assert!(out.starts_with(b"P6\n12 10\n255\n"));
    assert_eq!(out.len(), b"P6\n12 10\n255\n".len() + 3 * 120);
    // Every channel byte lies in 0..=255 by construction: the body is bytes.
    assert_eq!(out[b"P6\n12 10\n255\n".len()], 7);
}

#[test]
fn encode_is_deterministic() {
    let pixels = vec![Rgb { r: 10, g: 20, b: 30 }; 6];
    assert_eq!(encode(3, 2, &pixels), encode(3, 2, &pixels));
}

#[test]
fn format_u32_digits() {
    assert_eq!(fmt_u32(0), b"0".to_vec());
    assert_eq!(fmt_u32(7), b"7".to_vec());
    assert_eq!(fmt_u32(1080), b"1080".to_vec());
    assert_eq!(fmt_u32(4294967295), b"4294967295".to_vec());
}

#[test]
fn axis_rotation_cycles() {
    assert!(matches!(advance(Axis::X), Axis::Y));
    assert!(matches!(advance(Axis::Y), Axis::Z));
    assert!(matches!(advance(Axis::Z), Axis::X));
    assert!(matches!(advance(advance(advance(Axis::X))), Axis::X));
}
