use raytracer::{is_hex_format, Rgb8};

#[test]
fn hex_red_reads_full_red() {
    assert_eq!(Rgb8::from_hex("#FF0000"), Some(Rgb8 { r: 255, g: 0, b: 0 }));
}

#[test]
fn hex_default_background_reads_each_channel() {
    assert_eq!(Rgb8::from_hex("#3D1A28"), Some(Rgb8 { r: 0x3D, g: 0x1A, b: 0x28 }));
}

#[test]
fn hex_lower_case_digits_are_read() {
    assert_eq!(Rgb8::from_hex("#ff80a0"), Some(Rgb8 { r: 255, g: 128, b: 160 }));
}

#[test]
fn hex_white_and_black() {
    assert_eq!(Rgb8::from_hex("#FFFFFF"), Some(Rgb8 { r: 255, g: 255, b: 255 }));
    assert_eq!(Rgb8::from_hex("#000000"), Some(Rgb8 { r: 0, g: 0, b: 0 }));
}

#[test]
fn hex_malformed_texts_are_refused() {
    assert_eq!(Rgb8::from_hex("FF0000"), None);
    assert_eq!(Rgb8::from_hex("#FF000"), None);
    assert_eq!(Rgb8::from_hex("#FF00000"), None);
    assert_eq!(Rgb8::from_hex("#GG0000"), None);
    assert_eq!(Rgb8::from_hex(""), None);
    assert_eq!(Rgb8::from_hex("#\u{e9}\u{e9}\u{e9}"), None);
}

#[test]
fn hex_format_check() {
    assert!(is_hex_format("#0a1B2c"));
    assert!(!is_hex_format("#0a1B2"));
    assert!(!is_hex_format("00a1B2c"));
    assert!(!is_hex_format("#0a1B2z"));
    assert!(!is_hex_format("# a1B2c"));
}
