use wl_shortcuts_overlay::config::{
    default_anchor, default_apply_blur, default_background_color, default_height,
    default_text_color, default_width, parse_hex_color, HexColorError,
};

#[test]
fn test_parse_hex_color() {
    assert_eq!(parse_hex_color("#000000").unwrap(), (0, 0, 0));
    assert_eq!(parse_hex_color("#ffffff").unwrap(), (255, 255, 255));
    assert_eq!(parse_hex_color("#ff0000").unwrap(), (255, 0, 0));
    assert_eq!(parse_hex_color("#00ff00").unwrap(), (0, 255, 0));
    assert_eq!(parse_hex_color("#0000ff").unwrap(), (0, 0, 255));
    assert_eq!(parse_hex_color("32373c").unwrap(), (50, 55, 60));
}

#[test]
fn hex_color_accepts_upper_case_and_repeated_hashes() {
    assert_eq!(parse_hex_color("##AbCdEf"), Ok((0xab, 0xcd, 0xef)));
}

#[test]
fn hex_color_errors() {
    assert_eq!(parse_hex_color(""), Err(HexColorError::InvalidLength));
    assert_eq!(parse_hex_color("#fff"), Err(HexColorError::InvalidLength));
    assert_eq!(parse_hex_color("#1234567"), Err(HexColorError::InvalidLength));
    assert_eq!(parse_hex_color("#zz0000"), Err(HexColorError::InvalidRed));
    assert_eq!(parse_hex_color("#00zz00"), Err(HexColorError::InvalidGreen));
    assert_eq!(parse_hex_color("#0000zz"), Err(HexColorError::InvalidBlue));
    assert_eq!(parse_hex_color("#-10000"), Err(HexColorError::InvalidRed));
    assert_eq!(parse_hex_color("#ab cdef"), Err(HexColorError::InvalidLength));
    assert_eq!(parse_hex_color("#é0000"), Err(HexColorError::InvalidRed));
}

#[test]
fn hex_color_signs_and_non_ascii_are_errors() {
    assert_eq!(parse_hex_color("#+f0000"), Err(HexColorError::InvalidRed));
    assert_eq!(parse_hex_color("#+f+f+f"), Err(HexColorError::InvalidRed));
    assert_eq!(parse_hex_color("#00+f00"), Err(HexColorError::InvalidGreen));
    assert_eq!(parse_hex_color("#0000-1"), Err(HexColorError::InvalidBlue));
    // "a" + "é" (two bytes) + "123" is six bytes; the first pair is cut inside "é".
    assert_eq!(parse_hex_color("#a\u{e9}123"), Err(HexColorError::InvalidRed));
    assert_eq!(parse_hex_color("#\u{e9}\u{e9}\u{e9}"), Err(HexColorError::InvalidRed));
    assert_eq!(parse_hex_color("#fff"), Err(HexColorError::InvalidLength));
    assert_eq!(parse_hex_color("#gg0000"), Err(HexColorError::InvalidRed));
}

#[test]
fn default_values() {
    assert_eq!(default_background_color(), "#000000");
    assert_eq!(default_text_color(), "#ffffff");
    assert!(default_apply_blur());
    assert_eq!(default_anchor(), "center");
    assert_eq!(default_width(), 1200);
    assert_eq!(default_height(), 800);
}
