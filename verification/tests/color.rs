use moxnotify::color::{parse_hex, Color, MapError, PartialColor};
use moxnotify::notification::Urgency;
use std::str::FromStr;

#[test]
fn valid_3_char_hex() {
    let color = Color::from_str("#fff").unwrap();
    assert_eq!(color.urgency_low, [0xff, 0xff, 0xff, 0xff]);
    assert_eq!(color.urgency_normal, [0xff, 0xff, 0xff, 0xff]);
    assert_eq!(color.urgency_critical, [0xff, 0xff, 0xff, 0xff]);
}

#[test]
fn valid_6_char_hex() {
    let color = Color::from_str("#ff0000").unwrap();
    assert_eq!(color.urgency_low, [0xff, 0x00, 0x00, 0xff]);
    assert_eq!(color.urgency_normal, [0xff, 0x00, 0x00, 0xff]);
    assert_eq!(color.urgency_critical, [0xff, 0x00, 0x00, 0xff]);
}

#[test]
fn valid_8_char_hex() {
    let color = Color::from_str("#12345678").unwrap();
    assert_eq!(color.urgency_low, [0x12, 0x34, 0x56, 0x78]);
    assert_eq!(color.urgency_normal, [0x12, 0x34, 0x56, 0x78]);
    assert_eq!(color.urgency_critical, [0x12, 0x34, 0x56, 0x78]);
}

#[test]
fn three_colors() {
    let color = Color::from_str("#fff, #000, #f00").unwrap();
    assert_eq!(color.urgency_low, [0xff, 0xff, 0xff, 0xff]);
    assert_eq!(color.urgency_normal, [0x00, 0x00, 0x00, 0xff]);
    assert_eq!(color.urgency_critical, [0xff, 0x00, 0x00, 0xff]);
}

#[test]
fn invalid_number_of_colors() {
    let result = Color::from_str("#fff,#000");
    assert!(result.is_err());
    assert_eq!(
        result.unwrap_err(),
        "Invalid number of colors: expected 1 or 3, got 2"
    );
}

#[test]
fn mixed_case_hex() {
    let color = Color::from_str("#FfEeDd").unwrap();
    assert_eq!(color.urgency_low, [0xff, 0xee, 0xdd, 0xff]);
}

#[test]
fn invalid_cases() {
    let test_cases = [
        ("missing hash", "fff", "Hex string must start with '#'"),
        ("invalid_char", "#ggg", "Invalid hex component"),
        ("wrong_length_5", "#12345", "Invalid hex length: 5"),
    ];

    for (name, input, err_msg) in test_cases {
        let result = Color::from_str(input);
        assert!(result.is_err(), "{} should fail", name);
        let err = result.unwrap_err();
        assert!(
            err.contains(err_msg),
            "{}: Expected error containing '{}', got '{}'",
            name,
            err_msg,
            err
        );
    }
}

#[test]
fn hex_four_digits_and_messages() {
    assert_eq!(parse_hex("#f008"), Ok([0xff, 0x00, 0x00, 0x88]));
    assert_eq!(
        parse_hex("#12345"),
        Err("Invalid hex length: 5 (expected 3, 4, 6, or 8 characters)".to_string())
    );
    assert_eq!(
        parse_hex("#12345678901"),
        Err("Invalid hex length: 11 (expected 3, 4, 6, or 8 characters)".to_string())
    );
    assert_eq!(
        parse_hex("#ggg"),
        Err("Invalid hex component: invalid digit found in string".to_string())
    );
    assert_eq!(parse_hex(""), Err("Hex string must start with '#'".to_string()));
}

#[test]
fn hex_plus_sign_is_a_digit_prefix() {
    assert_eq!(parse_hex("#+f+f+f"), Ok([0x0f, 0x0f, 0x0f, 0xff]));
}

#[test]
fn hex_length_counts_bytes() {
    // Two characters of two bytes each: four bytes, a valid length, but not hex.
    assert_eq!(
        parse_hex("#éé"),
        Err("Invalid hex component: invalid digit found in string".to_string())
    );
}

#[test]
fn color_list_trims_unicode_space() {
    let c = Color::parse("\u{a0}#000\t").unwrap();
    assert_eq!(c.urgency_low, [0, 0, 0, 0xff]);
    assert_eq!(
        Color::parse(""),
        Err("Hex string must start with '#'".to_string())
    );
    assert_eq!(
        Color::parse("#fff,#fff,#fff,#fff"),
        Err("Invalid number of colors: expected 1 or 3, got 4".to_string())
    );
}

#[test]
fn color_get_apply_rgba() {
    let mut c = Color::rgba([1, 2, 3, 4]);
    assert_eq!(c.get(&Urgency::Low), [1, 2, 3, 4]);
    assert_eq!(c.get(&Urgency::Critical), [1, 2, 3, 4]);
    c.apply(&PartialColor {
        urgency_low: None,
        urgency_normal: Some([9, 9, 9, 9]),
        urgency_critical: None,
    });
    assert_eq!(c.get(&Urgency::Low), [1, 2, 3, 4]);
    assert_eq!(c.get(&Urgency::Normal), [9, 9, 9, 9]);
    assert_eq!(Color::default().get(&Urgency::Normal), [0, 0, 0, 0]);
}

#[test]
fn partial_color_from_string_sets_every_level() {
    let p = PartialColor::parse("#fff, #000, #f00").unwrap();
    assert_eq!(p.urgency_low, Some([255, 255, 255, 255]));
    assert_eq!(p.urgency_normal, Some([0, 0, 0, 255]));
    assert_eq!(p.urgency_critical, Some([255, 0, 0, 255]));
    assert!(PartialColor::parse("#fff,#000").is_err());
}

#[test]
fn partial_color_from_map() {
    let p = PartialColor::from_map(&vec![
        ("urgency_critical".to_string(), "#f00".to_string()),
        ("urgency_low".to_string(), "#0f0".to_string()),
        ("urgency_critical".to_string(), "#00f".to_string()),
    ])
    .unwrap();
    assert_eq!(p.urgency_low, Some([0, 255, 0, 255]));
    assert_eq!(p.urgency_normal, None);
    assert_eq!(p.urgency_critical, Some([0, 0, 255, 255]));
    assert_eq!(
        PartialColor::from_map(&vec![("urgency_high".to_string(), "#f00".to_string())]).unwrap_err(),
        MapError::UnknownField("urgency_high".to_string())
    );
    assert_eq!(
        PartialColor::from_map(&vec![("urgency_low".to_string(), "f00".to_string())]).unwrap_err(),
        MapError::Invalid("Hex string must start with '#'".to_string())
    );
}
