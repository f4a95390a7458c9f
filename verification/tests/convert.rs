use whisker_theme::color::{hex_to_normalized_rgba, hex_to_rgba, ColorError};

fn assert_close(text: &str, expected: f64) {
    let got: f64 = text.parse().unwrap();
    assert!((got - expected).abs() < 1e-6, "{} not within 1e-6 of {}", text, expected);
}

#[test]
fn six_digit_hex_yields_exact_bytes() {
    assert_eq!(hex_to_rgba("#ffffff", "0").unwrap(), "rgba(255, 255, 255, 0)");
    assert_eq!(hex_to_rgba("#000000", "0.99").unwrap(), "rgba(0, 0, 0, 0.99)");
    assert_eq!(hex_to_rgba("#1a2B3c", "0.5").unwrap(), "rgba(26, 43, 60, 0.5)");
    assert_eq!(hex_to_rgba("#336699", "1").unwrap(), "rgba(51, 102, 153, 1)");
}

#[test]
fn three_digit_hex_equals_expanded_six_digit() {
    assert_eq!(
        hex_to_rgba("#abc", "0.5").unwrap(),
        hex_to_rgba("#aabbcc", "0.5").unwrap()
    );
    assert_eq!(
        hex_to_rgba("#FFF", "0").unwrap(),
        hex_to_rgba("#FFFFFF", "0").unwrap()
    );
    assert_eq!(
        hex_to_rgba("#307", "1.0").unwrap(),
        hex_to_rgba("#330077", "1.0").unwrap()
    );
}

#[test]
fn normalized_components_are_byte_over_255() {
    let n = hex_to_normalized_rgba("#336699", "0.8").unwrap();
    assert_close(&n.red, 51.0 / 255.0);
    assert_close(&n.green, 102.0 / 255.0);
    assert_close(&n.blue, 153.0 / 255.0);
    assert_eq!(n.alpha, "0.8");

    let odd = hex_to_normalized_rgba("#114a7f", "0.25").unwrap();
    assert_close(&odd.red, 17.0 / 255.0);
    assert_close(&odd.green, 74.0 / 255.0);
    assert_close(&odd.blue, 127.0 / 255.0);
    assert_eq!(odd.alpha, "0.25");
}

#[test]
fn normalized_endpoints_are_plain_zero_and_one() {
    let n = hex_to_normalized_rgba("#ff0000", "0").unwrap();
    assert_eq!(n.red, "1");
    assert_eq!(n.green, "0");
    assert_eq!(n.blue, "0");
    assert_eq!(n.alpha, "0");
}

#[test]
fn exact_fifths_come_out_short() {
    let n = hex_to_normalized_rgba("#336699", "0.8").unwrap();
    assert_eq!(n.red, "0.2");
    assert_eq!(n.green, "0.4");
    assert_eq!(n.blue, "0.6");
}

#[test]
fn invalid_hex_fails_both_conversions() {
    for bad in ["#12", "123456", "#12345", "#gggggg"] {
        assert_eq!(hex_to_rgba(bad, "0.5").unwrap_err(), ColorError::InvalidFormat);
        assert_eq!(
            hex_to_normalized_rgba(bad, "0.5").unwrap_err(),
            ColorError::InvalidFormat
        );
    }
}

#[test]
fn opacity_bounds_are_inclusive() {
    assert_eq!(hex_to_rgba("#000000", "-0.1").unwrap_err(), ColorError::OutOfRange);
    assert_eq!(hex_to_rgba("#000000", "1.1").unwrap_err(), ColorError::OutOfRange);
    assert!(hex_to_rgba("#000000", "0.0").is_ok());
    assert!(hex_to_rgba("#000000", "1.0").is_ok());
    assert_eq!(
        hex_to_normalized_rgba("#000000", "-0.1").unwrap_err(),
        ColorError::OutOfRange
    );
    assert_eq!(
        hex_to_normalized_rgba("#000000", "1.1").unwrap_err(),
        ColorError::OutOfRange
    );
    assert!(hex_to_normalized_rgba("#000000", "0.0").is_ok());
    assert!(hex_to_normalized_rgba("#000000", "1.0").is_ok());
}

#[test]
fn bad_hex_is_reported_before_bad_opacity() {
    assert_eq!(hex_to_rgba("#12", "9.9").unwrap_err(), ColorError::InvalidFormat);
}

#[test]
fn opacity_text_is_carried_verbatim() {
    assert_eq!(hex_to_rgba("#010203", "0.250").unwrap(), "rgba(1, 2, 3, 0.250)");
}
