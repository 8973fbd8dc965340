use media_gateway::image_cache::{parse_ratio, Info, InfoError};

fn hint(width: Option<u32>, height: Option<u32>, ratio: Option<&str>) -> Info {
    Info {
        url: String::from("https://example.com/a.png"),
        width,
        height,
        ratio: ratio.map(|s| s.to_string()),
    }
}

#[test]
fn both_dims_clamped_to_source() {
    let r = hint(Some(500), Some(300), None).get_new_size(400, 200).unwrap();
    assert_eq!(r, (400, 200));
    let r = hint(Some(120), Some(80), None).get_new_size(400, 200).unwrap();
    assert_eq!(r, (120, 80));
    let r = hint(Some(500), Some(80), Some("2:1")).get_new_size(400, 200).unwrap();
    assert_eq!(r, (400, 80));
}

#[test]
fn width_only_preserves_source_aspect() {
    // The end-to-end example: a 400x200 source and width=100 resolve to
    // height 100/400*200 = 50.
    let r = hint(Some(100), None, None).get_new_size(400, 200).unwrap();
    assert_eq!(r, (100, 50));
}

#[test]
fn width_plus_ratio_cross_multiplies() {
    let r = hint(Some(100), None, Some("2:1")).get_new_size(400, 200).unwrap();
    assert_eq!(r, (100, 50));
    // Floor of 100 * 1 / 3.
    let r = hint(Some(100), None, Some("3:1")).get_new_size(400, 200).unwrap();
    assert_eq!(r, (100, 33));
}

#[test]
fn height_plus_ratio_cross_multiplies() {
    let r = hint(None, Some(50), Some("2:1")).get_new_size(400, 200).unwrap();
    assert_eq!(r, (100, 50));
    let r = hint(None, Some(100), Some("3:2")).get_new_size(400, 200).unwrap();
    assert_eq!(r, (150, 100));
}

#[test]
fn height_only_preserves_source_aspect() {
    let r = hint(None, Some(50), None).get_new_size(400, 200).unwrap();
    assert_eq!(r, (100, 50));
}

#[test]
fn ratio_only_swaps_source_axes() {
    // The ratio-only branch drives each output axis from the opposite
    // source axis: width = sh/rh*rw, height = sw/rw*rh.
    let r = hint(None, None, Some("1:2")).get_new_size(400, 200).unwrap();
    assert_eq!(r, (100, 800));
    let r = hint(None, None, Some("1:1")).get_new_size(400, 200).unwrap();
    assert_eq!(r, (200, 400));
}

#[test]
fn wrong_arity_is_a_format_error() {
    let e = hint(Some(100), None, Some("1:2:3")).get_new_size(400, 200).unwrap_err();
    assert_eq!(e, InfoError::InvalidRatioFormat);
    let e = hint(None, Some(100), Some("1:2:3")).get_new_size(400, 200).unwrap_err();
    assert_eq!(e, InfoError::InvalidRatioFormat);
    let e = hint(None, None, Some("1:2:3")).get_new_size(400, 200).unwrap_err();
    assert_eq!(e, InfoError::InvalidRatioFormat);
}

#[test]
fn non_numeric_ratio_is_a_format_error() {
    let e = hint(Some(100), None, Some("abc")).get_new_size(400, 200).unwrap_err();
    assert_eq!(e, InfoError::InvalidRatioFormat);
    let e = hint(Some(100), None, Some("a:b")).get_new_size(400, 200).unwrap_err();
    assert_eq!(e, InfoError::InvalidRatioFormat);
}

#[test]
fn no_hint_is_a_no_size_error() {
    let e = hint(None, None, None).get_new_size(400, 200).unwrap_err();
    assert_eq!(e, InfoError::NoSizeDefined);
}

#[test]
fn resolution_is_idempotent() {
    let h = hint(Some(123), None, Some("16:9"));
    let a = h.get_new_size(1920, 1080);
    let b = h.get_new_size(1920, 1080);
    assert_eq!(a, b);
    assert_eq!(a.unwrap(), (123, 69));
}

#[test]
fn ratio_parsing_accepts_two_positive_parts() {
    assert_eq!(parse_ratio("4:3"), Some((4, 3)));
    assert_eq!(parse_ratio("16:9"), Some((16, 9)));
    assert_eq!(parse_ratio("0:3"), None);
    assert_eq!(parse_ratio("3:0"), None);
    assert_eq!(parse_ratio(":3"), None);
    assert_eq!(parse_ratio("3:"), None);
    assert_eq!(parse_ratio(""), None);
}

#[test]
fn ratio_parsing_scales_decimal_parts_to_integers() {
    // Both sides are brought to a common denominator: 1.5:2 is 15:20.
    assert_eq!(parse_ratio("1.5:2"), Some((15, 20)));
    assert_eq!(parse_ratio("0.5:1"), Some((5, 10)));
    assert_eq!(parse_ratio(".5:1"), Some((5, 10)));
    assert_eq!(parse_ratio("1.:2"), Some((1, 2)));
    assert_eq!(parse_ratio("2.5:1.25"), Some((2500, 1250)));
    // A second dot, a dot alone, and a zero value are format errors.
    assert_eq!(parse_ratio("1.5.5:2"), None);
    assert_eq!(parse_ratio(".:2"), None);
    assert_eq!(parse_ratio("0.0:1"), None);
}

#[test]
fn decimal_ratio_resolves_like_the_float_quotient() {
    // width 100 with ratio 1.5:1 derives floor(100 / 1.5) = 66.
    let r = hint(Some(100), None, Some("1.5:1")).get_new_size(400, 200).unwrap();
    assert_eq!(r, (100, 66));
    // Ratio-only keeps the cross-driven axes: 400x200 at 2.5:1.
    let r = hint(None, None, Some("2.5:1")).get_new_size(400, 200).unwrap();
    assert_eq!(r, (500, 160));
}
