use peru_prices::spiders::{parse_price, Price, SpiderError};
use peru_prices::text::{from_chars, remove_all, same_text, to_chars, trim};

fn as_float(p: &Price) -> f64 {
    let magnitude = p.mantissa as f64 / 10f64.powi(p.scale as i32);
    if p.negative {
        -magnitude
    } else {
        magnitude
    }
}

#[test]
fn normalizes_price_with_marker_and_separator() {
    let p = parse_price("S/. 1,234.50").unwrap();
    assert_eq!(p, Price { negative: false, mantissa: 12345, scale: 1 });
    assert_eq!(as_float(&p), 1234.5);
}

#[test]
fn normalizes_plain_decimal() {
    let p = parse_price("12.0").unwrap();
    assert_eq!(p, Price { negative: false, mantissa: 12, scale: 0 });
    assert_eq!(as_float(&p), 12.0);
}

#[test]
fn rejects_text_without_number() {
    match parse_price("abc") {
        Err(SpiderError::PriceParseError(raw)) => assert_eq!(raw, "abc"),
        other => panic!("unexpected {:?}", other),
    }
}

#[test]
fn strips_short_marker() {
    let p = parse_price("S/ 3").unwrap();
    assert_eq!(p, Price { negative: false, mantissa: 3, scale: 0 });
}

#[test]
fn strips_long_marker_before_short_one() {
    let p = parse_price("S/.7.25").unwrap();
    assert_eq!(p, Price { negative: false, mantissa: 725, scale: 2 });
}

#[test]
fn reads_signs() {
    assert_eq!(parse_price("-5").unwrap(), Price { negative: true, mantissa: 5, scale: 0 });
    assert_eq!(parse_price("+5.5").unwrap(), Price { negative: false, mantissa: 55, scale: 1 });
}

#[test]
fn reads_point_at_either_end() {
    assert_eq!(parse_price(".5").unwrap(), Price { negative: false, mantissa: 5, scale: 1 });
    assert_eq!(parse_price("5.").unwrap(), Price { negative: false, mantissa: 5, scale: 0 });
}

#[test]
fn rejects_malformed_numbers() {
    for raw in ["", " ", ".", "-", "1.2.3", "1e5", "12 3", "S/.", "1-2", "nan"] {
        assert!(matches!(parse_price(raw), Err(SpiderError::PriceParseError(_))), "{:?}", raw);
    }
}

#[test]
fn rejects_digits_beyond_64_bits() {
    assert_eq!(
        parse_price("18446744073709551615").unwrap(),
        Price { negative: false, mantissa: u64::MAX, scale: 0 }
    );
    assert!(matches!(
        parse_price("18446744073709551616"),
        Err(SpiderError::PriceParseError(_))
    ));
}

#[test]
fn trims_unicode_white_space() {
    let p = parse_price("\u{a0}\t 42 \u{2003}\n").unwrap();
    assert_eq!(p, Price { negative: false, mantissa: 42, scale: 0 });
}

#[test]
fn characters_round_trip() {
    let chars = to_chars("S/. ñandú");
    assert_eq!(chars.len(), 9);
    assert_eq!(from_chars(&chars), "S/. ñandú");
}

#[test]
fn removes_every_occurrence_from_the_left() {
    let out = remove_all(&to_chars("aaXaaaY"), &to_chars("aa"));
    assert_eq!(from_chars(&out), "XaY");
    let same = remove_all(&to_chars("abc"), &to_chars(""));
    assert_eq!(from_chars(&same), "abc");
}

#[test]
fn trims_both_ends_only() {
    assert_eq!(from_chars(&trim(&to_chars("  a b  "))), "a b");
    assert_eq!(from_chars(&trim(&to_chars("   "))), "");
}

#[test]
fn equal_numbers_are_equal_prices() {
    assert_eq!(parse_price("12.0").unwrap(), parse_price("12").unwrap());
    assert_eq!(parse_price("S/. 1,234.50").unwrap(), parse_price("1234.5").unwrap());
    assert_eq!(parse_price("0.00").unwrap(), Price { negative: false, mantissa: 0, scale: 0 });
    assert_eq!(parse_price("-0.0").unwrap(), parse_price("0").unwrap());
    assert_eq!(parse_price("100").unwrap(), Price { negative: false, mantissa: 100, scale: 0 });
    assert_ne!(parse_price("1.5").unwrap(), parse_price("-1.5").unwrap());
}

#[test]
fn new_price_is_reduced() {
    assert_eq!(Price::new(false, 1200, 3), Price { negative: false, mantissa: 12, scale: 1 });
    assert_eq!(Price::new(true, 1200, 1), Price { negative: true, mantissa: 120, scale: 0 });
    assert_eq!(Price::new(true, 0, 5), Price { negative: false, mantissa: 0, scale: 0 });
    assert_eq!(Price::new(false, 7, 2), Price { negative: false, mantissa: 7, scale: 2 });
}

#[test]
fn markers_and_outer_space_do_not_change_the_price() {
    let plain = parse_price("1,234.5").unwrap();
    for raw in ["S/.1,234.5", "S/1,234.5", "  1,234.5\t", " S/. 1,234.5 ", "\u{a0}S/ 1,234.5\n"] {
        assert_eq!(parse_price(raw).unwrap(), plain, "{:?}", raw);
    }
    assert_eq!(parse_price("S/.5").unwrap(), Price { negative: false, mantissa: 5, scale: 0 });
}

#[test]
fn texts_are_compared_by_their_characters() {
    assert!(same_text("data-id", "data-id"));
    assert!(same_text("", ""));
    assert!(!same_text("data-id", "data-ID"));
    assert!(!same_text("data-id", "data-i"));
    assert!(!same_text("ñ", "n"));
}
