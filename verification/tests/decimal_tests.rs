use grid_trade::decimal::Decimal;
use grid_trade::math::Range;

use std::str::FromStr;

fn dec(value: &str) -> Decimal {
    let d = rust_decimal::Decimal::from_str(value).unwrap();
    Decimal::from_parts(d.mantissa(), d.scale()).unwrap()
}

#[test]
fn range_bounds_ignore_stored_order() {
    let forward = Range(dec("2.5"), dec("7"));
    let backward = Range(dec("7"), dec("2.5"));

    assert_eq!(forward.min(), backward.min());
    assert_eq!(forward.max(), backward.max());
    assert_eq!(*forward.min(), dec("2.5"));
    assert_eq!(*forward.max(), dec("7"));
    assert!(forward.min().le(forward.max()));

    for probe in ["2.5", "3", "7", "2.499", "7.001"] {
        assert_eq!(forward.is_within(&dec(probe)), backward.is_within(&dec(probe)));
    }
    assert!(forward.is_within(&dec("2.5")));
    assert!(forward.is_within(&dec("7")));
    assert!(!forward.is_within(&dec("7.001")));
    assert!(!forward.is_within(&dec("2.499")));
}

#[test]
fn equality_ignores_trailing_zeros() {
    assert_eq!(dec("0.4"), dec("0.400"));
    assert_eq!(dec("30"), dec("30.0"));
    assert_ne!(dec("0.4"), dec("0.41"));
    assert_eq!(dec("-5"), dec("-5.0"));
}

#[test]
fn from_parts_rejects_out_of_range() {
    assert!(Decimal::from_parts(1, 29).is_none());
    assert!(Decimal::from_parts(i128::MAX, 0).is_none());
    assert!(Decimal::from_parts(-i128::MAX, 0).is_none());

    let d = Decimal::from_parts(3996, 4).unwrap();
    assert_eq!(d.mantissa(), 3996);
    assert_eq!(d.scale(), 4);
    assert_eq!(d, dec("0.3996"));
}

#[test]
fn truncation_drops_and_pads_digits() {
    assert_eq!(dec("3.141592").trunc_with_scale(2), dec("3.14"));
    assert_eq!(dec("-1.98765").trunc_with_scale(1), dec("-1.9"));
    assert_eq!(dec("16.666666666666").trunc_with_scale(6), dec("16.666666"));
    // Truncation to a larger scale pads zeros: the value is unchanged and
    // the stored scale grows.
    let padded = dec("25").trunc_with_scale(6);
    assert_eq!(padded, dec("25"));
    assert_eq!(padded.scale(), 6);
    assert_eq!(padded.mantissa(), 25_000_000);
}

#[test]
fn parts_round_trip() {
    for text in ["0", "0.4", "-5", "2808.75", "79.8400800", "0.0998899905052705733099999825"] {
        let d = dec(text);
        let back = Decimal::from_parts(d.mantissa(), d.scale()).unwrap();
        assert_eq!(back.mantissa(), d.mantissa());
        assert_eq!(back.scale(), d.scale());
        assert_eq!(back, d);
    }
}

#[test]
fn checked_arithmetic_reports_overflow() {
    let max = Decimal::max_value();
    assert!(max.checked_add(&Decimal::one()).is_none());
    assert!(max.checked_mul(&Decimal::two()).is_none());
    assert!(Decimal::one().checked_div(&Decimal::zero()).is_none());
    assert_eq!(max.checked_sub(&max).unwrap(), Decimal::zero());
    assert_eq!(dec("1070").checked_div(&dec("80")).unwrap(), dec("13.375"));
    assert_eq!(dec("0.3996").checked_mul(&dec("200")).unwrap(), dec("79.92"));
    assert_eq!(dec("20.0").checked_sub(&dec("0.05")).unwrap(), dec("19.95"));
}

#[test]
fn transport_text_round_trip() {
    // The values the app-side transport carries survive a trip through
    // rust_decimal's textual form and back, and through mantissa/scale
    // parts, unchanged.
    for text in ["0.4", "-5", "2808.75", "79.8400800", "13.375", "99.225"] {
        let raw = rust_decimal::Decimal::from_str(text).unwrap();
        let reparsed = rust_decimal::Decimal::from_str(&raw.to_string()).unwrap();
        assert_eq!(raw, reparsed);
        assert_eq!(raw.mantissa(), reparsed.mantissa());
        assert_eq!(raw.scale(), reparsed.scale());
        let ours = Decimal::from_parts(raw.mantissa(), raw.scale()).unwrap();
        let back = rust_decimal::Decimal::from_i128_with_scale(ours.mantissa(), ours.scale());
        assert_eq!(raw, back);
    }
}
