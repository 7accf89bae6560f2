//! Commission parsing and display.

use espresso_core::commission::{parse_commission, Commission};

#[test]
fn test_commission_display() {
    let cases = [
        (0, "0.00 %"),
        (1, "0.01 %"),
        (100, "1.00 %"),
        (200, "2.00 %"),
        (1234, "12.34 %"),
        (10000, "100.00 %"),
    ];
    for (input, expected) in cases {
        let commission = Commission::from_basis_points(input).unwrap();
        assert_eq!(commission.display(), expected);
    }
}

#[test]
fn test_parse_commission() {
    let cases = [
        ("0", 0),
        ("0.0", 0),
        ("0.00", 0),
        ("0.000", 0),
        ("0.01", 1),
        ("1", 100),
        ("2", 200),
        ("1.000000", 100),
        ("1.2", 120),
        ("12.34", 1234),
        ("100", 10000),
        ("100.0", 10000),
        ("100.00", 10000),
        ("100.000", 10000),
    ];
    for (input, expected) in cases {
        let parsed = parse_commission(input).unwrap().to_evm();
        assert_eq!(
            parsed, expected,
            "input: {input}, parsed: {parsed} != expected {expected}"
        );
    }

    let failure_cases = [
        "-1", "-0.001", "0.123", "0.1234", "99.999", ".001", "100.01", "100.1", "1000", "fooo",
        "0.0.",
    ];
    for input in failure_cases {
        assert!(
            parse_commission(input).is_err(),
            "input: {input} did not fail"
        );
    }
}

#[test]
fn commission_round_trips_through_basis_points() {
    for bp in [0u16, 1, 99, 100, 9999, 10000] {
        let c = Commission::from_basis_points(bp).unwrap();
        assert_eq!(c.to_evm(), bp);
    }
    assert!(Commission::from_basis_points(10001).is_err());
}

#[test]
fn signed_zero_parses_and_plus_sign_is_accepted() {
    assert_eq!(parse_commission("-0.00").unwrap().to_evm(), 0);
    assert_eq!(parse_commission("+12.34").unwrap().to_evm(), 1234);
    assert!(parse_commission("").is_err());
    assert!(parse_commission("+").is_err());
    assert!(parse_commission("12.").is_err());
}
