use binance_core::{
    bool_from_wire, bool_to_wire, decimal_from_wire, decimal_from_wire_optional, decimal_to_wire,
    SdkError, WireDecimal,
};

fn round_trips(s: &str) {
    let d = decimal_from_wire(s).expect("valid decimal wire string");
    assert_eq!(decimal_to_wire(&d), s);
}

#[test]
fn decimal_round_trip_smallest_step() {
    round_trips("0.00000001");
}

#[test]
fn decimal_round_trip_keeps_source_precision() {
    round_trips("1.10");
    round_trips("1.1");
    round_trips("25.36000000");
    round_trips("0.0");
    round_trips("0");
}

#[test]
fn decimal_round_trip_negative() {
    round_trips("-0.00038246");
    round_trips("-3");
    round_trips("-0");
}

#[test]
fn decimal_round_trip_large() {
    round_trips("1234567890123456789012345678");
    round_trips("12345678901234567890.12345678");
}

#[test]
fn decimal_components() {
    let d = decimal_from_wire("11793.63104562").unwrap();
    assert!(!d.negative);
    assert_eq!(d.mantissa, 1179363104562);
    assert_eq!(d.scale, 8);
    let n = decimal_from_wire("-1.5").unwrap();
    assert!(n.negative);
    assert_eq!(n.mantissa, 15);
    assert_eq!(n.scale, 1);
}

#[test]
fn decimal_rejects_non_numeric() {
    for bad in [
        "abc", "", "-", ".", "1.", ".5", "-.5", "+1", "1e5", "1.2.3", "0 1", " 1", "1 ", "01",
        "01.5", "--1", "1-", "12345678901234567890123456789",
    ] {
        match decimal_from_wire(bad) {
            Err(SdkError::DecodeError { .. }) => {},
            other => panic!("{:?} accepted for {:?}", other.map(|d| d.mantissa), bad),
        }
    }
}

#[test]
fn decimal_optional_absent_is_none() {
    assert_eq!(decimal_from_wire_optional(None).unwrap(), None);
    let d = decimal_from_wire_optional(Some("2.5")).unwrap().unwrap();
    assert_eq!(decimal_to_wire(&d), "2.5");
    assert!(matches!(
        decimal_from_wire_optional(Some("abc")),
        Err(SdkError::DecodeError { .. })
    ));
}

#[test]
fn decimal_zero_default() {
    let z = WireDecimal::zero();
    assert_eq!(decimal_to_wire(&z), "0");
}

#[test]
fn bool_codec_is_exact_and_symmetric() {
    assert_eq!(bool_from_wire("true").unwrap(), true);
    assert_eq!(bool_from_wire("false").unwrap(), false);
    assert_eq!(bool_to_wire(true), "true");
    assert_eq!(bool_to_wire(false), "false");
    assert_eq!(bool_from_wire(&bool_to_wire(true)).unwrap(), true);
    assert_eq!(bool_from_wire(&bool_to_wire(false)).unwrap(), false);
    for bad in ["True", "FALSE", "1", "0", "", "yes"] {
        assert!(matches!(bool_from_wire(bad), Err(SdkError::DecodeError { .. })));
    }
}
