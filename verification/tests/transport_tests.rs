use binance_core::{
    decode_business_error, decode_mark_price, decode_server_time, handle_response, HttpOutcome,
    SdkError,
};

// A structured business-error body on a non-2xx status becomes the
// exchange's own error, not a generic transport error.
#[test]
fn business_error_is_discriminated() {
    let outcome = HttpOutcome::Response {
        status: 400,
        body: "{\"code\": -1121, \"msg\": \"Invalid symbol.\"}".to_string(),
    };
    match handle_response(outcome) {
        Err(SdkError::BinanceError(e)) => {
            assert_eq!(e.code, -1121);
            assert_eq!(e.msg, "Invalid symbol.");
        },
        other => panic!("expected a business error, got {:?}", other.is_ok()),
    }
}

#[test]
fn non_business_failure_body_falls_back_to_transport_error() {
    let outcome = HttpOutcome::Response { status: 500, body: "gateway timeout".to_string() };
    match handle_response(outcome) {
        Err(SdkError::TransportError { status, body }) => {
            assert_eq!(status, Some(500));
            assert_eq!(body, "gateway timeout");
        },
        other => panic!("expected a transport error, got {:?}", other.is_ok()),
    }
}

#[test]
fn network_failure_has_no_status() {
    let outcome = HttpOutcome::NetworkFailure { detail: "connection refused".to_string() };
    match handle_response(outcome) {
        Err(SdkError::TransportError { status, body }) => {
            assert_eq!(status, None);
            assert_eq!(body, "connection refused");
        },
        other => panic!("expected a transport error, got {:?}", other.is_ok()),
    }
}

#[test]
fn success_hands_body_through() {
    let outcome = HttpOutcome::Response { status: 200, body: "{}".to_string() };
    assert_eq!(handle_response(outcome).unwrap(), "{}");
}

#[test]
fn business_error_envelope_parses_in_any_member_order() {
    let e = decode_business_error("{\"msg\": \"Invalid symbol.\", \"code\": -1121}").unwrap();
    assert_eq!(e.code, -1121);
    assert_eq!(e.msg, "Invalid symbol.");
    assert!(decode_business_error("not json").is_none());
    assert!(decode_business_error("{\"code\": \"oops\", \"msg\": \"x\"}").is_none());
    assert!(decode_business_error("{\"code\": 40000, \"msg\": \"x\"}").is_none());
}

#[test]
fn only_transport_and_stream_failures_are_retryable() {
    assert!(SdkError::TransportError { status: None, body: String::new() }.is_retryable());
    assert!(SdkError::StreamError { detail: String::new() }.is_retryable());
    assert!(!SdkError::ClockError.is_retryable());
    assert!(!SdkError::DecodeError { field: String::new() }.is_retryable());
    let business = decode_business_error("{\"code\": -1121, \"msg\": \"Invalid symbol.\"}")
        .unwrap();
    assert!(!SdkError::BinanceError(business).is_retryable());
}

// A 200 body carrying the server time decodes to exactly that value.
#[test]
fn server_time_decodes() {
    let t = decode_server_time("{\"serverTime\": 1499827319559}").unwrap();
    assert_eq!(t.server_time, 1499827319559);
}

#[test]
fn server_time_shape_mismatch_is_decode_error() {
    for bad in [
        "{\"serverTime\": \"soon\"}",
        "{\"server\": 1}",
        "{\"serverTime\": -5}",
        "[1, 2]",
    ] {
        assert!(matches!(decode_server_time(bad), Err(SdkError::DecodeError { .. })));
    }
}

#[test]
fn mark_price_decodes_exactly() {
    let body = "{\"symbol\": \"BTCUSDT\", \"markPrice\": \"11793.63104562\", \
                \"lastFundingRate\": \"-0.00038246\", \"nextFundingTime\": 1597392000000, \
                \"time\": 1597370495002}";
    let mp = decode_mark_price(body).unwrap();
    assert_eq!(mp.symbol, "BTCUSDT");
    assert_eq!(mp.mark_price.mantissa, 1179363104562);
    assert_eq!(mp.mark_price.scale, 8);
    assert!(!mp.mark_price.negative);
    assert!(mp.last_funding_rate.negative);
    assert_eq!(mp.next_funding_time, 1597392000000);
    assert_eq!(mp.time, 1597370495002);
}

// A malformed decimal field in an otherwise well-formed response fails with
// a decode error naming the offending field; no partial value is returned.
#[test]
fn malformed_decimal_field_names_the_field() {
    let body = "{\"symbol\": \"BTCUSDT\", \"markPrice\": \"abc\", \
                \"lastFundingRate\": \"-0.00038246\", \"nextFundingTime\": 1597392000000, \
                \"time\": 1597370495002}";
    match decode_mark_price(body) {
        Err(SdkError::DecodeError { field }) => assert_eq!(field, "markPrice"),
        other => panic!("expected a decode error, got {:?}", other.is_ok()),
    }
}
