use binance_core::{
    Client, ExchangeInformation, General, HttpOutcome, Method, Params, SdkError, Symbol, API,
    Spot,
};

fn client_with(api_key: Option<&str>, secret: Option<&str>) -> Client {
    Client::new(
        api_key.map(|s| s.to_string()),
        secret.map(|s| s.to_string()),
        "https://api.binance.com".to_string(),
    )
}

fn general() -> General {
    General::new(client_with(Some("api-key"), Some("secret")))
}

#[test]
fn ping_request_targets_the_ping_endpoint() {
    let plan = general().ping_request();
    assert_eq!(plan.method, Method::Get);
    assert_eq!(plan.url, "https://api.binance.com/api/v3/ping");
    assert_eq!(plan.api_key_header.as_deref(), Some("api-key"));
}

#[test]
fn ping_answers_pong_on_empty_object() {
    let outcome = HttpOutcome::Response { status: 200, body: "{}".to_string() };
    assert_eq!(general().ping(outcome).unwrap(), "pong");
}

#[test]
fn ping_classifies_failures() {
    let g = general();
    let business = HttpOutcome::Response {
        status: 400,
        body: "{\"code\": -1121, \"msg\": \"Invalid symbol.\"}".to_string(),
    };
    assert!(matches!(g.ping(business), Err(SdkError::BinanceError(_))));
    let network = HttpOutcome::NetworkFailure { detail: "timeout".to_string() };
    assert!(matches!(g.ping(network), Err(SdkError::TransportError { status: None, .. })));
    let junk = HttpOutcome::Response { status: 200, body: "pong".to_string() };
    assert!(matches!(g.ping(junk), Err(SdkError::DecodeError { .. })));
}

#[test]
fn server_time_round_trips_through_the_envelope() {
    let outcome = HttpOutcome::Response {
        status: 200,
        body: "{\"serverTime\": 1499827319559}".to_string(),
    };
    let t = general().get_server_time(outcome).unwrap();
    assert_eq!(t.server_time, 1499827319559);
}

#[test]
fn exchange_info_requests() {
    let g = general();
    let plain = g.exchange_info();
    assert_eq!(plain.url, "https://api.binance.com/api/v3/exchangeInfo");
    let filtered = g.exchange_info_permission("SPOT");
    assert_eq!(filtered.url, "https://api.binance.com/api/v3/exchangeInfo?permissions=SPOT");
}

#[test]
fn unsigned_client_keeps_header_only_auth() {
    let c = client_with(None, None);
    let plan = c.get(API::Spot(Spot::Time), None);
    assert_eq!(plan.method, Method::Get);
    assert_eq!(plan.url, "https://api.binance.com/api/v3/time");
    assert_eq!(plan.api_key_header, None);
}

// A signed request without a configured secret fails with a configuration
// error before any plan exists, so no network call can have been attempted.
#[test]
fn signing_without_secret_is_a_configuration_error() {
    let c = client_with(Some("api-key"), None);
    let params = Params::new();
    match c.signed_request_at(Method::Post, API::Spot(Spot::Time), &params, 1499827319559) {
        Err(SdkError::ConfigurationError { .. }) => {},
        other => panic!("expected a configuration error, got {:?}", other.is_ok()),
    }
    assert!(matches!(
        c.signed_request(Method::Post, API::Spot(Spot::Time), &params),
        Err(SdkError::ConfigurationError { .. })
    ));
}

#[test]
fn signed_request_carries_timestamp_and_signature() {
    let c = client_with(Some("api-key"), Some("secret"));
    let mut params = Params::new();
    params.insert("symbol", "BTCUSDT");
    let plan = c
        .signed_request_at(Method::Get, API::Spot(Spot::ExchangeInfo), &params, 1499827319559)
        .unwrap();
    assert!(plan.url.starts_with(
        "https://api.binance.com/api/v3/exchangeInfo?symbol=BTCUSDT&timestamp=1499827319559&signature="
    ));
    assert_eq!(plan.api_key_header.as_deref(), Some("api-key"));
}

fn symbol(name: &str) -> Symbol {
    Symbol {
        symbol: name.to_string(),
        status: "TRADING".to_string(),
        maint_margin_percent: "2.5".to_string(),
        required_margin_percent: "5".to_string(),
        base_asset: "BTC".to_string(),
        quote_asset: "USDT".to_string(),
        onboard_date: 1569398400000,
        price_precision: 2,
        quantity_precision: 3,
        base_asset_precision: 8,
        quote_precision: 8,
        order_types: vec!["LIMIT".to_string(), "MARKET".to_string()],
        time_in_force: vec!["GTC".to_string()],
    }
}

fn info() -> ExchangeInformation {
    ExchangeInformation {
        timezone: "UTC".to_string(),
        server_time: 1499827319559,
        rate_limits: Vec::new(),
        exchange_filters: Vec::new(),
        symbols: vec![symbol("ETHUSDT"), symbol("BTCUSDT")],
    }
}

#[test]
fn symbol_lookup_folds_case_and_finds_first_match() {
    let g = general();
    let found = g.get_symbol_info(&info(), "btcusdt").unwrap();
    assert_eq!(found.symbol, "BTCUSDT");
    let also = g.get_symbol_info(&info(), "ETHUSDT").unwrap();
    assert_eq!(also.symbol, "ETHUSDT");
}

#[test]
fn symbol_lookup_reports_missing_symbols() {
    let g = general();
    match g.get_symbol_info(&info(), "DOGEUSDT") {
        Err(SdkError::Other(m)) => assert_eq!(m, "Symbol not found"),
        other => panic!("expected a miss, got {:?}", other.is_ok()),
    }
}
