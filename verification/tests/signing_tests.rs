use binance_core::{sign_query, Params};

fn example_params() -> Params {
    let mut p = Params::new();
    p.insert("symbol", "LTCBTC");
    p.insert("side", "BUY");
    p.insert("type", "LIMIT");
    p.insert("timeInForce", "GTC");
    p.insert("quantity", "1");
    p.insert("price", "0.1");
    p.insert("recvWindow", "5000");
    p
}

const SECRET: &str = "NhqPtmdSJYdKjVHjA7PZj4Mge3R5YNiP1e3UZjInClVN65XAbvqqM6A7H5fATj0j";

// The documented reference vector for the exchange's signature scheme.
#[test]
fn signature_matches_reference_vector() {
    let mut p = example_params();
    let signed = sign_query(&mut p, SECRET, 1499827319559);
    assert_eq!(
        signed,
        "symbol=LTCBTC&side=BUY&type=LIMIT&timeInForce=GTC&quantity=1&price=0.1&recvWindow=5000\
         &timestamp=1499827319559\
         &signature=c8db56825ae71d6d79447849e617115f4a920fa2acdcab2b053c4b2838bd6b71"
    );
}

// Signing is deterministic: same parameters, secret and timestamp give the
// same signed query, signature included.
#[test]
fn signing_is_deterministic() {
    let mut a = example_params();
    let mut b = example_params();
    let qa = sign_query(&mut a, SECRET, 1499827319559);
    let qb = sign_query(&mut b, SECRET, 1499827319559);
    assert_eq!(qa, qb);
}

#[test]
fn signature_depends_on_timestamp() {
    let mut a = example_params();
    let mut b = example_params();
    let qa = sign_query(&mut a, SECRET, 1499827319559);
    let qb = sign_query(&mut b, SECRET, 1499827319560);
    assert_ne!(qa, qb);
}

#[test]
fn insert_is_last_write_wins() {
    let mut p = Params::new();
    p.insert("symbol", "LTCBTC");
    p.insert("limit", "10");
    p.insert("symbol", "BTCUSDT");
    assert_eq!(p.to_query_string(), "limit=10&symbol=BTCUSDT");
}

#[test]
fn query_string_preserves_insertion_order() {
    let mut p = Params::new();
    p.insert("b", "2");
    p.insert("a", "1");
    assert_eq!(p.to_query_string(), "b=2&a=1");
    assert_eq!(Params::new().to_query_string(), "");
}
