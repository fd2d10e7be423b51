use kiteconnect::urlenc::{encode_component, decode_component};
use kiteconnect::urls::{compose_url, parse_url, origin_is_valid, path_is_valid};

#[test]
fn encode_escapes_delimiters() {
    assert_eq!(encode_component("abc-09_.~"), "abc-09_.~");
    assert_eq!(encode_component("a b&c=d"), "a%20b%26c%3Dd");
    assert_eq!(encode_component("NSE:INFY"), "NSE%3AINFY");
}

#[test]
fn decode_inverts_encode() {
    let cases = ["", "plain", "a b&c=d?e#f", "100%", "x/y:z", "~-._"];
    for s in cases {
        let enc = encode_component(s);
        assert_eq!(decode_component(&enc).unwrap(), s);
    }
    // a malformed escape is rejected
    assert!(decode_component("%Z1").is_none());
    assert!(decode_component("abc%1").is_none());
}

#[test]
fn url_round_trip_concrete() {
    // built URLs parse back into the same origin, path, and ordered pairs
    let params: Vec<(String, String)> = vec![
        ("transaction_type".to_string(), "BUY".to_string()),
        ("instruments".to_string(), "NSE:INFY".to_string()),
        ("instruments".to_string(), "NSE:RELIANCE".to_string()),
        ("note".to_string(), "a b&c".to_string()),
    ];
    let url = compose_url("https://api.kite.trade", "/instruments/trigger_range", &params);
    let (origin, path, parsed) = parse_url(&url).unwrap();
    assert_eq!(origin, "https://api.kite.trade");
    assert_eq!(path, "/instruments/trigger_range");
    assert_eq!(parsed, params);
}

#[test]
fn url_round_trip_no_query() {
    let empty: Vec<(String, String)> = Vec::new();
    let url = compose_url("http://127.0.0.1:1234", "/user/margins", &empty);
    assert_eq!(url, "http://127.0.0.1:1234/user/margins");
    let (origin, path, parsed) = parse_url(&url).unwrap();
    assert_eq!(origin, "http://127.0.0.1:1234");
    assert_eq!(path, "/user/margins");
    assert!(parsed.is_empty());
}

#[test]
fn origin_and_path_validity() {
    assert!(origin_is_valid("https://api.kite.trade"));
    assert!(origin_is_valid("http://127.0.0.1:1234"));
    assert!(!origin_is_valid("api.kite.trade"));
    assert!(!origin_is_valid("https://"));
    assert!(!origin_is_valid("://host"));
    assert!(!origin_is_valid("https://ho/st"));
    assert!(path_is_valid("/orders"));
    assert!(path_is_valid("/orders/regular/1"));
    assert!(!path_is_valid("orders"));
    assert!(!path_is_valid(""));
    assert!(!path_is_valid("/orders?x"));
}

#[test]
fn malformed_urls_do_not_parse() {
    assert!(parse_url("no-scheme-here").is_none());
    assert!(parse_url("https://hostonly").is_none());
    assert!(parse_url("https://host/path?notapair").is_none());
}

#[test]
fn encode_utf8_percent_escapes() {
    // characters beyond ASCII become one escape per UTF-8 byte
    assert_eq!(encode_component("café"), "caf%C3%A9");
    assert_eq!(decode_component("caf%C3%A9").unwrap(), "café");
    assert_eq!(encode_component("₹10"), "%E2%82%B910");
    assert_eq!(decode_component("%E2%82%B910").unwrap(), "₹10");
    // a raw non-ASCII character is not valid encoder output
    assert!(decode_component("café").is_none());
    // escapes that are not UTF-8 are rejected
    assert!(decode_component("%FF").is_none());
}

#[test]
fn url_round_trip_non_ascii_value() {
    let params: Vec<(String, String)> = vec![("q".to_string(), "café ₹".to_string())];
    let url = compose_url("https://api.kite.trade", "/instruments", &params);
    assert_eq!(url, "https://api.kite.trade/instruments?q=caf%C3%A9%20%E2%82%B9");
    let (_, _, parsed) = parse_url(&url).unwrap();
    assert_eq!(parsed, params);
}
