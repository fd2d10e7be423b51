use kiteconnect::connect::KiteConnect;
use kiteconnect::request::{body_kind, BodyKind, Method};

#[test]
fn test_build_url() {
    let kiteconnect = KiteConnect::new("key", "token");
    let url = kiteconnect.build_url("/my-holdings", None);
    assert_eq!(url.as_str(), "https://api.kite.trade/my-holdings");

    let mut params: Vec<(String, String)> = Vec::new();
    params.push(("one".to_string(), "1".to_string()));
    let url = kiteconnect.build_url("/my-holdings", Some(&params));
    assert_eq!(url.as_str(), "https://api.kite.trade/my-holdings?one=1");
}

#[test]
fn test_set_access_token() {
    let mut kiteconnect = KiteConnect::new("key", "token");
    assert_eq!(kiteconnect.access_token(), "token");
    kiteconnect.set_access_token("my_token");
    assert_eq!(kiteconnect.access_token(), "my_token");
}

#[test]
fn test_login_url() {
    let kiteconnect = KiteConnect::new("key", "token");
    assert_eq!(
        kiteconnect.login_url(),
        "https://kite.trade/connect/login?api_key=key&v3"
    );
}

#[test]
fn test_set_root() {
    let mut kiteconnect = KiteConnect::new("key", "token");
    assert!(kiteconnect.set_root("http://127.0.0.1:1234"));
    assert_eq!(
        kiteconnect.build_url("/my-holdings", None),
        "http://127.0.0.1:1234/my-holdings"
    );
    // a malformed origin is rejected and the old one kept
    assert!(!kiteconnect.set_root("not a url"));
    assert_eq!(
        kiteconnect.build_url("/my-holdings", None),
        "http://127.0.0.1:1234/my-holdings"
    );
}

#[test]
fn test_request_headers() {
    let kiteconnect = KiteConnect::new("key", "token");
    let headers = kiteconnect.request_headers();
    assert_eq!(headers.len(), 3);
    assert_eq!(headers[0], ("XKiteVersion".to_string(), "3".to_string()));
    assert_eq!(headers[1], ("Authorization".to_string(), "token key:token".to_string()));
    assert_eq!(headers[2], ("User-Agent".to_string(), "Rust".to_string()));
}

#[test]
fn test_body_kind_per_verb() {
    assert_eq!(body_kind(Method::Get), BodyKind::Empty);
    assert_eq!(body_kind(Method::Post), BodyKind::FormEncoded);
    assert_eq!(body_kind(Method::Put), BodyKind::FormEncoded);
    assert_eq!(body_kind(Method::Delete), BodyKind::JsonEncoded);
}

#[test]
fn test_get_endpoint_urls() {
    let kiteconnect = KiteConnect::new("key", "token");
    assert_eq!(kiteconnect.profile_request().url, "https://api.kite.trade/user/profile");
    assert_eq!(kiteconnect.holdings_request().url, "https://api.kite.trade/portfolio/holdings");
    assert_eq!(kiteconnect.positions_request().url, "https://api.kite.trade/portfolio/positions");
    assert_eq!(kiteconnect.orders_request().url, "https://api.kite.trade/orders");
    assert_eq!(kiteconnect.trades_request().url, "https://api.kite.trade/trades");
    assert_eq!(kiteconnect.mf_instruments_request().url, "https://api.kite.trade/mf/instruments");
    assert_eq!(kiteconnect.margins_request(None).url, "https://api.kite.trade/user/margins");
    assert_eq!(
        kiteconnect.margins_request(Some("commodity")).url,
        "https://api.kite.trade/user/margins/commodity"
    );
    assert_eq!(
        kiteconnect.mf_orders_request(None).url,
        "https://api.kite.trade/mf/orders"
    );
    assert_eq!(
        kiteconnect.mf_orders_request(Some("171229000724687")).url,
        "https://api.kite.trade/mf/orders/171229000724687"
    );
    assert_eq!(
        kiteconnect.instruments_request(None).url,
        "https://api.kite.trade/instruments"
    );
    assert_eq!(
        kiteconnect.instruments_request(Some("NSE")).url,
        "https://api.kite.trade/instruments/NSE"
    );
    assert_eq!(
        kiteconnect.order_trades_request("171229000724687").url,
        "https://api.kite.trade/orders/171229000724687/trades"
    );
}

#[test]
fn test_order_history_query() {
    let kiteconnect = KiteConnect::new("key", "token");
    let req = kiteconnect.order_history_request("171229000724687");
    assert_eq!(req.method, Method::Get);
    assert_eq!(req.url, "https://api.kite.trade/orders?order_id=171229000724687");
    assert!(req.params.is_empty());
}

#[test]
fn test_trigger_range_repeated_keys() {
    let kiteconnect = KiteConnect::new("key", "token");
    let instruments = vec!["NSE:INFY".to_string(), "NSE:RELIANCE".to_string()];
    let req = kiteconnect.trigger_range_request("BUY", &instruments);
    assert_eq!(req.method, Method::Get);
    assert_eq!(
        req.url,
        "https://api.kite.trade/instruments/trigger_range?transaction_type=BUY&instruments=NSE%3AINFY&instruments=NSE%3ARELIANCE"
    );
}

#[test]
fn test_place_order_params() {
    let kiteconnect = KiteConnect::new("key", "token");
    let req = kiteconnect.place_order_request(
        "regular", "NSE", "INFY", "BUY", "10",
        Some("CNC"), None, Some("1500.0"), None, None, None, None, None, None, None,
    );
    assert_eq!(req.method, Method::Post);
    assert_eq!(req.url, "https://api.kite.trade/orders/regular");
    let expect: Vec<(String, String)> = vec![
        ("variety".to_string(), "regular".to_string()),
        ("exchange".to_string(), "NSE".to_string()),
        ("tradingsymbol".to_string(), "INFY".to_string()),
        ("transaction_type".to_string(), "BUY".to_string()),
        ("quantity".to_string(), "10".to_string()),
        ("product".to_string(), "CNC".to_string()),
        ("price".to_string(), "1500.0".to_string()),
    ];
    assert_eq!(req.params, expect);
}

#[test]
fn test_modify_cancel_exit_orders() {
    let kiteconnect = KiteConnect::new("key", "token");
    let m = kiteconnect.modify_order_request(
        "171229000724687", "regular",
        Some("15"), None, None, None, None, None, None,
    );
    assert_eq!(m.method, Method::Put);
    assert_eq!(m.url, "https://api.kite.trade/orders/regular/171229000724687");
    assert_eq!(
        m.params,
        vec![
            ("order_id".to_string(), "171229000724687".to_string()),
            ("variety".to_string(), "regular".to_string()),
            ("quantity".to_string(), "15".to_string()),
        ]
    );

    let c = kiteconnect.cancel_order_request("171229000724687", "regular", None);
    assert_eq!(c.method, Method::Delete);
    assert_eq!(c.url, "https://api.kite.trade/orders/regular/171229000724687");
    assert_eq!(
        c.params,
        vec![
            ("order_id".to_string(), "171229000724687".to_string()),
            ("variety".to_string(), "regular".to_string()),
        ]
    );

    // exiting a cover/bracket order is the same wire call as cancelling it
    let e = kiteconnect.exit_order_request("171229000724687", "regular", None);
    assert_eq!(e.method, c.method);
    assert_eq!(e.url, c.url);
    assert_eq!(e.params, c.params);
}

#[test]
fn test_convert_position_params() {
    let kiteconnect = KiteConnect::new("key", "token");
    let req = kiteconnect.convert_position_request(
        "NSE", "INFY", "BUY", "day", "10", "MIS", "CNC",
    );
    assert_eq!(req.method, Method::Put);
    assert_eq!(req.url, "https://api.kite.trade/portfolio/positions");
    assert_eq!(req.params.len(), 7);
    assert_eq!(req.params[0], ("exchange".to_string(), "NSE".to_string()));
    assert_eq!(req.params[6], ("new_product".to_string(), "CNC".to_string()));
}

#[test]
fn test_default_placeholder_client() {
    let kiteconnect = KiteConnect::default();
    assert_eq!(kiteconnect.access_token(), "<ACCESS-TOKEN>");
    assert_eq!(
        kiteconnect.login_url(),
        "https://kite.trade/connect/login?api_key=<API-KEY>&v3"
    );
}
