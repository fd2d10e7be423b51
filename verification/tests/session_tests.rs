use sha2::Digest;
use kiteconnect::connect::KiteConnect;
use kiteconnect::checksum::{native_checksum, checksum_from_host, checksum_input};
use kiteconnect::errors::KiteError;
use kiteconnect::request::Method;

#[test]
fn native_checksum_is_sha256_hex() {
    assert_eq!(
        native_checksum("abc"),
        "ba7816bf8f01cfea414140de5dae2223b00361a396177a9cb410ff61f20015ad"
    );
    assert_eq!(native_checksum("").len(), 64);
}

#[test]
fn both_checksum_backends_agree() {
    // the host backend, handed the true digest, renders exactly what the
    // native backend computes
    let input = "keyrequest_tokensecret";
    let digest = sha2::Sha256::digest(input.as_bytes()).to_vec();
    let host = checksum_from_host(Some(digest)).unwrap();
    let native = native_checksum(input);
    assert_eq!(host, native);
    assert_eq!(host.len(), 64);
    assert!(host.chars().all(|c| c.is_ascii_hexdigit() && !c.is_ascii_uppercase()));
}

#[test]
fn missing_host_crypto_fails_loud() {
    match checksum_from_host(None) {
        Err(KiteError::CryptoUnavailable) => {},
        _ => panic!("expected CryptoUnavailable"),
    }
}

#[test]
fn checksum_input_concatenates_in_order() {
    assert_eq!(checksum_input("k", "rt", "sec"), "krtsec");
}

#[test]
fn generate_session_request_shape() {
    let kiteconnect = KiteConnect::new("key", "");
    let req = kiteconnect.generate_session_request("rtoken", "secret");
    assert_eq!(req.method, Method::Post);
    assert_eq!(req.url, "https://api.kite.trade/session/token");
    assert_eq!(req.params[0], ("api_key".to_string(), "key".to_string()));
    assert_eq!(req.params[1], ("request_token".to_string(), "rtoken".to_string()));
    assert_eq!(
        req.params[2],
        ("checksum".to_string(), native_checksum("keyrtokensecret"))
    );
}

#[test]
fn generate_session_installs_token_on_success() {
    let mut kiteconnect = KiteConnect::new("key", "token");
    let body = "{\"data\":{\"access_token\":\"xyz\"}}";
    let v = kiteconnect.generate_session_apply(200, body).unwrap();
    // the stored token now equals the nested data.access_token field
    assert_eq!(kiteconnect.access_token(), "xyz");
    assert_eq!(v["data"]["access_token"].as_str(), Some("xyz"));
}

#[test]
fn generate_session_failure_leaves_token_unchanged() {
    let mut kiteconnect = KiteConnect::new("key", "token");
    let err = kiteconnect.generate_session_apply(403, "bad request token").unwrap_err();
    assert_eq!(kiteconnect.access_token(), "token");
    match err {
        KiteError::ApiError { status, message } => {
            assert_eq!(status, 403);
            assert_eq!(message, "bad request token");
        },
        _ => panic!("expected an ApiError"),
    }
    // a success status whose body does not decode also leaves it unchanged
    let err2 = kiteconnect.generate_session_apply(200, "not json").unwrap_err();
    assert_eq!(kiteconnect.access_token(), "token");
    match err2 {
        KiteError::DecodeError(m) => assert_eq!(m, "not json"),
        _ => panic!("expected a DecodeError"),
    }
    // decoded JSON without the token field is a decode failure too
    let err3 = kiteconnect.generate_session_apply(200, "{\"data\":{}}").unwrap_err();
    assert_eq!(kiteconnect.access_token(), "token");
    assert!(matches!(err3, KiteError::DecodeError(_)));
}

#[test]
fn renew_access_token_installs_top_level_token() {
    let mut kiteconnect = KiteConnect::new("key", "old");
    let body = "{\"access_token\":\"fresh\"}";
    kiteconnect.renew_access_token_apply(200, body).unwrap();
    assert_eq!(kiteconnect.access_token(), "fresh");

    let req = kiteconnect.renew_access_token_request("fresh", "secret");
    assert_eq!(req.url, "https://api.kite.trade/session/refresh_token");
    assert_eq!(req.params[1], ("access_token".to_string(), "fresh".to_string()));
}

#[test]
fn invalidation_requests_do_not_touch_state() {
    let mut kiteconnect = KiteConnect::new("key", "token");
    let r1 = kiteconnect.invalidate_access_token_request("token");
    assert_eq!(r1.method, Method::Delete);
    assert_eq!(r1.url, "https://api.kite.trade/session/token");
    assert_eq!(r1.params, vec![("access_token".to_string(), "token".to_string())]);
    let r2 = kiteconnect.invalidate_refresh_token_request("rtok");
    assert_eq!(r2.method, Method::Delete);
    assert_eq!(r2.url, "https://api.kite.trade/session/refresh_token");
    assert_eq!(r2.params, vec![("refresh_token".to_string(), "rtok".to_string())]);
    assert_eq!(kiteconnect.access_token(), "token");
}

#[test]
fn session_request_with_host_checksum() {
    // the sandboxed flow: the host computes the digest, the library renders
    // it and builds the same request the native flow would
    let kiteconnect = KiteConnect::new("key", "");
    let input = checksum_input("key", "rtoken", "secret");
    let digest = sha2::Sha256::digest(input.as_bytes()).to_vec();
    let checksum = checksum_from_host(Some(digest)).unwrap();
    let host_req = kiteconnect.generate_session_request_with_checksum("rtoken", &checksum);
    let native_req = kiteconnect.generate_session_request("rtoken", "secret");
    assert_eq!(host_req.params, native_req.params);
    assert_eq!(host_req.url, native_req.url);
}

#[test]
fn non_string_token_field_is_a_decode_failure() {
    let mut kiteconnect = KiteConnect::new("key", "token");
    let err = kiteconnect
        .generate_session_apply(200, "{\"data\":{\"access_token\":42}}")
        .unwrap_err();
    assert_eq!(kiteconnect.access_token(), "token");
    assert!(matches!(err, KiteError::DecodeError(_)));
}
