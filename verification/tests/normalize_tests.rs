use kiteconnect::errors::KiteError;
use kiteconnect::normalize::{normalize_json, normalize_table, normalize_table_raw};

#[test]
fn tabular_two_rows() {
    // header a,b,c with rows 1,2,3 and 4,5,6 gives exactly two records,
    // in order, each mapping the header names positionally
    let recs = normalize_table(200, "a,b,c\n1,2,3\n4,5,6").unwrap();
    assert_eq!(recs.len(), 2);
    assert_eq!(recs[0].len(), 3);
    assert_eq!(recs[0].pair(0), &("a".to_string(), "1".to_string()));
    assert_eq!(recs[0].pair(1), &("b".to_string(), "2".to_string()));
    assert_eq!(recs[0].pair(2), &("c".to_string(), "3".to_string()));
    assert_eq!(recs[1].get("a").unwrap(), "4");
    assert_eq!(recs[1].get("b").unwrap(), "5");
    assert_eq!(recs[1].get("c").unwrap(), "6");
}

#[test]
fn tabular_short_row_populates_fewer_keys() {
    let recs = normalize_table(200, "a,b,c\n1,2\n").unwrap();
    assert_eq!(recs.len(), 1);
    assert_eq!(recs[0].len(), 2);
    assert_eq!(recs[0].get("a").unwrap(), "1");
    assert_eq!(recs[0].get("b").unwrap(), "2");
    assert!(recs[0].get("c").is_none());
}

#[test]
fn tabular_extra_fields_are_dropped() {
    let recs = normalize_table(200, "a\n1,2\n").unwrap();
    assert_eq!(recs.len(), 1);
    assert_eq!(recs[0].len(), 1);
    assert_eq!(recs[0].get("a").unwrap(), "1");
}

#[test]
fn tabular_crlf_lines() {
    let recs = normalize_table(200, "a,b\r\n1,2\r\n").unwrap();
    assert_eq!(recs.len(), 1);
    assert_eq!(recs[0].get("a").unwrap(), "1");
    assert_eq!(recs[0].get("b").unwrap(), "2");
}

#[test]
fn tabular_empty_body() {
    let recs = normalize_table(200, "").unwrap();
    assert_eq!(recs.len(), 0);
}

#[test]
fn error_mode_carries_body_verbatim() {
    // a non-success response fails with the server's text, untouched
    let err = normalize_table(403, "invalid api key").unwrap_err();
    assert_eq!(err.message(), "invalid api key");
    match err {
        KiteError::ApiError { status, message } => {
            assert_eq!(status, 403);
            assert_eq!(message, "invalid api key");
        },
        _ => panic!("expected an ApiError"),
    }
    let err2 = normalize_json(500, "invalid api key").unwrap_err();
    assert_eq!(err2.message(), "invalid api key");
}

#[test]
fn json_mode_decodes_or_fails() {
    let v = normalize_json(200, "{\"data\":{\"x\":1}}").unwrap();
    assert_eq!(v["data"]["x"].as_i64(), Some(1));
    let err = normalize_json(200, "not json at all {").unwrap_err();
    match err {
        KiteError::DecodeError(m) => assert_eq!(m, "not json at all {"),
        _ => panic!("expected a DecodeError"),
    }
}

#[test]
fn raw_tabular_mode_returns_body_verbatim() {
    let body = "instrument_token,tradingsymbol\n408065,INFY\n";
    assert_eq!(normalize_table_raw(200, body).unwrap(), body);
    let err = normalize_table_raw(404, "no such route").unwrap_err();
    assert_eq!(err.message(), "no such route");
}

#[test]
fn instruments_csv_one_row() {
    // the instrument feed scenario: one data row yields one record whose
    // instrument_token field is the raw string
    let body = "instrument_token,tradingsymbol\n408065,INFY\n";
    let recs = normalize_table(200, body).unwrap();
    assert_eq!(recs.len(), 1);
    assert_eq!(recs[0].get("instrument_token").unwrap(), "408065");
    assert_eq!(recs[0].get("tradingsymbol").unwrap(), "INFY");
}

#[test]
fn repeated_read_is_structurally_identical() {
    // the same raw response normalized twice gives equal records
    let body = "a,b\n1,2\n3,4\n";
    let r1 = normalize_table(200, body).unwrap();
    let r2 = normalize_table(200, body).unwrap();
    assert_eq!(r1.len(), r2.len());
    for i in 0..r1.len() {
        assert_eq!(r1[i].pairs(), r2[i].pairs());
    }
}

#[test]
fn transport_error_message() {
    let e = KiteError::TransportError("connection refused".to_string());
    assert_eq!(e.message(), "connection refused");
}

#[test]
fn repeated_header_last_occurrence_wins() {
    let recs = normalize_table(200, "a,a\n1,2\n").unwrap();
    assert_eq!(recs.len(), 1);
    assert_eq!(recs[0].len(), 2);
    assert_eq!(recs[0].get("a").unwrap(), "2");
}

#[test]
fn repeated_json_read_is_structurally_identical() {
    // the same raw JSON response normalized twice gives equal values
    let body = "{\"data\":{\"x\":[1,2,3]}}";
    let v1 = normalize_json(200, body).unwrap();
    let v2 = normalize_json(200, body).unwrap();
    assert_eq!(v1, v2);
}
