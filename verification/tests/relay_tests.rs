use relay::envelope::{build_envelope, build_outer_payload, build_relay_payload};
use relay::errors::RelayError;
use relay::headers::{materialize_headers, parse_header_entries};
use relay::request::{
    build_outbound_request, content_tag, encode_body, normalize_method, ContentTag, Method,
};
use relay::response::{decode_response, decode_response_body, response_body_text};
use std::io::Write;

#[test]
fn header_materializer_last_value_wins() {
    let src = r#"[{"key":"a","value":"1"},{"key":"b","value":"2"},{"key":"a","value":"3"}]"#;
    let entries = match parse_header_entries(src) {
        Ok(entries) => entries,
        Err(_) => panic!("valid header list rejected"),
    };
    assert_eq!(entries.len(), 3);
    let pairs = materialize_headers(&entries);
    assert_eq!(pairs.len(), 2);
    assert_eq!(pairs[0].0, "a");
    assert_eq!(pairs[0].1, "3");
    assert_eq!(pairs[1].0, "b");
    assert_eq!(pairs[1].1, "2");
}

#[test]
fn header_entries_keep_checked_metadata() {
    let src = r#"[{"key":"k","value":"v","checked":true}]"#;
    let entries = match parse_header_entries(src) {
        Ok(entries) => entries,
        Err(_) => panic!("valid header list rejected"),
    };
    assert_eq!(entries.len(), 1);
    assert_eq!(entries[0].key, "k");
    assert_eq!(entries[0].value, "v");
    assert_eq!(entries[0].checked, Some(true));
}

#[test]
fn malformed_headers_is_recoverable_error() {
    assert!(matches!(
        parse_header_entries("this is not json"),
        Err(RelayError::MalformedHeaders)
    ));
    assert!(matches!(
        parse_header_entries(r#"{"key":"not","value":"a list"}"#),
        Err(RelayError::MalformedHeaders)
    ));
    assert!(matches!(
        parse_header_entries(r#"[{"key":"missing value"}]"#),
        Err(RelayError::MalformedHeaders)
    ));
    let msg = RelayError::MalformedHeaders.message();
    assert!(msg.contains("headers"));
}

#[test]
fn unknown_method_falls_back_to_get() {
    assert_eq!(normalize_method("FOO"), Method::Get);
    assert_eq!(normalize_method(""), Method::Get);
    assert_eq!(normalize_method("get"), Method::Get);
    assert_eq!(normalize_method("GET"), Method::Get);
    assert_eq!(normalize_method("POST"), Method::Post);
    assert_eq!(normalize_method("PUT"), Method::Put);
    assert_eq!(normalize_method("DELETE"), Method::Delete);
    assert_eq!(normalize_method("PATCH"), Method::Patch);
    assert_eq!(Method::Patch.as_str(), "PATCH");
}

#[test]
fn encoders_attach_consistent_bodies() {
    let cases = [
        ("application/json", ContentTag::Json),
        ("application/x-www-form-urlencoded", ContentTag::UrlEncoded),
        ("text/plain", ContentTag::Text),
    ];
    for (tag, expected) in cases {
        assert_eq!(content_tag(tag), expected);
        let encoded = match encode_body(tag, "a=b&c=d", "bnd") {
            Ok(Some(encoded)) => encoded,
            _ => panic!("known tag must attach a body"),
        };
        assert_eq!(encoded.content_type, tag);
        assert_eq!(encoded.payload, "a=b&c=d");
    }
}

#[test]
fn multipart_encoder_emits_boundary_markers() {
    let body = r#"[{"key":"a","value":"b"}]"#;
    let encoded = match encode_body("multipart/form-data", body, "XbOuNdArY") {
        Ok(Some(encoded)) => encoded,
        _ => panic!("multipart body must encode"),
    };
    assert_eq!(encoded.content_type, "multipart/form-data; boundary=XbOuNdArY");
    assert_eq!(
        encoded.payload,
        "--XbOuNdArY\r\nContent-Disposition: form-data; name=\"a\"\r\n\r\nb\r\n--XbOuNdArY--\r\n"
    );
}

#[test]
fn multipart_encoder_rejects_malformed_part_list() {
    assert!(matches!(
        encode_body("multipart/form-data", "not a part list", "bnd"),
        Err(RelayError::EncodingError)
    ));
    // A part whose value contains the boundary delimiter would make the
    // encoded body ambiguous.
    let clash = "[{\"key\":\"a\",\"value\":\"x\r\n--bnd\"}]";
    assert!(matches!(
        encode_body("multipart/form-data", clash, "bnd"),
        Err(RelayError::EncodingError)
    ));
    let msg = RelayError::EncodingError.message();
    assert!(msg.contains("content type"));
}

#[test]
fn unknown_content_type_attaches_no_body() {
    match encode_body("unknown/type", "anything at all", "bnd") {
        Ok(None) => {}
        _ => panic!("unknown tag must attach no body and raise no error"),
    }
    let built = match build_outbound_request(
        "http://example.test/",
        "POST",
        "[]",
        "anything at all",
        "unknown/type",
        "bnd",
    ) {
        Ok(built) => built,
        Err(_) => panic!("unknown tag must not be an error"),
    };
    assert!(built.body.is_none());
}

#[test]
fn outbound_request_scenario() {
    let built = match build_outbound_request(
        "http://example.test/echo",
        "POST",
        "[{\"key\":\"X-Test\",\"value\":\"1\"}]",
        "{\"a\":1}",
        "application/json",
        "bnd",
    ) {
        Ok(built) => built,
        Err(_) => panic!("well-formed request spec rejected"),
    };
    assert_eq!(built.method, Method::Post);
    assert_eq!(built.url, "http://example.test/echo");
    assert_eq!(built.headers.len(), 1);
    assert_eq!(built.headers[0].0, "X-Test");
    assert_eq!(built.headers[0].1, "1");
    let body = match built.body {
        Some(body) => body,
        None => panic!("json tag must attach a body"),
    };
    assert_eq!(body.content_type, "application/json");
    assert_eq!(body.payload, "{\"a\":1}");
}

#[test]
fn echo_round_trip_preserves_json_body() {
    let original = "{\"a\":1,\"text\":\"héllo\"}";
    let encoded = match encode_body("application/json", original, "bnd") {
        Ok(Some(encoded)) => encoded,
        _ => panic!("json body must encode"),
    };
    // The transport carries the payload's UTF-8 octets; an echo server
    // returns them unchanged.
    let echoed: Vec<u8> = encoded.payload.as_bytes().to_vec();
    let decoded = match decode_response_body(None, &echoed) {
        Ok(decoded) => decoded,
        Err(_) => panic!("echoed octets must decode"),
    };
    assert_eq!(decoded, original);
}

#[test]
fn gzip_body_is_transparently_inflated() {
    let mut encoder =
        flate2::write::GzEncoder::new(Vec::new(), flate2::Compression::default());
    encoder.write_all(b"hello").unwrap();
    let compressed = encoder.finish().unwrap();
    let encoding = String::from("gzip");
    let decoded = match decode_response_body(Some(&encoding), &compressed) {
        Ok(decoded) => decoded,
        Err(_) => panic!("gzip body must inflate"),
    };
    assert_eq!(decoded, "hello");
}

#[test]
fn undecodable_body_becomes_error_text() {
    let not_utf8: Vec<u8> = vec![0xff, 0xfe, 0x00, 0x80];
    assert!(matches!(
        decode_response_body(None, &not_utf8),
        Err(RelayError::ResponseDecodeError)
    ));
    let text = response_body_text(None, &not_utf8);
    assert!(text.starts_with("Error: "));
    // A gzip encoding over octets that are no gzip stream fails the same way.
    let encoding = String::from("gzip");
    let text = response_body_text(Some(&encoding), &not_utf8);
    assert!(text.starts_with("Error: "));
}

#[test]
fn gzip_response_decodes_through_the_envelope() {
    let mut encoder =
        flate2::write::GzEncoder::new(Vec::new(), flate2::Compression::default());
    encoder.write_all(b"hello").unwrap();
    let compressed = encoder.finish().unwrap();
    let raw_headers: Vec<(String, Vec<u8>)> =
        vec![("content-encoding".to_string(), b"gzip".to_vec())];
    let envelope = decode_response("200 OK".to_string(), &raw_headers, &compressed);
    assert_eq!(envelope.body, "hello");
    assert_eq!(envelope.status, "200 OK");
}

#[test]
fn response_decode_scenario() {
    let raw_headers: Vec<(String, Vec<u8>)> = vec![("x-test".to_string(), b"1".to_vec())];
    let body: Vec<u8> = b"{\"a\":1}".to_vec();
    let envelope = decode_response("200 OK".to_string(), &raw_headers, &body);
    let inner = build_envelope(&envelope.headers, &envelope.status, &envelope.body);
    assert_eq!(
        inner,
        "{\"headers\":{\"x-test\":\"1\"},\"status\":\"200 OK\",\"body\":\"{\\\"a\\\":1}\"}"
    );
}

#[test]
fn response_headers_collate_and_tolerate_bad_values() {
    let raw_headers: Vec<(String, Vec<u8>)> = vec![
        ("x-a".to_string(), b"1".to_vec()),
        ("x-bad".to_string(), vec![0xff, 0xfe]),
        ("x-a".to_string(), b"2".to_vec()),
    ];
    let body: Vec<u8> = b"ok".to_vec();
    let envelope = decode_response("200 OK".to_string(), &raw_headers, &body);
    // The undecodable value drops its header; the repeated name keeps the
    // last value seen.
    assert_eq!(envelope.headers.len(), 1);
    assert_eq!(envelope.headers[0].0, "x-a");
    assert_eq!(envelope.headers[0].1, "2");
    assert_eq!(envelope.body, "ok");
}

#[test]
fn envelope_has_exactly_the_three_keys() {
    let headers = vec![("x-test".to_string(), "1".to_string())];
    let payload = build_relay_payload(&headers, "200 OK", "{\"a\":1}");
    let outer: serde_json::Value = serde_json::from_str(&payload).unwrap();
    let outer_obj = outer.as_object().unwrap();
    let outer_keys: Vec<&String> = outer_obj.keys().collect();
    assert_eq!(outer_keys, vec!["body"]);
    let inner_text = outer_obj.get("body").unwrap().as_str().unwrap();
    let inner: serde_json::Value = serde_json::from_str(inner_text).unwrap();
    let inner_obj = inner.as_object().unwrap();
    let mut inner_keys: Vec<&String> = inner_obj.keys().collect();
    inner_keys.sort();
    assert_eq!(inner_keys, vec!["body", "headers", "status"]);
    assert_eq!(inner_obj.get("status").unwrap().as_str().unwrap(), "200 OK");
    assert_eq!(inner_obj.get("body").unwrap().as_str().unwrap(), "{\"a\":1}");
    assert_eq!(
        inner_obj.get("headers").unwrap().get("x-test").unwrap().as_str().unwrap(),
        "1"
    );
}

#[test]
fn string_escaping_matches_the_reference_serializer() {
    let tricky = "a\"b\\c\nd\te\u{8}f\u{c}g\rh\u{1f}i";
    let payload = build_outer_payload(tricky);
    let reference = {
        let mut m = serde_json::Map::new();
        m.insert(
            "body".to_string(),
            serde_json::Value::String(tricky.to_string()),
        );
        serde_json::to_string(&serde_json::Value::Object(m)).unwrap()
    };
    assert_eq!(payload, reference);
    let parsed: serde_json::Value = serde_json::from_str(&payload).unwrap();
    assert_eq!(parsed.get("body").unwrap().as_str().unwrap(), tricky);
}

#[test]
fn empty_inputs_are_handled() {
    let entries = match parse_header_entries("[]") {
        Ok(entries) => entries,
        Err(_) => panic!("empty list is valid"),
    };
    assert_eq!(entries.len(), 0);
    let pairs = materialize_headers(&entries);
    assert_eq!(pairs.len(), 0);
    let inner = build_envelope(&pairs, "", "");
    assert_eq!(inner, "{\"headers\":{},\"status\":\"\",\"body\":\"\"}");
    let empty: Vec<u8> = Vec::new();
    let no_headers: Vec<(String, Vec<u8>)> = Vec::new();
    let envelope = decode_response(String::new(), &no_headers, &empty);
    assert_eq!(envelope.body, "");
}
