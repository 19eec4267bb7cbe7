use std::io::Read;

use web_core::compress::{respond, wants_gzip, CompressedJson, HttpHeader, Response};
use web_core::headers::RequestHeaders;
use web_core::rejection::Rejection;

fn req(accept: Option<&str>, encodings: &[&str]) -> RequestHeaders {
    RequestHeaders {
        app_id: None,
        timestamp: None,
        signature: None,
        accept: accept.map(|s| s.to_string()),
        accept_encoding: encodings.iter().map(|s| s.to_string()).collect(),
    }
}

fn sample_response(body: &[u8]) -> Response {
    Response {
        status: 200,
        headers: vec![HttpHeader {
            name: "Content-Type".to_string(),
            value: "application/json".to_string(),
        }],
        body: body.to_vec(),
    }
}

#[test]
fn gzip_round_trips_the_body() {
    let body: Vec<u8> = b"{\"title\":\"Homepage\",\"lang\":\"en\",\"repeat\":\"aaaaaaaaaaaaaaaaaaaaaaaaaaaaaa\"}"
        .to_vec();
    let plain = respond(sample_response(&body), &req(Some("*/*"), &[])).unwrap();
    assert_eq!(plain.body, body);

    let compressed = respond(sample_response(&body), &req(Some("*/*"), &["gzip"])).unwrap();
    let label = compressed.headers.last().unwrap();
    assert_eq!(label.name, "Content-Encoding");
    assert_eq!(label.value, "gzip");
    assert_ne!(compressed.body, body);

    let mut decoder = flate2::read::GzDecoder::new(&compressed.body[..]);
    let mut decoded = Vec::new();
    decoder.read_to_end(&mut decoded).unwrap();
    assert_eq!(decoded, plain.body);
}

#[test]
fn no_op_without_a_gzip_token() {
    let body = b"body { color: black; }".to_vec();
    let out = respond(sample_response(&body), &req(Some("*/*"), &["br, deflate"])).unwrap();
    assert_eq!(out.status, 200);
    assert_eq!(out.body, body);
    assert_eq!(out.headers.len(), 1);
    assert!(out.headers.iter().all(|h| h.name != "Content-Encoding"));
}

#[test]
fn no_op_without_an_accept_header() {
    let body = b"<html></html>".to_vec();
    let out = respond(sample_response(&body), &req(None, &["gzip"])).unwrap();
    assert_eq!(out.body, body);
    assert_eq!(out.headers.len(), 1);
}

#[test]
fn gzip_token_matches_case_insensitively_and_exactly() {
    assert!(wants_gzip(&req(Some("*/*"), &["gzip"])));
    assert!(wants_gzip(&req(Some("*/*"), &["GZip"])));
    assert!(wants_gzip(&req(Some("*/*"), &["deflate", "GZIP"])));
    assert!(!wants_gzip(&req(Some("*/*"), &["gzip "])));
    assert!(!wants_gzip(&req(Some("*/*"), &["gzipped"])));
    assert!(!wants_gzip(&req(Some("*/*"), &["gzip, deflate"])));
    assert!(!wants_gzip(&req(Some("*/*"), &[])));
    assert!(!wants_gzip(&req(None, &["gzip"])));
}

#[test]
fn compression_applies_to_any_payload_kind() {
    let kinds: [&[u8]; 3] = [
        b"<html><body>rendered template</body></html>",
        b"named file bytes\x00\x01\x02",
        b"{\"serialized\":true}",
    ];
    for body in kinds {
        let out = respond(sample_response(body), &req(Some("text/html"), &["gzip"])).unwrap();
        assert_eq!(out.headers.last().unwrap().name, "Content-Encoding");
        let mut decoder = flate2::read::GzDecoder::new(&out.body[..]);
        let mut decoded = Vec::new();
        decoder.read_to_end(&mut decoded).unwrap();
        assert_eq!(decoded, body.to_vec());
    }
}

#[test]
fn compressed_json_carries_its_payload() {
    let wrapped = CompressedJson::new(vec![1u8, 2, 3]);
    assert_eq!(wrapped.into_inner(), vec![1u8, 2, 3]);
}

#[test]
fn compression_failure_maps_to_a_server_error() {
    assert_eq!(Rejection::CompressionFailure.status(), 500);
    assert_eq!(Rejection::CompressionFailure.reason(), "Unknown error");
}

#[test]
fn token_handlers_are_stubs() {
    assert_eq!(web_core::api::access_token().unwrap_err(), Rejection::CollaboratorFailure);
    let guard = web_core::auth::Application { id: 1, requests_left: 0 };
    let credentials = web_core::api::RefreshCredentials {
        username: "user".to_string(),
        password: "not checked".to_string(),
    };
    assert_eq!(
        web_core::api::refresh_token(guard, credentials).unwrap_err(),
        Rejection::CollaboratorFailure
    );
}
