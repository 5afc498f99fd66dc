use std::io::Read;

use mpix::gzip::{accepts_gzip, gzip_response};
use mpix::http::Response;

fn headers_with(name: &str, value: &str) -> Vec<(String, String)> {
    vec![(String::from(name), String::from(value))]
}

fn sample_response() -> Response {
    Response {
        status: 200,
        headers: vec![(String::from("content-type"), String::from("text/html"))],
        body: b"hello hello hello hello compression world".to_vec(),
    }
}

fn gunzip(data: &[u8]) -> Vec<u8> {
    let mut out = Vec::new();
    flate2::read::GzDecoder::new(data).read_to_end(&mut out).expect("valid gzip stream");
    out
}

#[test]
fn accept_encoding_is_a_case_insensitive_substring_test() {
    assert!(accepts_gzip(&headers_with("accept-encoding", "gzip")));
    assert!(accepts_gzip(&headers_with("Accept-Encoding", "GZip, deflate")));
    assert!(accepts_gzip(&headers_with("accept-encoding", "br;q=1.0, gzip;q=0.8")));
    assert!(!accepts_gzip(&headers_with("accept-encoding", "identity")));
    assert!(!accepts_gzip(&headers_with("content-type", "gzip")));
    assert!(!accepts_gzip(&Vec::new()));
}

#[test]
fn gzipped_body_decompresses_to_the_original() {
    let original = sample_response();
    let original_body = original.body.clone();
    let req_headers = headers_with("accept-encoding", "gzip");
    let out = gzip_response(&req_headers, original).expect("compression succeeds");
    assert_eq!(out.status, 200);
    // the body really was transformed, and round-trips byte-identically
    assert_ne!(out.body, original_body);
    assert_eq!(gunzip(&out.body), original_body);
    // exactly one header was added, at the end
    assert_eq!(out.headers.len(), 2);
    assert_eq!(out.headers[0].0, "content-type");
    assert_eq!(out.headers[1], (String::from("content-encoding"), String::from("gzip")));
}

#[test]
fn without_the_header_the_response_is_untouched() {
    let original = sample_response();
    let body_before = original.body.clone();
    let headers_before = original.headers.clone();
    let out = gzip_response(&Vec::new(), original).expect("pass-through succeeds");
    assert_eq!(out.status, 200);
    assert_eq!(out.body, body_before);
    assert_eq!(out.headers, headers_before);
}

#[test]
fn compressed_and_uncompressed_bodies_agree() {
    let with = gzip_response(&headers_with("accept-encoding", "gzip"), sample_response())
        .expect("compression succeeds");
    let without = gzip_response(&Vec::new(), sample_response()).expect("pass-through succeeds");
    assert_eq!(gunzip(&with.body), without.body);
}
