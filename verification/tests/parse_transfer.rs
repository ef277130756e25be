//! The request-count parser and the response builder.

use roof::parse::parse_count;
use roof::transfer::FileRead;
use roof::transfer::Status;
use roof::transfer::build_response;
use roof::transfer::make_internal_server_error;
use roof::transfer::make_not_found;
use roof::transfer::make_status_ok;

fn bytes(s: &str) -> Vec<u8> {
    s.as_bytes().to_vec()
}

#[test]
fn count_reads_decimal() {
    assert_eq!(parse_count(&bytes("12")), 12);
    assert_eq!(parse_count(&bytes("1")), 1);
    assert_eq!(parse_count(&bytes("0")), 0);
    assert_eq!(parse_count(&bytes("007")), 7);
    assert_eq!(parse_count(&bytes("+7")), 7);
}

#[test]
fn count_falls_back_to_one() {
    assert_eq!(parse_count(&bytes("")), 1);
    assert_eq!(parse_count(&bytes("abc")), 1);
    assert_eq!(parse_count(&bytes("1x")), 1);
    assert_eq!(parse_count(&bytes(" 5")), 1);
    assert_eq!(parse_count(&bytes("-3")), 1);
    assert_eq!(parse_count(&bytes("+")), 1);
    // Past the machine word: fall back, however many digits follow.
    assert_eq!(parse_count(&bytes("99999999999999999999999999")), 1);
}

#[test]
fn status_codes() {
    assert_eq!(Status::Success.code(), 200);
    assert_eq!(Status::NotFound.code(), 404);
    assert_eq!(Status::InternalError.code(), 500);
}

#[test]
fn success_response_carries_whole_file() {
    let body = bytes("payload");
    let t = make_status_ok(body.clone(), 7);
    assert_eq!(t.status, Status::Success);
    assert_eq!(t.content_length, 7);
    assert_eq!(t.body, body);
}

#[test]
fn error_responses_have_fixed_bodies() {
    let nf = make_not_found();
    assert_eq!(nf.status, Status::NotFound);
    assert_eq!(nf.body, bytes("Not Found"));
    assert_eq!(nf.content_length, 9);
    let ise = make_internal_server_error();
    assert_eq!(ise.status, Status::InternalError);
    assert_eq!(ise.body, bytes("Internal Server Error"));
    assert_eq!(ise.content_length, 21);
}

#[test]
fn response_follows_read_outcome() {
    let ok = build_response(FileRead::Content { body: bytes("abc"), length: 3 });
    assert_eq!(ok.status, Status::Success);
    assert_eq!(ok.body, bytes("abc"));
    assert_eq!(ok.content_length, 3);
    let missing = build_response(FileRead::Unopened);
    assert_eq!(missing.status, Status::NotFound);
    let broken = build_response(FileRead::Incomplete);
    assert_eq!(broken.status, Status::InternalError);
}
