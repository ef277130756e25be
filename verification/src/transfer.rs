//! Per-request responses.
//!
//! A `Transfer` is the ephemeral value answering one request: a status,
//! a declared byte length, and the payload.  A successful response
//! carries the whole file in one body with the length taken from the
//! file's metadata; a missing file answers "not found" and a file that
//! opens but cannot be read through answers "internal error", each with
//! its fixed short body.

use vstd::prelude::*;

verus! {

/// The status of a response: success, the resource was not found, or
/// the server failed while reading it.
#[derive(PartialEq, Eq, Structural, Clone, Copy, Debug)]
pub enum Status {
    Success,
    NotFound,
    InternalError,
}

impl Status {
    /// The numeric HTTP status code this status is sent as.
    pub open spec fn spec_code(self) -> u16 {
        match self {
            Status::Success => 200,
            Status::NotFound => 404,
            Status::InternalError => 500,
        }
    }

    /// The numeric HTTP status code this status is sent as.
    pub fn code(self) -> (r: u16)
        ensures
            r == self.spec_code(),
    {
        match self {
            Status::Success => 200,
            Status::NotFound => 404,
            Status::InternalError => 500,
        }
    }
}

/// The fixed body of a "not found" response.
pub open spec fn not_found_body() -> Seq<u8> {
    seq![78u8, 111u8, 116u8, 32u8, 70u8, 111u8, 117u8, 110u8, 100u8]
}

/// The fixed body of an "internal error" response.
pub open spec fn internal_error_body() -> Seq<u8> {
    seq![
        73u8,
        110u8,
        116u8,
        101u8,
        114u8,
        110u8,
        97u8,
        108u8,
        32u8,
        83u8,
        101u8,
        114u8,
        118u8,
        101u8,
        114u8,
        32u8,
        69u8,
        114u8,
        114u8,
        111u8,
        114u8,
    ]
}

/// One response: status, the byte length it declares, and the payload.
#[derive(Debug)]
pub struct Transfer {
    pub status: Status,
    pub content_length: u64,
    pub body: Vec<u8>,
}

/// How one request's file read went, as the surrounding process reports
/// it: the file did not open, it opened but could not be read through,
/// or it was read whole, with the byte length its metadata declares.
#[derive(Debug)]
pub enum FileRead {
    Unopened,
    Incomplete,
    Content { body: Vec<u8>, length: u64 },
}

/// The "not found" response: its fixed short body, declared in full.
pub fn make_not_found() -> (t: Transfer)
    ensures
        t.status == Status::NotFound,
        t.body@ == not_found_body(),
        t.content_length == not_found_body().len(),
{
    let body: Vec<u8> = vec![78u8, 111u8, 116u8, 32u8, 70u8, 111u8, 117u8, 110u8, 100u8];
    proof {
        assert(body@ =~= not_found_body());
    }
    Transfer { status: Status::NotFound, content_length: 9, body }
}

/// The "internal error" response: its fixed short body, declared in
/// full.
pub fn make_internal_server_error() -> (t: Transfer)
    ensures
        t.status == Status::InternalError,
        t.body@ == internal_error_body(),
        t.content_length == internal_error_body().len(),
{
    let body: Vec<u8> = vec![
        73u8,
        110u8,
        116u8,
        101u8,
        114u8,
        110u8,
        97u8,
        108u8,
        32u8,
        83u8,
        101u8,
        114u8,
        118u8,
        101u8,
        114u8,
        32u8,
        69u8,
        114u8,
        114u8,
        111u8,
        114u8,
    ];
    proof {
        assert(body@ =~= internal_error_body());
    }
    Transfer { status: Status::InternalError, content_length: 21, body }
}

/// The successful response: the whole file as the body, with the
/// declared length the caller read from the file's metadata.
pub fn make_status_ok(buf: Vec<u8>, len: u64) -> (t: Transfer)
    ensures
        t.status == Status::Success,
        t.body == buf,
        t.content_length == len,
{
    Transfer { status: Status::Success, content_length: len, body: buf }
}

/// The response owed for one file read: the whole content on success,
/// "not found" when the file did not open, "internal error" when the
/// read broke off.
pub fn build_response(outcome: FileRead) -> (t: Transfer)
    ensures
        t.status == (match outcome {
            FileRead::Unopened => Status::NotFound,
            FileRead::Incomplete => Status::InternalError,
            FileRead::Content { .. } => Status::Success,
        }),
        (match outcome {
            FileRead::Unopened => t.body@ == not_found_body() && t.content_length
                == not_found_body().len(),
            FileRead::Incomplete => t.body@ == internal_error_body() && t.content_length
                == internal_error_body().len(),
            FileRead::Content { body, length } => t.body == body && t.content_length == length,
        }),
{
    match outcome {
        FileRead::Unopened => make_not_found(),
        FileRead::Incomplete => make_internal_server_error(),
        FileRead::Content { body, length } => make_status_ok(body, length),
    }
}

} // verus!
