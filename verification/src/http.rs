use vstd::prelude::*;

verus! {

/// Status code of a successful response.
pub const STATUS_OK: u16 = 200;

/// Status code of a "not found" response.
pub const STATUS_NOT_FOUND: u16 = 404;

/// The minimal response surface the routing core constructs: a status
/// code, a single `Content-Type` header value, and a byte body.
///
/// The surrounding transport turns this into its native response type.
pub struct HttpResponse {
    pub status: u16,
    pub content_type: String,
    pub body: Vec<u8>,
}

} // verus!
