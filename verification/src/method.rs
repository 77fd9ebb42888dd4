use vstd::prelude::*;

verus! {

/// HTTP request method of a route or of an inbound request.
///
/// Dispatch compares methods for equality before it looks at the path:
/// a route whose method differs from the request's is skipped without
/// touching the path matcher.
#[derive(Clone, Copy, PartialEq, Eq, Structural, Debug)]
pub enum Method {
    Get,
    Post,
    Put,
    Delete,
    Head,
    Options,
    Patch,
    Trace,
    Connect,
}

} // verus!
