//! Request-routing and dispatch core of an embeddable HTTP application layer.
//!
//! The library matches an inbound request against a registry of path
//! templates with named segment capture, hands the chosen handler reference
//! and the merged per-request parameters back to the caller, and — when no
//! route matches — falls back to serving a file from a configured directory
//! and finally to a content-negotiated "not found" response.
//!
//! All decision logic is pure and verified; the surrounding process
//! (listener lifecycle, file reads, handler execution) stays outside and
//! talks to this crate through plain values.

pub mod dict;
pub mod dispatch;
pub mod http;
pub mod matcher;
pub mod method;
pub mod negotiate;
pub mod query;
pub mod static_files;
pub mod strutil;

pub use dict::Dict;
pub use dispatch::{Fluxor, Params};
pub use http::HttpResponse;
pub use matcher::Route;
pub use method::Method;
pub use negotiate::{
    not_found_response, not_found_with_body, select_content_type, ContentKind, NotFoundGenerator,
};
pub use query::{extract_query, get_param};
