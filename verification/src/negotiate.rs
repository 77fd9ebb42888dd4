use vstd::prelude::*;

verus! {

use vstd::string::StrSliceExecFns;
use vstd::string::StringExecFns;
use crate::http::{HttpResponse, STATUS_NOT_FOUND};
use crate::strutil::{seg_views, spec_split, spec_trim_set, split_on, str_eq, trim_set};

/// The three representations a "not found" response can take.
#[derive(Clone, Copy, PartialEq, Eq, Structural, Debug)]
pub enum ContentKind {
    Json,
    Html,
    Plain,
}

/// The whitespace characters stripped from each `Accept` token.
pub open spec fn ws_chars() -> Seq<char> {
    seq![' ', '\t', '\r', '\n']
}

/// The tokens of an `Accept` header value: the text split on commas, each
/// token trimmed of surrounding whitespace.  Parameter qualifiers such as
/// `;q=` are not parsed; a token carrying one simply matches no literal.
pub open spec fn accept_tokens(accept: Seq<char>) -> Seq<Seq<char>> {
    spec_split(accept, ',').map_values(|t: Seq<char>| spec_trim_set(t, ws_chars()))
}

/// Whether a token asks for the JSON representation.
pub open spec fn is_json_token(t: Seq<char>) -> bool {
    t == "application/json"@ || t == "application/*"@ || t == "*/*"@
}

/// Whether a token asks for the HTML representation.
pub open spec fn is_html_token(t: Seq<char>) -> bool {
    t == "text/html"@ || t == "text/*"@ || t == "*/*"@
}

pub open spec fn accepts_json(accept: Seq<char>) -> bool {
    exists|i: int|
        0 <= i < accept_tokens(accept).len() && is_json_token(#[trigger] accept_tokens(accept)[i])
}

pub open spec fn accepts_html(accept: Seq<char>) -> bool {
    exists|i: int|
        0 <= i < accept_tokens(accept).len() && is_html_token(#[trigger] accept_tokens(accept)[i])
}

/// The representation chosen for an `Accept` header value, by fixed
/// priority: any token naming JSON (or `*/*`) wins, else any token naming
/// HTML, else plain text.  An absent or unrecognised header therefore
/// degrades to plain text.
pub open spec fn negotiated(accept: Seq<char>) -> ContentKind {
    if accepts_json(accept) {
        ContentKind::Json
    } else if accepts_html(accept) {
        ContentKind::Html
    } else {
        ContentKind::Plain
    }
}

/// The `Content-Type` header value of each representation.
pub open spec fn kind_name(k: ContentKind) -> Seq<char> {
    match k {
        ContentKind::Json => "application/json"@,
        ContentKind::Html => "text/html"@,
        ContentKind::Plain => "text/plain"@,
    }
}

/// The fixed default body of each representation.
pub open spec fn default_body(k: ContentKind) -> Seq<char> {
    match k {
        ContentKind::Json => "{\"error\": {\"code\": 404, \"message\": \"Not Found\"}}"@,
        ContentKind::Html => "<html><body><h1>404 - Not Found</h1></body></html>"@,
        ContentKind::Plain => "404 Resource Not Found"@,
    }
}

/// The default body as the bytes the response carries.
pub open spec fn default_body_bytes(k: ContentKind) -> Seq<u8> {
    vstd::utf8::encode_utf8(default_body(k))
}

/// What `not_found_response` promises: the fixed status, the negotiated
/// content type, and — when no custom generator was supplied — the exact
/// default body.
pub open spec fn is_not_found_for(r: HttpResponse, accept: Seq<char>, default_used: bool) -> bool {
    &&& r.status == STATUS_NOT_FOUND
    &&& r.content_type@ == kind_name(negotiated(accept))
    &&& (default_used ==> r.body@ == default_body_bytes(negotiated(accept)))
}

/// A user-supplied generator for custom "not found" bodies, called with
/// the negotiated content type and answering with the body to send.
///
/// The routing core never constrains what an implementation returns; it
/// uses the returned text verbatim.
pub trait NotFoundGenerator {
    fn generate(&self, content_type: &str) -> String;
}

impl ContentKind {
    /// The `Content-Type` header value of this representation.
    pub fn name_string(self) -> (s: String)
        ensures
            s@ == kind_name(self),
    {
        match self {
            ContentKind::Json => String::from_str("application/json"),
            ContentKind::Html => String::from_str("text/html"),
            ContentKind::Plain => String::from_str("text/plain"),
        }
    }
}

/// Chooses the representation of a "not found" body from an `Accept`
/// header value, by the fixed priority JSON, then HTML, then plain text.
pub fn select_content_type(accept: &str) -> (k: ContentKind)
    ensures
        k == negotiated(accept@),
{
    let ghost toks = accept_tokens(accept@);
    let raw = split_on(accept, ',');
    let ws: Vec<char> = vec![' ', '\t', '\r', '\n'];
    proof {
        assert(ws@ =~= ws_chars());
    }
    let mut any_json = false;
    let mut any_html = false;
    let mut i: usize = 0;
    while i < raw.len()
        invariant
            i <= raw@.len(),
            toks == accept_tokens(accept@),
            seg_views(raw@) == spec_split(accept@, ','),
            raw@.len() == toks.len(),
            ws@ == ws_chars(),
            any_json == exists|j: int| 0 <= j < i && is_json_token(#[trigger] toks[j]),
            any_html == exists|j: int| 0 <= j < i && is_html_token(#[trigger] toks[j]),
        decreases raw@.len() - i,
    {
        let t = trim_set(raw[i].as_str(), &ws);
        proof {
            assert(raw@[i as int]@ == spec_split(accept@, ',')[i as int]);
            assert(t@ == toks[i as int]);
        }
        let ghost aj0 = any_json;
        let ghost ah0 = any_html;
        if str_eq(t.as_str(), "application/json") || str_eq(t.as_str(), "application/*")
            || str_eq(t.as_str(), "*/*") {
            any_json = true;
        }
        if str_eq(t.as_str(), "text/html") || str_eq(t.as_str(), "text/*")
            || str_eq(t.as_str(), "*/*") {
            any_html = true;
        }
        proof {
            assert(any_json == exists|j: int| 0 <= j < i + 1 && is_json_token(#[trigger] toks[j]))
                by {
                if any_json {
                    if aj0 {
                        let j = choose|j: int| 0 <= j < i && is_json_token(#[trigger] toks[j]);
                        assert(is_json_token(toks[j]));
                    } else {
                        assert(is_json_token(toks[i as int]));
                    }
                } else {
                    if exists|j: int| 0 <= j < i + 1 && is_json_token(#[trigger] toks[j]) {
                        let j = choose|j: int| 0 <= j < i + 1 && is_json_token(#[trigger] toks[j]);
                        assert(j == i);
                    }
                }
            }
            assert(any_html == exists|j: int| 0 <= j < i + 1 && is_html_token(#[trigger] toks[j]))
                by {
                if any_html {
                    if ah0 {
                        let j = choose|j: int| 0 <= j < i && is_html_token(#[trigger] toks[j]);
                        assert(is_html_token(toks[j]));
                    } else {
                        assert(is_html_token(toks[i as int]));
                    }
                } else {
                    if exists|j: int| 0 <= j < i + 1 && is_html_token(#[trigger] toks[j]) {
                        let j = choose|j: int| 0 <= j < i + 1 && is_html_token(#[trigger] toks[j]);
                        assert(j == i);
                    }
                }
            }
        }
        i += 1;
    }
    if any_json {
        ContentKind::Json
    } else if any_html {
        ContentKind::Html
    } else {
        ContentKind::Plain
    }
}

/// The default body of a representation, as bytes.
fn default_body_vec(k: ContentKind) -> (r: Vec<u8>)
    ensures
        r@ == default_body_bytes(k),
{
    match k {
        ContentKind::Json => {
            let s = "{\"error\": {\"code\": 404, \"message\": \"Not Found\"}}";
            s.as_bytes_vec()
        }
        ContentKind::Html => {
            let s = "<html><body><h1>404 - Not Found</h1></body></html>";
            s.as_bytes_vec()
        }
        ContentKind::Plain => {
            let s = "404 Resource Not Found";
            s.as_bytes_vec()
        }
    }
}

/// Builds the "not found" response that carries a caller-supplied body in
/// the given representation: the fixed status, the representation's
/// content type, and exactly the given text as bytes.
pub fn not_found_with_body(kind: ContentKind, body_text: &str) -> (r: HttpResponse)
    ensures
        r.status == STATUS_NOT_FOUND,
        r.content_type@ == kind_name(kind),
        r.body@ == vstd::utf8::encode_utf8(body_text@),
{
    HttpResponse {
        status: STATUS_NOT_FOUND,
        content_type: kind.name_string(),
        body: body_text.as_bytes_vec(),
    }
}

/// Builds the negotiated "not found" response for an `Accept` header
/// value.
///
/// The representation follows the fixed priority of [`negotiated`]; the
/// status is always 404 and the chosen content type is always set on the
/// response.  With a generator the body is whatever it returns for the
/// chosen content type, verbatim; without one it is the fixed default for
/// that representation.
pub fn not_found_response<G: NotFoundGenerator>(accept: &str, custom: Option<&G>) -> (r:
    HttpResponse)
    ensures
        is_not_found_for(r, accept@, custom is None),
{
    let kind = select_content_type(accept);
    match custom {
        Some(g) => {
            let content_type = kind.name_string();
            let text = g.generate(content_type.as_str());
            not_found_with_body(kind, text.as_str())
        }
        None => HttpResponse {
            status: STATUS_NOT_FOUND,
            content_type: kind.name_string(),
            body: default_body_vec(kind),
        },
    }
}

/// Unmatched, unserved requests are answered uniformly: two "not found"
/// responses produced without a custom generator for the same `Accept`
/// header value are identical, whatever the request's method or path were.
pub proof fn lemma_not_found_uniform(r1: HttpResponse, r2: HttpResponse, accept: Seq<char>)
    requires
        is_not_found_for(r1, accept, true),
        is_not_found_for(r2, accept, true),
    ensures
        r1.status == r2.status,
        r1.content_type@ == r2.content_type@,
        r1.body@ == r2.body@,
{
}

} // verus!
