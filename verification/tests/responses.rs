use fluxor::{
    not_found_response, not_found_with_body, select_content_type, ContentKind, Fluxor,
    NotFoundGenerator,
};

struct NoGen;

impl NotFoundGenerator for NoGen {
    fn generate(&self, _content_type: &str) -> String {
        String::new()
    }
}

struct TaggingGen;

impl NotFoundGenerator for TaggingGen {
    fn generate(&self, content_type: &str) -> String {
        format!("custom:{}", content_type)
    }
}

#[test]
fn not_found_plain_default() {
    let r = not_found_response("text/plain", None::<&NoGen>);
    assert_eq!(r.status, 404);
    assert_eq!(r.content_type, "text/plain");
    assert_eq!(r.body, b"404 Resource Not Found".to_vec());
}

#[test]
fn not_found_json_round_trip() {
    let r = not_found_response("application/json", None::<&NoGen>);
    assert_eq!(r.status, 404);
    assert_eq!(r.content_type, "application/json");
    assert_eq!(r.body, br#"{"error": {"code": 404, "message": "Not Found"}}"#.to_vec());
    let body = String::from_utf8(r.body).unwrap();
    assert!(body.starts_with('{') && body.ends_with('}'));
    assert!(body.contains("\"error\""));
}

#[test]
fn not_found_html_round_trip() {
    let r = not_found_response("text/html", None::<&NoGen>);
    assert_eq!(r.status, 404);
    assert_eq!(r.content_type, "text/html");
    let body = String::from_utf8(r.body).unwrap();
    assert!(body.contains("<html>"));
    assert_eq!(body, "<html><body><h1>404 - Not Found</h1></body></html>");
}

#[test]
fn wildcard_accept_chooses_json() {
    let r = not_found_response("*/*", None::<&NoGen>);
    assert_eq!(r.content_type, "application/json");
}

#[test]
fn empty_accept_degrades_to_plain() {
    let r = not_found_response("", None::<&NoGen>);
    assert_eq!(r.status, 404);
    assert_eq!(r.content_type, "text/plain");
}

#[test]
fn json_outranks_html_whatever_the_order() {
    let r = not_found_response("text/html, application/json", None::<&NoGen>);
    assert_eq!(r.content_type, "application/json");
}

#[test]
fn tokens_are_trimmed() {
    let r = not_found_response("  text/html ,application/xml", None::<&NoGen>);
    assert_eq!(r.content_type, "text/html");
}

#[test]
fn quality_parameters_defeat_the_literal_comparison() {
    let r = not_found_response("text/html;q=0.9", None::<&NoGen>);
    assert_eq!(r.content_type, "text/plain");
}

#[test]
fn unrecognised_accept_degrades_to_plain() {
    let r = not_found_response("image/png", None::<&NoGen>);
    assert_eq!(r.content_type, "text/plain");
}

#[test]
fn supplied_body_is_carried_verbatim() {
    let r = not_found_with_body(ContentKind::Html, "gone");
    assert_eq!(r.status, 404);
    assert_eq!(r.content_type, "text/html");
    assert_eq!(r.body, b"gone".to_vec());
}

#[test]
fn content_type_selection_is_exposed() {
    assert_eq!(select_content_type("text/*"), ContentKind::Html);
    assert_eq!(select_content_type("application/*"), ContentKind::Json);
    assert_eq!(select_content_type("nonsense"), ContentKind::Plain);
}

#[test]
fn custom_generator_body_is_used_verbatim() {
    let r = not_found_response("text/html", Some(&TaggingGen));
    assert_eq!(r.status, 404);
    assert_eq!(r.content_type, "text/html");
    assert_eq!(r.body, b"custom:text/html".to_vec());
}

#[test]
fn set_custom_404_reaches_the_fallback() {
    let mut app: Fluxor<u32, TaggingGen> = Fluxor::new();
    app.set_custom_404(TaggingGen);
    let r = app.fallback_response("/missing", None, "application/json");
    assert_eq!(r.status, 404);
    assert_eq!(r.body, b"custom:application/json".to_vec());
}

#[test]
fn unmatched_response_depends_on_accept_alone() {
    let app: Fluxor<u32, NoGen> = Fluxor::new();
    let r1 = app.fallback_response("/one", None, "text/html");
    let r2 = app.fallback_response("/two/levels", None, "text/html");
    assert_eq!(r1.status, 404);
    assert_eq!(r1.status, r2.status);
    assert_eq!(r1.content_type, r2.content_type);
    assert_eq!(r1.body, r2.body);
}
