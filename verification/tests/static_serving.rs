use fluxor::static_files::static_file_path;
use fluxor::{Dict, Fluxor, Method, NotFoundGenerator};

struct NoGen;

impl NotFoundGenerator for NoGen {
    fn generate(&self, _content_type: &str) -> String {
        String::new()
    }
}

fn css_app() -> Fluxor<u32, NoGen> {
    let mut app: Fluxor<u32, NoGen> = Fluxor::new();
    let mut table = Dict::new();
    table.insert("css".to_string(), "text/css".to_string());
    app.include_mime_types(table);
    app
}

#[test]
fn css_file_scenario() {
    let app = css_app();
    let body = b"body { color: teal; }".to_vec();
    let r = app.fallback_response("/index.css", Some(body.clone()), "");
    assert_eq!(r.status, 200);
    assert_eq!(r.content_type, "text/css");
    assert_eq!(r.body, body);
}

#[test]
fn serving_twice_is_byte_identical() {
    let app = css_app();
    let body = b"h1 { margin: 0 }".to_vec();
    let r1 = app.fallback_response("/style.css", Some(body.clone()), "*/*");
    let r2 = app.fallback_response("/style.css", Some(body), "*/*");
    assert_eq!(r1.status, r2.status);
    assert_eq!(r1.content_type, r2.content_type);
    assert_eq!(r1.body, r2.body);
}

#[test]
fn unknown_extension_gets_generic_type() {
    let app: Fluxor<u32, NoGen> = Fluxor::new();
    let r = app.fallback_response("/data.weird", Some(b"x".to_vec()), "");
    assert_eq!(r.status, 200);
    assert_eq!(r.content_type, "application/octet-stream");
}

#[test]
fn missing_extension_gets_generic_type() {
    let app: Fluxor<u32, NoGen> = Fluxor::new();
    let r = app.fallback_response("/README", Some(b"hello".to_vec()), "");
    assert_eq!(r.content_type, "application/octet-stream");
}

#[test]
fn hidden_file_name_is_not_an_extension() {
    let app: Fluxor<u32, NoGen> = Fluxor::new();
    let r = app.fallback_response("/.css", Some(b"x".to_vec()), "");
    assert_eq!(r.content_type, "application/octet-stream");
}

#[test]
fn default_table_knows_html() {
    let app: Fluxor<u32, NoGen> = Fluxor::new();
    let r = app.fallback_response("/index.html", Some(b"<p>hi</p>".to_vec()), "");
    assert_eq!(r.content_type, "text/html");
}

#[test]
fn excluded_type_falls_back_to_generic() {
    let mut app = css_app();
    app.exclude_mime_types(vec!["css"]);
    let r = app.fallback_response("/index.css", Some(b"x".to_vec()), "");
    assert_eq!(r.content_type, "application/octet-stream");
}

#[test]
fn absent_file_negotiates_not_found() {
    let app: Fluxor<u32, NoGen> = Fluxor::new();
    let r = app.fallback_response("/nope.css", None, "application/json");
    assert_eq!(r.status, 404);
    assert_eq!(r.content_type, "application/json");
}

#[test]
fn parent_escape_is_treated_as_absent() {
    let app: Fluxor<u32, NoGen> = Fluxor::new();
    let r = app.fallback_response("/../secret.txt", Some(b"top".to_vec()), "text/plain");
    assert_eq!(r.status, 404);
    assert_eq!(r.body, b"404 Resource Not Found".to_vec());
}

#[test]
fn file_paths_join_under_the_base_directory() {
    assert_eq!(static_file_path("public", "/a.css"), Some("public/a.css".to_string()));
    assert_eq!(static_file_path("public/", "/a.css"), Some("public/a.css".to_string()));
    assert_eq!(static_file_path("", "/a.css"), Some("a.css".to_string()));
    assert_eq!(static_file_path("public", "a.css"), Some("public/a.css".to_string()));
    assert_eq!(static_file_path("public", "/css/site.css"), Some("public/css/site.css".to_string()));
    assert_eq!(static_file_path("public", "/../escape"), None);
    assert_eq!(static_file_path("public", "/css/../../escape"), None);
}
