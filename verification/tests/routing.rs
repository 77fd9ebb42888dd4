use fluxor::{Fluxor, Method, NotFoundGenerator, Route};

struct NoGen;

impl NotFoundGenerator for NoGen {
    fn generate(&self, _content_type: &str) -> String {
        String::new()
    }
}

fn route_of(path: &str) -> Route<u32> {
    Route { method: Method::Get, path: path.to_string(), handler: 0 }
}

#[test]
fn match_literal_and_capture() {
    let r = route_of("/users/<id>");
    let d = r.is_match("/users/42").expect("template should match");
    assert_eq!(d.get("id"), Some("42".to_string()));
}

#[test]
fn match_rejects_literal_mismatch() {
    let r = route_of("/users/<id>");
    assert!(r.is_match("/items/42").is_none());
}

#[test]
fn match_is_case_sensitive() {
    let r = route_of("/Users");
    assert!(r.is_match("/users").is_none());
}

#[test]
fn match_binds_empty_capture() {
    let r = route_of("/users/<id>");
    let d = r.is_match("/users/").expect("capture accepts the empty segment");
    assert_eq!(d.get("id"), Some(String::new()));
}

#[test]
fn match_without_captures_yields_empty_mapping() {
    let r = route_of("/about");
    let d = r.is_match("/about").expect("literal template should match");
    assert_eq!(d.get("about"), None);
}

#[test]
fn match_segment_count_differs() {
    let r = route_of("/a/b");
    assert!(r.is_match("/a").is_none());
    assert!(r.is_match("/a/b/c").is_none());
    let short = route_of("/a");
    assert!(short.is_match("/a/b").is_none());
}

#[test]
fn repeated_capture_name_keeps_the_later_value() {
    let r = route_of("/<a>/<a>");
    let d = r.is_match("/1/2").expect("should match");
    assert_eq!(d.get("a"), Some("2".to_string()));
}

#[test]
fn capture_key_sheds_every_delimiter() {
    let r = route_of("/<<id>>");
    let d = r.is_match("/v").expect("should match");
    assert_eq!(d.get("id"), Some("v".to_string()));
}

#[test]
fn half_delimited_segment_is_literal() {
    let r = route_of("/<id");
    assert!(r.is_match("/42").is_none());
    let d = r.is_match("/<id").expect("literal should match itself");
    assert_eq!(d.get("id"), None);
}

#[test]
fn match_multiple_captures() {
    let r = route_of("/repos/<owner>/<name>");
    let d = r.is_match("/repos/ada/engine").expect("should match");
    assert_eq!(d.get("owner"), Some("ada".to_string()));
    assert_eq!(d.get("name"), Some("engine".to_string()));
}

#[test]
fn registration_order_precedence() {
    let mut app: Fluxor<u32, NoGen> = Fluxor::new();
    app.route(Method::Get, "/x", 1);
    app.route(Method::Get, "/x", 2);
    let (idx, _params) = app.find_route(Method::Get, "/x").expect("a route should accept");
    assert_eq!(idx, 0);
    assert_eq!(app.routes[idx].handler, 1);
}

#[test]
fn method_mismatch_skips_route() {
    let mut app: Fluxor<u32, NoGen> = Fluxor::new();
    app.route(Method::Post, "/x", 1);
    app.route(Method::Get, "/x", 2);
    let (idx, _params) = app.find_route(Method::Get, "/x").expect("a route should accept");
    assert_eq!(idx, 1);
    assert!(app.find_route(Method::Put, "/x").is_none());
}

#[test]
fn users_route_scenario() {
    let mut app: Fluxor<u32, NoGen> = Fluxor::new();
    app.route(Method::Get, "/users/<id>", 7);
    let (idx, params) = app.find_route(Method::Get, "/users/42").expect("should match");
    assert_eq!(idx, 0);
    assert_eq!(app.routes[idx].handler, 7);
    assert_eq!(params.extra.get("id"), Some("42".to_string()));
}

#[test]
fn empty_capture_falls_through() {
    let mut app: Fluxor<u32, NoGen> = Fluxor::new();
    app.route(Method::Get, "/users/<id>", 7);
    assert!(app.find_route(Method::Get, "/users/").is_none());
}

#[test]
fn empty_capture_lets_later_route_match() {
    let mut app: Fluxor<u32, NoGen> = Fluxor::new();
    app.route(Method::Get, "/users/<id>", 1);
    app.route(Method::Get, "/users/", 2);
    let (idx, _params) = app.find_route(Method::Get, "/users/").expect("literal route matches");
    assert_eq!(idx, 1);
}

#[test]
fn captured_params_merge_with_base() {
    let mut app: Fluxor<u32, NoGen> = Fluxor::new();
    app.params.extra.insert("site".to_string(), "demo".to_string());
    app.params.extra.insert("id".to_string(), "base".to_string());
    app.route(Method::Get, "/users/<id>", 7);
    let (_idx, params) = app.find_route(Method::Get, "/users/42").expect("should match");
    assert_eq!(params.extra.get("site"), Some("demo".to_string()));
    assert_eq!(params.extra.get("id"), Some("42".to_string()));
    assert_eq!(app.params.extra.get("id"), Some("base".to_string()));
}

#[test]
fn new_starts_empty() {
    let app: Fluxor<u32, NoGen> = Fluxor::new();
    assert_eq!(app.routes.len(), 0);
    assert!(app.custom_404_gen.is_none());
    assert!(app.params.custom_404.contains("404 Not Found"));
}

#[test]
fn set_dir_is_stored() {
    let mut app: Fluxor<u32, NoGen> = Fluxor::new();
    app.set_dir("public".to_string());
    assert_eq!(app.params.dir, "public");
}
