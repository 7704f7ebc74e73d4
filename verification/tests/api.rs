use eocc_core::api::{
    eq_ignore_case, extract_pane_id, html_escape, is_json_array, parse_query,
    render_viewer_page, replace_str, route_request, tmux_viewer_url, ApiRoute,
};
use eocc_core::urlcode::{form_urlencoded, urldecode, urlencoded};

fn headers(pairs: &[(&str, &str)]) -> Vec<(String, String)> {
    pairs.iter().map(|(a, b)| (a.to_string(), b.to_string())).collect()
}

#[test]
fn query_strings_are_decoded() {
    let q = parse_query("pane_id=%253&project_dir=%2Fhome%2Fu+x&&flag&k=1&k=2");
    assert_eq!(q.get("pane_id").map(|s| s.as_str()), Some("%3"));
    assert_eq!(q.get("project_dir").map(|s| s.as_str()), Some("/home/u x"));
    assert_eq!(q.get("flag").map(|s| s.as_str()), Some(""));
    assert_eq!(q.get("k").map(|s| s.as_str()), Some("2"));
    assert_eq!(q.len(), 4);
    assert!(parse_query("").is_empty());
}

#[test]
fn urldecode_handles_escapes_and_plus() {
    assert_eq!(urldecode("a%20b+c"), "a b c");
    assert_eq!(urldecode("a%2Fb+c%zz"), "a/b c%zz");
    assert_eq!(urldecode("%41%4a%4A"), "AJJ");
    assert_eq!(urldecode("100%"), "100%");
    assert_eq!(urldecode("%zz"), "%zz");
    assert_eq!(urldecode("%+5x"), "\u{5}x");
    assert_eq!(urldecode("%C3%A9"), "é");
    assert_eq!(urldecode("%FF"), "\u{FFFD}");
}

#[test]
fn urlencoding_is_undone_by_urldecode() {
    for s in ["", "plain", "a b/c?d=e&f", "%3", "üñí €", "~-._"] {
        assert_eq!(urldecode(&urlencoded(s)), s);
    }
    assert_eq!(urlencoded("a b/ü"), "a%20b%2F%C3%BC");
    assert_eq!(form_urlencoded("a b/ü"), "a+b%2F%C3%BC");
}

#[test]
fn pane_ids_come_out_of_paths() {
    assert_eq!(
        extract_pane_id("/api/tmux/%253/capture", "/api/tmux/", "/capture").as_deref(),
        Some("%3")
    );
    assert_eq!(extract_pane_id("/tmux/%251", "/tmux/", "").as_deref(), Some("%1"));
    assert_eq!(extract_pane_id("/other/%251", "/tmux/", ""), None);
    assert_eq!(extract_pane_id("/api/tmux/%251/send", "/api/tmux/", "/capture"), None);
}

#[test]
fn html_is_escaped_in_the_viewer_page() {
    assert_eq!(
        html_escape("<a href=\"x\">'&'</a>"),
        "&lt;a href=&quot;x&quot;&gt;&#x27;&amp;&#x27;&lt;/a&gt;"
    );
    let page = render_viewer_page(
        "<p>{{PANE_ID}} in {{PROJECT_DIR}} / {{PANE_ID}}</p>",
        "%1",
        "/a<b>",
    );
    assert_eq!(page, "<p>%1 in /a&lt;b&gt; / %1</p>");
    assert_eq!(replace_str("aaa", "aa", "b"), "ba");
}

#[test]
fn viewer_window_addresses_are_encoded() {
    assert_eq!(tmux_viewer_url("%3", None), "index.html?tmux_pane=%253");
    assert_eq!(
        tmux_viewer_url("%3", Some("/home/u/my proj")),
        "index.html?tmux_pane=%253&project_dir=%2Fhome%2Fu%2Fmy%20proj"
    );
}

#[test]
fn requests_are_routed_and_authorized() {
    let none = headers(&[]);
    let r = route_request("POST", "/api/events", &none, &None);
    assert_eq!(r.route, ApiRoute::PostEvents);
    assert_eq!(r.path, "/api/events");
    assert_eq!(r.query, "");
    let r = route_request("GET", "/api/tmux/%251/capture?project_dir=%2Fp", &none, &None);
    assert_eq!(r.route, ApiRoute::TmuxCapture);
    assert_eq!(r.path, "/api/tmux/%251/capture");
    assert_eq!(r.query, "project_dir=%2Fp");
    assert_eq!(
        route_request("POST", "/api/tmux/%251/send", &none, &None).route,
        ApiRoute::TmuxSend
    );
    assert_eq!(route_request("GET", "/tmux/%251?a=b?c", &none, &None).query, "a=b?c");
    assert_eq!(route_request("GET", "/tmux/%251", &none, &None).route, ApiRoute::WebViewer);
    assert_eq!(route_request("GET", "/", &none, &None).route, ApiRoute::Root);
    assert_eq!(route_request("DELETE", "/", &none, &None).route, ApiRoute::NotFound);

    let token = Some("s3cret".to_string());
    assert_eq!(route_request("GET", "/", &none, &token).route, ApiRoute::Unauthorized);
    let wrong = headers(&[("Authorization", "Bearer nope")]);
    assert_eq!(route_request("GET", "/", &wrong, &token).route, ApiRoute::Unauthorized);
    let good = headers(&[("Accept", "*/*"), ("authorization", "Bearer s3cret")]);
    assert_eq!(route_request("GET", "/", &good, &token).route, ApiRoute::Root);
    assert!(eq_ignore_case("AUTHORIZATION", "authorization"));
    assert!(!eq_ignore_case("Authorization", "Authorisation"));
}

#[test]
fn array_bodies_are_told_apart() {
    assert!(is_json_array("  [ {} ]"));
    assert!(is_json_array("[]"));
    assert!(!is_json_array("{\"a\": [1]}"));
    assert!(!is_json_array("   "));
}

#[test]
fn components_over_one_kilobyte_are_refused() {
    let long = "a".repeat(1025);
    let exact = "b".repeat(1024);
    let q = parse_query(&format!("x={}&y={}&{}=1", long, exact, long));
    assert!(q.get("x").is_none());
    assert_eq!(q.get("y").map(|s| s.len()), Some(1024));
    assert_eq!(q.len(), 1);
    assert!(extract_pane_id(&format!("/tmux/{}", long), "/tmux/", "").is_none());
    assert!(extract_pane_id(&format!("/tmux/{}", exact), "/tmux/", "").is_some());
}
