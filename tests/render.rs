use httpie_lite::{
    content_type_of, decide_rendering, parse_media_type, render_decision, RenderDecision,
};

fn headers(list: &[(&str, &str)]) -> Vec<(String, String)> {
    list.iter().map(|(n, v)| (n.to_string(), v.to_string())).collect()
}

fn highlight(language: &str) -> RenderDecision {
    RenderDecision::HighlightAs { language: language.to_string() }
}

#[test]
fn media_type_is_parsed() {
    let m = parse_media_type("text/html").unwrap();
    assert_eq!(m.essence, "text/html");
    assert!(m.params.is_empty());
}

#[test]
fn media_type_is_lowercased_with_params() {
    let m = parse_media_type("Application/JSON; charset=utf-8").unwrap();
    assert_eq!(m.essence, "application/json");
    assert_eq!(m.params, vec![("charset".to_string(), "utf-8".to_string())]);
}

#[test]
fn media_type_garbage_is_none() {
    assert!(parse_media_type("not a media type").is_none());
    assert!(parse_media_type("").is_none());
}

#[test]
fn html_is_highlighted_as_html() {
    assert_eq!(render_decision(&parse_media_type("text/html")), highlight("html"));
}

#[test]
fn json_is_highlighted_as_json() {
    assert_eq!(render_decision(&parse_media_type("application/json")), highlight("json"));
}

#[test]
fn plain_text_is_not_highlighted() {
    assert_eq!(render_decision(&parse_media_type("text/plain")), RenderDecision::Plain);
}

#[test]
fn media_type_with_params_is_not_highlighted() {
    assert_eq!(
        render_decision(&parse_media_type("application/json; charset=utf-8")),
        RenderDecision::Plain
    );
}

#[test]
fn missing_media_type_is_not_highlighted() {
    assert_eq!(render_decision(&None), RenderDecision::Plain);
}

#[test]
fn content_type_header_found_in_any_case() {
    let h = headers(&[("server", "x"), ("Content-Type", "application/json"), ("content-type", "text/html")]);
    assert_eq!(content_type_of(&h), Some(&"application/json".to_string()));
}

#[test]
fn content_type_header_absent() {
    let h = headers(&[("server", "x"), ("content-length", "3")]);
    assert_eq!(content_type_of(&h), None);
    assert_eq!(decide_rendering(&h), RenderDecision::Plain);
}

#[test]
fn decide_rendering_from_headers() {
    let h = headers(&[("content-type", "application/json")]);
    assert_eq!(decide_rendering(&h), highlight("json"));
    let h = headers(&[("content-type", "text/plain")]);
    assert_eq!(decide_rendering(&h), RenderDecision::Plain);
    let h = headers(&[("content-type", "%%%")]);
    assert_eq!(decide_rendering(&h), RenderDecision::Plain);
}
