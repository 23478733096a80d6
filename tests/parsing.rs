use httpie_lite::{parse_kv_pair, parse_url, CliError, KvPair, Method, RequestDescriptor};

#[test]
fn kv_pair_simple() {
    let kv = parse_kv_pair("name=joe").unwrap();
    assert_eq!(kv.k, "name");
    assert_eq!(kv.v, "joe");
}

#[test]
fn kv_pair_splits_on_first_equals_only() {
    let kv = KvPair::from_str("a=b=c").unwrap();
    assert_eq!(kv.k, "a");
    assert_eq!(kv.v, "b=c");
}

#[test]
fn kv_pair_empty_value_is_kept() {
    let kv = parse_kv_pair("a=").unwrap();
    assert_eq!(kv.k, "a");
    assert_eq!(kv.v, "");
}

#[test]
fn kv_pair_without_equals_fails() {
    assert_eq!(
        parse_kv_pair("novalue"),
        Err(CliError::InvalidBodyPair { token: "novalue".to_string() })
    );
    assert_eq!(parse_kv_pair(""), Err(CliError::InvalidBodyPair { token: String::new() }));
}

#[test]
fn kv_pair_without_key_fails() {
    assert_eq!(
        parse_kv_pair("=v"),
        Err(CliError::InvalidBodyPair { token: "=v".to_string() })
    );
}

#[test]
fn url_absolute_is_accepted() {
    assert_eq!(parse_url("https://example.com/"), Ok("https://example.com/".to_string()));
}

#[test]
fn url_is_normalized() {
    assert_eq!(parse_url("HTTPS://Example.com"), Ok("https://example.com/".to_string()));
}

#[test]
fn url_not_absolute_fails() {
    assert_eq!(
        parse_url("not-a-url"),
        Err(CliError::InvalidUrl { url: "not-a-url".to_string() })
    );
    assert_eq!(
        parse_url("/relative/path"),
        Err(CliError::InvalidUrl { url: "/relative/path".to_string() })
    );
    assert!(parse_url("").is_err());
}

#[test]
fn get_request_valid() {
    let d = RequestDescriptor::get_request("https://example.com/").unwrap();
    assert_eq!(d.method, Method::Get);
    assert_eq!(d.url, "https://example.com/");
    assert!(d.body.is_empty());
}

#[test]
fn post_request_valid() {
    let tokens = vec!["name=joe".to_string(), "age=5".to_string()];
    let d = RequestDescriptor::post_request("https://example.com/", &tokens).unwrap();
    assert_eq!(d.method, Method::Post);
    assert_eq!(d.body.len(), 2);
    assert_eq!(d.body[0].k, "name");
    assert_eq!(d.body[0].v, "joe");
    assert_eq!(d.body[1].k, "age");
    assert_eq!(d.body[1].v, "5");
}

#[test]
fn post_request_empty_body_is_valid() {
    let d = RequestDescriptor::post_request("https://example.com/", &vec![]).unwrap();
    assert!(d.body.is_empty());
}

#[test]
fn post_request_malformed_url_fails_first() {
    let tokens = vec!["a=1".to_string()];
    let r = RequestDescriptor::post_request("not-a-url", &tokens);
    assert_eq!(r.unwrap_err(), CliError::InvalidUrl { url: "not-a-url".to_string() });
    let bad = vec!["oops".to_string()];
    let r = RequestDescriptor::post_request("not-a-url", &bad);
    assert_eq!(r.unwrap_err(), CliError::InvalidUrl { url: "not-a-url".to_string() });
}

#[test]
fn post_request_reports_first_bad_token() {
    let tokens = vec!["a=1".to_string(), "bad".to_string(), "=x".to_string()];
    let r = RequestDescriptor::post_request("https://example.com/", &tokens);
    assert_eq!(r.unwrap_err(), CliError::InvalidBodyPair { token: "bad".to_string() });
}

#[test]
fn exit_codes_are_distinct_and_nonzero() {
    let errors = vec![
        CliError::Usage { message: String::new() },
        CliError::InvalidUrl { url: String::new() },
        CliError::InvalidBodyPair { token: String::new() },
        CliError::Transport { cause: String::new() },
        CliError::BodyRead { cause: String::new() },
        CliError::HighlightEngine { message: String::new() },
    ];
    let codes: Vec<i32> = errors.iter().map(|e| e.exit_code()).collect();
    assert_eq!(codes, vec![2, 3, 4, 5, 6, 7]);
}
