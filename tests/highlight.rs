use httpie_lite::{CliError, Highlighter};

fn strip_escapes(s: &str) -> String {
    let mut out = String::new();
    let mut chars = s.chars().peekable();
    while let Some(c) = chars.next() {
        if c == '\x1b' {
            for d in chars.by_ref() {
                if d == 'm' {
                    break;
                }
            }
        } else {
            out.push(c);
        }
    }
    out
}

fn highlight_all(body: &str, language: &str) -> Vec<String> {
    let h = Highlighter::load_defaults();
    let mut b = h.start(body, language).ok().unwrap();
    let mut out = Vec::new();
    while let Some(fragment) = b.next_fragment() {
        out.push(fragment.unwrap());
    }
    out
}

#[test]
fn json_body_is_colored_and_keeps_text() {
    let out = highlight_all("{\"a\":1}", "json");
    assert_eq!(out.len(), 1);
    assert!(out[0].contains("\x1b["));
    assert_eq!(strip_escapes(&out[0]), "{\"a\":1}");
}

#[test]
fn line_endings_are_preserved() {
    let body = "<html>\n<body>hi</body>\n</html>";
    let out = highlight_all(body, "html");
    assert_eq!(out.len(), 3);
    let joined: String = out.iter().map(|l| strip_escapes(l)).collect();
    assert_eq!(joined, body);
}

#[test]
fn fragments_come_once_each() {
    let h = Highlighter::load_defaults();
    let mut b = h.start("1\n2\n", "json").ok().unwrap();
    assert_eq!(b.remaining(), 2);
    assert!(b.next_fragment().is_some());
    assert!(b.next_fragment().is_some());
    assert_eq!(b.remaining(), 0);
    assert!(b.next_fragment().is_none());
    assert!(b.next_fragment().is_none());
}

#[test]
fn empty_body_has_no_fragments() {
    let h = Highlighter::load_defaults();
    let b = h.start("", "json").ok().unwrap();
    assert_eq!(b.remaining(), 0);
}

#[test]
fn unknown_language_is_engine_error() {
    let h = Highlighter::load_defaults();
    match h.start("x", "no-such-language") {
        Err(CliError::HighlightEngine { .. }) => {}
        _ => panic!("expected a highlighting error"),
    }
}

#[test]
fn unterminated_last_line_is_kept() {
    let body = "<p>a</p>\nb";
    let out = highlight_all(body, "html");
    assert_eq!(out.len(), 2);
    assert_eq!(strip_escapes(&out[0]), "<p>a</p>\n");
    assert_eq!(strip_escapes(&out[1]), "b");
}

#[test]
fn crlf_line_endings_are_kept() {
    let body = "{\r\n\"a\": 1\r\n}\r\n";
    let out = highlight_all(body, "json");
    assert_eq!(out.len(), 3);
    assert!(out.iter().all(|f| f.contains("\x1b[")));
    let joined: String = out.iter().map(|l| strip_escapes(l)).collect();
    assert_eq!(joined, body);
}
