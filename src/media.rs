use vstd::prelude::*;

verus! {

#[verifier::external_type_specification]
#[verifier::external_body]
pub struct ExMimeFromStrError(mime::FromStrError);

/// A parsed media type: its essence (`type/subtype`, lower case) and its
/// parameters in order.
#[derive(Debug, Clone)]
pub struct MediaType {
    pub essence: String,
    pub params: Vec<(String, String)>,
}

pub open spec fn pair_view(p: (String, String)) -> (Seq<char>, Seq<char>) {
    (p.0@, p.1@)
}

impl MediaType {
    pub open spec fn view(&self) -> (Seq<char>, Seq<(Seq<char>, Seq<char>)>) {
        (self.essence@, self.params@.map_values(|p: (String, String)| pair_view(p)))
    }
}

/// The essence and parameters that the media-type parser reads from `s`, if
/// `s` is a well-formed media type.
pub uninterp spec fn parsed_media_type(s: Seq<char>) -> Option<
    (Seq<char>, Seq<(Seq<char>, Seq<char>)>),
>;

/// Relies on `mime::Mime`'s `FromStr`, with the result read back through
/// `Mime::essence_str` and `Mime::params`.
#[verifier::external_body]
fn mime_parse(s: &str) -> (r: Result<MediaType, mime::FromStrError>)
    ensures
        r is Ok <==> parsed_media_type(s@) is Some,
        r matches Ok(m) ==> parsed_media_type(s@) == Some(m.view()),
{
    s.parse::<mime::Mime>().map(
        |m|
            MediaType {
                essence: m.essence_str().to_string(),
                params: m.params().map(|(n, v)| (n.as_str().to_string(), v.as_str().to_string())).collect(),
            },
    )
}

/// Parses a `Content-Type` value; an unparseable one counts as none.
pub fn parse_media_type(s: &str) -> (r: Option<MediaType>)
    ensures
        r is Some <==> parsed_media_type(s@) is Some,
        r matches Some(m) ==> parsed_media_type(s@) == Some(m.view()),
{
    match mime_parse(s) {
        Ok(m) => Some(m),
        Err(_) => None,
    }
}

/// How a response body is shown.
#[derive(Debug, Clone, PartialEq, Eq)]
pub enum RenderDecision {
    /// Highlight the body with the grammar of this language.
    HighlightAs { language: String },
    /// Print the body as it is.
    Plain,
}

impl RenderDecision {
    pub open spec fn view(&self) -> Option<Seq<char>> {
        match self {
            RenderDecision::HighlightAs { language } => Some(language@),
            RenderDecision::Plain => None,
        }
    }
}

/// The media types that are highlighted, each with its language.
pub open spec fn render_table() -> Seq<(Seq<char>, Seq<char>)> {
    seq![("text/html"@, "html"@), ("application/json"@, "json"@)]
}

/// The language of the first entry of `table` whose media type is `essence`.
pub open spec fn table_lookup(table: Seq<(Seq<char>, Seq<char>)>, essence: Seq<char>) -> Option<
    Seq<char>,
>
    decreases table.len(),
{
    if table.len() == 0 {
        None
    } else if table[0].0 == essence {
        Some(table[0].1)
    } else {
        table_lookup(table.drop_first(), essence)
    }
}

/// The language a body of this media type is highlighted as: only a media type
/// of the table, without parameters, is highlighted.
pub open spec fn decision_of(ct: Option<(Seq<char>, Seq<(Seq<char>, Seq<char>)>)>) -> Option<
    Seq<char>,
> {
    match ct {
        Some(m) => if m.1.len() == 0 {
            table_lookup(render_table(), m.0)
        } else {
            None
        },
        None => None,
    }
}

fn render_table_exec() -> (r: Vec<(String, String)>)
    ensures
        r@.map_values(|p: (String, String)| pair_view(p)) == render_table(),
{
    let r = vec![
        (String::from_str("text/html"), String::from_str("html")),
        (String::from_str("application/json"), String::from_str("json")),
    ];
    assert(r@.map_values(|p: (String, String)| pair_view(p)) =~= render_table());
    r
}

/// Decides how to render a body of the given media type.
pub fn render_decision(ct: &Option<MediaType>) -> (r: RenderDecision)
    ensures
        r@ == decision_of(
            match ct {
                Some(m) => Some(m.view()),
                None => None,
            },
        ),
{
    match ct {
        None => RenderDecision::Plain,
        Some(m) => {
            if m.params.len() != 0 {
                return RenderDecision::Plain;
            }
            let table = render_table_exec();
            let ghost t = table@.map_values(|p: (String, String)| pair_view(p));
            assert(t.subrange(0, t.len() as int) =~= t);
            let mut i: usize = 0;
            while i < table.len()
                invariant
                    i <= table@.len(),
                    t == table@.map_values(|p: (String, String)| pair_view(p)),
                    t == render_table(),
                    m.params@.len() == 0,
                    *ct == Some(*m),
                    table_lookup(t, m.essence@) == table_lookup(t.subrange(i as int, t.len() as int), m.essence@),
                decreases table@.len() - i,
            {
                let ghost rest = t.subrange(i as int, t.len() as int);
                assert(rest[0] == t[i as int]);
                assert(rest.drop_first() =~= t.subrange(i as int + 1, t.len() as int));
                assert(t[i as int] == pair_view(table@[i as int]));
                if table[i].0 == m.essence {
                    let language = table[i].1.clone();
                    assert(language@ == t[i as int].1);
                    assert(table_lookup(t.subrange(i as int, t.len() as int), m.essence@) == Some(language@));
                    return RenderDecision::HighlightAs { language };
                }
                i = i + 1;
            }
            RenderDecision::Plain
        },
    }
}

/// `a` and `b` are the same character up to ASCII case.
pub open spec fn char_eq_ignore_case(a: char, b: char) -> bool {
    ||| a == b
    ||| ('A' <= a <= 'Z' && a as u32 + 32 == b as u32)
    ||| ('A' <= b <= 'Z' && b as u32 + 32 == a as u32)
}

/// `a` and `b` are the same text up to ASCII case.
pub open spec fn eq_ignore_case(a: Seq<char>, b: Seq<char>) -> bool {
    &&& a.len() == b.len()
    &&& forall|i: int| 0 <= i < a.len() ==> char_eq_ignore_case(#[trigger] a[i], b[i])
}

fn str_eq_ignore_case(a: &str, b: &str) -> (r: bool)
    ensures
        r == eq_ignore_case(a@, b@),
{
    let n = a.unicode_len();
    if n != b.unicode_len() {
        return false;
    }
    let mut i: usize = 0;
    while i < n
        invariant
            n == a@.len() == b@.len(),
            i <= n,
            forall|j: int| 0 <= j < i ==> char_eq_ignore_case(#[trigger] a@[j], b@[j]),
        decreases n - i,
    {
        let x = a.get_char(i);
        let y = b.get_char(i);
        let same = x == y || ('A' <= x && x <= 'Z' && x as u32 + 32 == y as u32) || ('A' <= y
            && y <= 'Z' && y as u32 + 32 == x as u32);
        if !same {
            return false;
        }
        i = i + 1;
    }
    true
}

/// The header name that carries a body's media type.
pub open spec fn content_type_name() -> Seq<char> {
    "content-type"@
}

/// The index of the first header named `Content-Type`, in any case.
pub open spec fn is_first_content_type(headers: Seq<(String, String)>, i: int) -> bool {
    &&& 0 <= i < headers.len()
    &&& eq_ignore_case(headers[i].0@, content_type_name())
    &&& forall|j: int|
        0 <= j < i ==> !eq_ignore_case(#[trigger] headers[j].0@, content_type_name())
}

/// The value of the first `Content-Type` header, if there is one.
pub fn content_type_of(headers: &Vec<(String, String)>) -> (r: Option<&String>)
    ensures
        r is None <==> forall|j: int|
            0 <= j < headers@.len() ==> !eq_ignore_case(
                #[trigger] headers@[j].0@,
                content_type_name(),
            ),
        r matches Some(v) ==> exists|i: int|
            is_first_content_type(headers@, i) && #[trigger] headers@[i].1 == *v,
{
    let name = "content-type";
    let mut i: usize = 0;
    while i < headers.len()
        invariant
            i <= headers@.len(),
            name@ == content_type_name(),
            forall|j: int|
                0 <= j < i ==> !eq_ignore_case(#[trigger] headers@[j].0@, content_type_name()),
        decreases headers@.len() - i,
    {
        if str_eq_ignore_case(headers[i].0.as_str(), name) {
            assert(is_first_content_type(headers@, i as int));
            return Some(&headers[i].1);
        }
        i = i + 1;
    }
    None
}

/// The media type that the headers declare: none where no `Content-Type`
/// header is present or its value does not parse.
pub open spec fn declared_media_type(headers: Seq<(String, String)>) -> Option<
    (Seq<char>, Seq<(Seq<char>, Seq<char>)>),
> {
    if exists|i: int| is_first_content_type(headers, i) {
        let i = choose|i: int| is_first_content_type(headers, i);
        parsed_media_type(headers[i].1@)
    } else {
        None
    }
}

/// Decides how to render a body from the response headers.
pub fn decide_rendering(headers: &Vec<(String, String)>) -> (r: RenderDecision)
    ensures
        r@ == decision_of(declared_media_type(headers@)),
{
    let ct = match content_type_of(headers) {
        Some(v) => parse_media_type(v.as_str()),
        None => None,
    };
    proof {
        if exists|i: int| is_first_content_type(headers@, i) {
            let i = choose|i: int| is_first_content_type(headers@, i);
            assert forall|i2: int| is_first_content_type(headers@, i2) implies i2 == i by {
                if i2 < i {
                    assert(!eq_ignore_case(headers@[i2].0@, content_type_name()));
                } else if i < i2 {
                    assert(!eq_ignore_case(headers@[i].0@, content_type_name()));
                }
            }
        }
    }
    render_decision(&ct)
}

} // verus!
