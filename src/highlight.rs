use vstd::prelude::*;

use crate::error::CliError;
use syntect::easy::HighlightLines;
use syntect::highlighting::{Style, Theme, ThemeSet};
use syntect::parsing::{SyntaxReference, SyntaxSet};

verus! {

#[verifier::external_type_specification]
#[verifier::external_body]
pub struct ExSyntaxSet(SyntaxSet);

#[verifier::external_type_specification]
#[verifier::external_body]
pub struct ExSyntaxReference(SyntaxReference);

#[verifier::external_type_specification]
#[verifier::external_body]
pub struct ExThemeSet(ThemeSet);

#[verifier::external_type_specification]
#[verifier::external_body]
pub struct ExTheme(Theme);

#[verifier::external_type_specification]
#[verifier::external_body]
pub struct ExStyle(Style);

#[verifier::external_type_specification]
#[verifier::external_body]
pub struct ExHighlightLines<'a>(HighlightLines<'a>);

#[verifier::external_type_specification]
#[verifier::external_body]
pub struct ExSyntectError(syntect::Error);

pub assume_specification[ SyntaxSet::load_defaults_newlines ]() -> SyntaxSet;

pub assume_specification[ ThemeSet::load_defaults ]() -> ThemeSet;

pub assume_specification<'a>[ HighlightLines::<'a>::new ](
    syntax: &SyntaxReference,
    theme: &'a Theme,
) -> HighlightLines<'a>;

/// The default grammars hold one for files with this extension.
pub uninterp spec fn has_default_grammar(ext: Seq<char>) -> bool;

/// The default themes hold one with this name.
pub uninterp spec fn has_default_theme(name: Seq<char>) -> bool;

/// The texts of highlighted ranges, in order.
pub open spec fn range_texts(v: Seq<(Style, &str)>) -> Seq<Seq<char>> {
    v.map_values(|p: (Style, &str)| p.1@)
}

/// `s` with every terminal escape removed: each run from ESC up to and
/// including the next `m`. `inside` says that an escape is already open.
pub open spec fn without_escapes(s: Seq<char>, inside: bool) -> Seq<char>
    decreases s.len(),
{
    if s.len() == 0 {
        Seq::empty()
    } else if inside {
        without_escapes(s.drop_first(), s[0] != 'm')
    } else if s[0] == '\x1b' {
        without_escapes(s.drop_first(), true)
    } else {
        seq![s[0]] + without_escapes(s.drop_first(), false)
    }
}

/// Relies on HighlightLines::highlight_line, whose ranges join back into the
/// line (the documented behaviour of syntect's `HighlightIterator`).
#[verifier::external_body]
fn highlight_one<'a, 'b>(h: &mut HighlightLines<'a>, line: &'b str, ss: &SyntaxSet) -> (r: Result<
    Vec<(Style, &'b str)>,
    syntect::Error,
>)
    ensures
        r matches Ok(v) ==> range_texts(v@).flatten() == line@,
{
    h.highlight_line(line, ss)
}

/// Relies on syntect::util::as_24_bit_terminal_escaped with backgrounds on:
/// before each range's text it writes two escapes `ESC [ digits and ; m`, and
/// nothing else besides the texts.
#[verifier::external_body]
fn escape_ranges(v: &Vec<(Style, &str)>) -> (r: String)
    ensures
        (forall|i: int| 0 <= i < v@.len() ==> !(#[trigger] v@[i]).1@.contains('\x1b'))
            ==> without_escapes(r@, false) == range_texts(v@).flatten(),
        v@.len() > 0 ==> r@.contains('\x1b'),
{
    syntect::util::as_24_bit_terminal_escaped(&v[..], true)
}

/// A character absent from the joined parts is absent from each part.
proof fn lemma_absent_from_parts(parts: Seq<Seq<char>>, c: char)
    requires
        !parts.flatten().contains(c),
    ensures
        forall|i: int| 0 <= i < parts.len() ==> !(#[trigger] parts[i]).contains(c),
    decreases parts.len(),
{
    if parts.len() > 0 {
        let rest = parts.drop_first();
        assert(parts.flatten() == parts[0] + rest.flatten());
        assert(!rest.flatten().contains(c)) by {
            if rest.flatten().contains(c) {
                let k = choose|k: int| 0 <= k < rest.flatten().len() && rest.flatten()[k] == c;
                assert(parts.flatten()[parts[0].len() + k] == c);
            }
        }
        lemma_absent_from_parts(rest, c);
        assert forall|i: int| 0 <= i < parts.len() implies !(#[trigger] parts[i]).contains(c) by {
            if i == 0 {
                if parts[0].contains(c) {
                    let k = choose|k: int| 0 <= k < parts[0].len() && parts[0][k] == c;
                    assert(parts.flatten()[k] == c);
                }
            } else {
                assert(parts[i] == rest[i - 1]);
            }
        }
    }
}

/// The theme every highlighted body is drawn with.
pub const THEME_NAME: &'static str = "base16-ocean.dark";

/// `lines` are the pieces of `s` cut after each line feed: they join back into
/// `s`, none is empty, each but the last ends with its line feed, and no line
/// feed stands anywhere else.
pub open spec fn is_line_split(s: Seq<char>, lines: Seq<Seq<char>>) -> bool {
    &&& lines.flatten() == s
    &&& forall|j: int| 0 <= j < lines.len() ==> (#[trigger] lines[j]).len() > 0
    &&& forall|j: int, i: int|
        0 <= j < lines.len() && 0 <= i < lines[j].len() - 1 ==> #[trigger] lines[j][i] != '\n'
    &&& forall|j: int| 0 <= j < lines.len() - 1 ==> (#[trigger] lines[j]).last() == '\n'
}

/// Relies on syntect::util::LinesWithEndings, which cuts its input after each
/// `\n`, keeps the line feed with its line, and yields no empty piece.
#[verifier::external_body]
fn split_lines(s: &str) -> (r: Vec<String>)
    ensures
        is_line_split(s@, r@.map_values(|l: String| l@)),
{
    syntect::util::LinesWithEndings::from(s).map(String::from).collect()
}

/// The grammars and themes used to highlight response bodies.
pub struct Highlighter {
    syntaxes: SyntaxSet,
    themes: ThemeSet,
}

/// Highlights one body line by line, each line when asked for: a single pass
/// that cannot be restarted.
pub struct BodyHighlighter<'a> {
    state: HighlightLines<'a>,
    syntaxes: &'a SyntaxSet,
    lines: Vec<String>,
    next: usize,
}

impl Highlighter {
    /// Relies on SyntaxSet::find_syntax_by_extension over the default grammars,
    /// the only ones a `Highlighter` holds.
    #[verifier::external_body]
    fn grammar_for<'a>(&'a self, ext: &str) -> (r: Option<&'a SyntaxReference>)
        ensures
            r is Some <==> has_default_grammar(ext@),
    {
        self.syntaxes.find_syntax_by_extension(ext)
    }

    /// Relies on the public `themes` map of syntect's `ThemeSet`, looked up by
    /// name, over the default themes, the only ones a `Highlighter` holds.
    #[verifier::external_body]
    fn theme_named<'a>(&'a self, name: &str) -> (r: Option<&'a Theme>)
        ensures
            r is Some <==> has_default_theme(name@),
    {
        self.themes.themes.get(name)
    }

    /// The default grammars (with line feeds kept) and the default themes.
    pub fn load_defaults() -> (r: Highlighter) {
        Highlighter {
            syntaxes: SyntaxSet::load_defaults_newlines(),
            themes: ThemeSet::load_defaults(),
        }
    }

    /// Starts highlighting `body` as `language`. A missing grammar or theme is
    /// a configuration error.
    pub fn start<'a>(&'a self, body: &str, language: &str) -> (r: Result<
        BodyHighlighter<'a>,
        CliError,
    >)
        ensures
            r is Ok <==> has_default_grammar(language@) && has_default_theme(THEME_NAME@),
            r matches Ok(h) ==> h.wf() && is_line_split(body@, h.lines()) && h.position() == 0,
            r matches Err(e) ==> e is HighlightEngine,
    {
        let syntax = match self.grammar_for(language) {
            Some(s) => s,
            None => {
                let mut message = String::from_str("no grammar for language ");
                message.append(language);
                return Err(CliError::HighlightEngine { message });
            },
        };
        let theme = match self.theme_named(THEME_NAME) {
            Some(t) => t,
            None => {
                let mut message = String::from_str("no theme named ");
                message.append(THEME_NAME);
                return Err(CliError::HighlightEngine { message });
            },
        };
        let lines = split_lines(body);
        assert forall|j: int| 0 <= j < lines@.len() implies (#[trigger] lines@[j])@.len() > 0 by {
            assert(lines@.map_values(|l: String| l@)[j] == lines@[j]@);
        }
        Ok(
            BodyHighlighter {
                state: HighlightLines::new(syntax, theme),
                syntaxes: &self.syntaxes,
                lines,
                next: 0,
            },
        )
    }
}

impl<'a> BodyHighlighter<'a> {
    /// The body's lines, line feeds kept.
    pub closed spec fn lines(&self) -> Seq<Seq<char>> {
        self.lines@.map_values(|l: String| l@)
    }

    /// How many lines have been handed out.
    pub closed spec fn position(&self) -> int {
        self.next as int
    }

    pub closed spec fn wf(&self) -> bool {
        &&& self.next <= self.lines@.len()
        &&& forall|j: int| 0 <= j < self.lines@.len() ==> (#[trigger] self.lines@[j])@.len() > 0
    }

    /// The number of lines left to highlight.
    pub fn remaining(&self) -> (r: usize)
        requires
            self.wf(),
        ensures
            r == self.lines().len() - self.position(),
    {
        self.lines.len() - self.next
    }

    /// The next line in terminal colors, or `None` once every line was handed
    /// out. A line the engine cannot parse is a highlighting error.
    pub fn next_fragment(&mut self) -> (r: Option<Result<String, CliError>>)
        requires
            old(self).wf(),
        ensures
            final(self).wf(),
            final(self).lines() == old(self).lines(),
            old(self).position() < old(self).lines().len() ==> r is Some && final(self).position()
                == old(self).position() + 1,
            old(self).position() == old(self).lines().len() ==> r is None && final(self).position()
                == old(self).position(),
            r matches Some(Err(e)) ==> e is HighlightEngine,
            r matches Some(Ok(f)) ==> f@.contains('\x1b'),
            r matches Some(Ok(f)) ==> !old(self).lines()[old(self).position()].contains('\x1b')
                ==> without_escapes(f@, false) == old(self).lines()[old(self).position()],
    {
        if self.next >= self.lines.len() {
            return None;
        }
        let i = self.next;
        self.next = i + 1;
        let line = self.lines[i].as_str();
        assert(line@ == self.lines()[i as int]);
        match highlight_one(&mut self.state, line, self.syntaxes) {
            Ok(ranges) => {
                let ghost texts = range_texts(ranges@);
                proof {
                    if ranges@.len() == 0 {
                        assert(texts.flatten() =~= Seq::<char>::empty());
                    }
                    if !line@.contains('\x1b') {
                        lemma_absent_from_parts(texts, '\x1b');
                        assert forall|k: int| 0 <= k < ranges@.len() implies !(
                        #[trigger] ranges@[k]).1@.contains('\x1b') by {
                            assert(texts[k] == ranges@[k].1@);
                        }
                    }
                }
                Some(Ok(escape_ranges(&ranges)))
            },
            Err(_) => {
                let mut message = String::from_str("cannot highlight line ");
                message.append(line);
                Some(Err(CliError::HighlightEngine { message }))
            },
        }
    }
}

} // verus!
