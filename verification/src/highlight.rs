//! Syntax highlighting of generated code with syntect, as coloured spans of text.
use vstd::prelude::*;
use syntect::easy::HighlightLines;
use syntect::highlighting::{Theme, ThemeSet};
use syntect::parsing::{SyntaxReference, SyntaxSet};
use crate::text::{string_from_chars, to_chars};

verus! {

#[verifier::external_type_specification]
#[verifier::external_body]
pub struct ExSyntaxSet(SyntaxSet);

#[verifier::external_type_specification]
#[verifier::external_body]
pub struct ExThemeSet(ThemeSet);

#[verifier::external_type_specification]
#[verifier::external_body]
pub struct ExSyntaxReference(SyntaxReference);

#[verifier::external_type_specification]
#[verifier::external_body]
pub struct ExTheme(Theme);

#[verifier::external_type_specification]
#[verifier::external_body]
pub struct ExHighlightLines<'a>(HighlightLines<'a>);

/// A span of highlighted text and its colour (red, green, blue).
pub type Span = (String, [u8; 3]);

/// The colour of a line that syntect cannot parse: light grey.
pub const FALLBACK_RGB: [u8; 3] = [220, 220, 220];

/// The spans as plain values: each text and its colour.
pub open spec fn spans_view(spans: Seq<Span>) -> Seq<(Seq<char>, Seq<u8>)> {
    spans.map_values(|s: Span| (s.0@, s.1@))
}

/// The text of the spans, one after the other.
pub open spec fn spans_text(spans: Seq<(Seq<char>, Seq<u8>)>) -> Seq<char>
    decreases spans.len(),
{
    if spans.len() == 0 {
        Seq::empty()
    } else {
        spans_text(spans.drop_last()) + spans.last().0
    }
}

/// The text of joined span lists is the joined text.
pub proof fn lemma_spans_text_concat(a: Seq<(Seq<char>, Seq<u8>)>, b: Seq<(Seq<char>, Seq<u8>)>)
    ensures
        spans_text(a + b) == spans_text(a) + spans_text(b),
    decreases b.len(),
{
    if b.len() == 0 {
        assert(a + b =~= a);
        assert(spans_text(a) + Seq::<char>::empty() =~= spans_text(a));
    } else {
        lemma_spans_text_concat(a, b.drop_last());
        assert((a + b).drop_last() =~= a + b.drop_last());
        assert((a + b).last() == b.last());
        assert(spans_text(a) + spans_text(b.drop_last()) + b.last().0 =~= spans_text(a) + (
        spans_text(b.drop_last()) + b.last().0));
    }
}

/// The names of the syntaxes in a syntax set.
pub uninterp spec fn syntax_names(set: SyntaxSet) -> Set<Seq<char>>;

/// The keys of the themes in a theme set.
pub uninterp spec fn theme_keys(set: ThemeSet) -> Set<Seq<char>>;

/// `SyntaxSet::load_defaults_newlines`: syntect's built-in syntaxes. syntect documents that a
/// syntax set always holds the "Plain Text" syntax (`find_syntax_plain_text`); the built-in
/// set does.
#[verifier::external_body]
fn default_syntaxes() -> (r: SyntaxSet)
    ensures
        syntax_names(r).contains("Plain Text"@),
{
    SyntaxSet::load_defaults_newlines()
}

/// `ThemeSet::load_defaults`: syntect's built-in themes, whose keys its documentation lists.
#[verifier::external_body]
fn default_themes() -> (r: ThemeSet)
    ensures
        theme_keys(r).contains("base16-ocean.dark"@),
        theme_keys(r).contains("base16-eighties.dark"@),
        theme_keys(r).contains("base16-mocha.dark"@),
        theme_keys(r).contains("base16-ocean.light"@),
        theme_keys(r).contains("InspiredGitHub"@),
        theme_keys(r).contains("Solarized (dark)"@),
        theme_keys(r).contains("Solarized (light)"@),
{
    ThemeSet::load_defaults()
}

/// `SyntaxSet::find_syntax_by_extension`: the syntax for files with extension `ext`, if any.
#[verifier::external_body]
fn syntax_by_extension<'a>(set: &'a SyntaxSet, ext: &str) -> Option<&'a SyntaxReference> {
    set.find_syntax_by_extension(ext)
}

/// `SyntaxSet::find_syntax_by_name`: the syntax called `name`; there is one exactly when the
/// set has a syntax of that name.
#[verifier::external_body]
fn syntax_by_name<'a>(set: &'a SyntaxSet, name: &str) -> (r: Option<&'a SyntaxReference>)
    ensures
        r is Some <==> syntax_names(*set).contains(name@),
{
    set.find_syntax_by_name(name)
}

/// `BTreeMap::get` on the themes of a theme set: the theme with key `name`; there is one
/// exactly when the key is present.
#[verifier::external_body]
fn theme_by_name<'a>(set: &'a ThemeSet, name: &String) -> (r: Option<&'a Theme>)
    ensures
        r is Some <==> theme_keys(*set).contains(name@),
{
    set.themes.get(name)
}

/// The first theme of a theme set (`values().next()` on its themes); there is one exactly
/// when the set has a theme.
#[verifier::external_body]
fn first_theme<'a>(set: &'a ThemeSet) -> (r: Option<&'a Theme>)
    ensures
        r is Some <==> exists|k: Seq<char>| theme_keys(*set).contains(k),
{
    set.themes.values().next()
}

/// `HighlightLines::new`: a highlighter for the lines of one text.
#[verifier::external_body]
fn line_highlighter<'a>(syntax: &'a SyntaxReference, theme: &'a Theme) -> HighlightLines<'a> {
    HighlightLines::new(syntax, theme)
}

/// `HighlightLines::highlight_line`, each token given as its text and foreground colour;
/// `None` when syntect reports an error. syntect documents that the texts of the tokens
/// make up the line. The colours depend on the parser state that the highlighter carries
/// from line to line, so nothing is said of them.
#[verifier::external_body]
fn highlight_line(h: &mut HighlightLines, line: &str, set: &SyntaxSet) -> (r: Option<Vec<Span>>)
    ensures
        r matches Some(v) ==> spans_text(spans_view(v@)) == line@,
{
    match h.highlight_line(line, set) {
        Ok(ranges) => Some(ranges.into_iter().map(|(style, text)| (text.to_string(), [style.foreground.r, style.foreground.g, style.foreground.b])).collect()),
        Err(_) => None,
    }
}

/// The spans of one line: the highlighted tokens, or the whole line in the fallback colour
/// when it could not be highlighted.
pub fn line_spans(line: &str, highlighted: Option<Vec<Span>>) -> (r: Vec<Span>)
    ensures
        spans_view(r@) == match highlighted {
            Some(v) => spans_view(v@),
            None => seq![(line@, FALLBACK_RGB@)],
        },
{
    match highlighted {
        Some(v) => v,
        None => {
            let r = vec![(line.to_owned(), FALLBACK_RGB)];
            assert(spans_view(r@) =~= seq![(line@, FALLBACK_RGB@)]);
            r
        },
    }
}

/// The loaded syntaxes and themes, and the name of the theme to use.
pub struct Highlighter {
    syntax_set: SyntaxSet,
    theme_set: ThemeSet,
    theme_name: String,
}

impl Highlighter {
    /// The name of the theme used.
    pub closed spec fn theme(&self) -> Seq<char> {
        self.theme_name@
    }

    /// The syntaxes hold "Plain Text" and the themes hold the theme used, so highlighting
    /// always finds a syntax and a theme.
    pub closed spec fn ready(&self) -> bool {
        &&& syntax_names(self.syntax_set).contains("Plain Text"@)
        &&& theme_keys(self.theme_set).contains(self.theme_name@)
    }

    /// syntect's built-in syntaxes and themes, with the "base16-ocean.dark" theme.
    pub fn new() -> (r: Self)
        ensures
            r.theme() == "base16-ocean.dark"@,
            r.ready(),
    {
        Highlighter {
            syntax_set: default_syntaxes(),
            theme_set: default_themes(),
            theme_name: "base16-ocean.dark".to_owned(),
        }
    }

    /// Highlights Rust code line by line (each line with its line break) into coloured
    /// spans whose texts make up the code; a line that cannot be highlighted is one span in
    /// the fallback colour. The Rust syntax is used, else plain text; the chosen theme, else
    /// the first one. `None` only when the syntaxes have neither Rust nor plain text, or there
    /// is no theme, which cannot happen for a highlighter made by `new`. Empty code gives no
    /// span.
    pub fn highlight_rust(&self, code: &str) -> (r: Option<Vec<Span>>)
        ensures
            self.ready() ==> r is Some,
            r matches Some(v) ==> spans_text(spans_view(v@)) == code@,
            r matches Some(v) ==> (code@.len() == 0 ==> v@.len() == 0),
    {
        let syntax: &SyntaxReference = match syntax_by_extension(&self.syntax_set, "rs") {
            Some(s) => s,
            None => match syntax_by_name(&self.syntax_set, "Plain Text") {
                Some(s) => s,
                None => return None,
            },
        };
        let theme: &Theme = match theme_by_name(&self.theme_set, &self.theme_name) {
            Some(t) => t,
            None => match first_theme(&self.theme_set) {
                Some(t) => t,
                None => return None,
            },
        };
        let mut lines = line_highlighter(syntax, theme);
        let chars = to_chars(code);
        let n: usize = chars.len();
        let mut out: Vec<Span> = Vec::new();
        let mut i: usize = 0;
        assert(chars@.subrange(0, 0) =~= Seq::<char>::empty());
        assert(spans_view(out@) =~= Seq::<(Seq<char>, Seq<u8>)>::empty());
        while i < n
            invariant
                i <= n,
                n == chars@.len(),
                chars@ == code@,
                spans_text(spans_view(out@)) == chars@.subrange(0, i as int),
                i == 0 ==> out@.len() == 0,
            decreases n - i,
        {
            let mut j: usize = i;
            while j < n && chars[j] != '\n'
                invariant
                    i <= j <= n,
                    n == chars@.len(),
                decreases n - j,
            {
                j = j + 1;
            }
            if j < n {
                j = j + 1;
            }
            assert(j > i);
            let line = string_from_chars(&chars, i, j);
            let highlighted = highlight_line(&mut lines, line.as_str(), &self.syntax_set);
            let mut spans = line_spans(line.as_str(), highlighted);
            let ghost before = spans_view(out@);
            let ghost added = spans@;
            out.append(&mut spans);
            proof {
                assert(spans_view(out@) =~= before + spans_view(added));
                assert(spans_text(spans_view(added)) == line@) by {
                    if highlighted is None {
                        reveal_with_fuel(spans_text, 2);
                        assert(seq![(line@, FALLBACK_RGB@)].drop_last() =~= Seq::<(Seq<char>, Seq<u8>)>::empty());
                    }
                }
                lemma_spans_text_concat(before, spans_view(added));
                assert(chars@.subrange(0, i as int) + chars@.subrange(i as int, j as int) =~= chars@.subrange(0, j as int));
            }
            i = j;
        }
        assert(chars@.subrange(0, n as int) =~= chars@);
        Some(out)
    }
}

} // verus!
