//! Highlighting source code with syntect: which syntax a file extension picks,
//! and the coloured pieces of the code.
use vstd::prelude::*;
use vstd::string::StringExecFns;
use crate::text::str_eq;
use syntect::easy::HighlightLines;
use syntect::highlighting::ThemeSet;
use syntect::parsing::SyntaxSet;
use syntect::util::LinesWithEndings;

verus! {

/// A piece of highlighted code: its foreground colour (red, green, blue,
/// alpha) and its text.
pub struct StyledPiece {
    pub foreground: (u8, u8, u8, u8),
    pub text: String,
}

/// The pieces as plain values.
pub open spec fn pieces_view(v: Seq<StyledPiece>) -> Seq<((u8, u8, u8, u8), Seq<char>)> {
    Seq::new(v.len(), |i: int| (v[i].foreground, v[i].text@))
}

/// The name of the syntax that syntect's bundled syntaxes give for a file
/// extension (`SyntaxSet::find_syntax_by_extension`), if any.
pub uninterp spec fn syntax_for_extension(ext: Seq<char>) -> Option<Seq<char>>;

/// Whether syntect's bundled syntaxes hold one of this name
/// (`SyntaxSet::find_syntax_by_name`).
pub uninterp spec fn syntax_exists(name: Seq<char>) -> bool;

/// The pieces in which syntect, with its bundled syntaxes and the
/// `base16-mocha.dark` theme, highlights `code` line by line in the syntax of
/// this name (plain text when none).
pub uninterp spec fn syntect_highlighted(code: Seq<char>, syntax: Option<Seq<char>>) -> Seq<((u8, u8, u8, u8), Seq<char>)>;

/// `SyntaxSet::find_syntax_by_extension` over the bundled syntaxes
/// (`SyntaxSet::load_defaults_newlines`), giving the syntax's name.
#[verifier::external_body]
fn syntax_name_for_extension(ext: &str) -> (r: Option<String>)
    ensures
        match r {
            Some(n) => syntax_for_extension(ext@) == Some(n@),
            None => syntax_for_extension(ext@).is_none(),
        },
{
    let set = SyntaxSet::load_defaults_newlines();
    set.find_syntax_by_extension(ext).map(|s| s.name.clone())
}

/// `SyntaxSet::find_syntax_by_name` over the bundled syntaxes: whether one
/// has this name.
#[verifier::external_body]
fn has_syntax_named(name: &str) -> (b: bool)
    ensures
        b == syntax_exists(name@),
{
    let set = SyntaxSet::load_defaults_newlines();
    set.find_syntax_by_name(name).is_some()
}

/// syntect's `HighlightLines` over the lines (`LinesWithEndings`) of `code`,
/// in the bundled syntax of this name or else plain text, with the bundled
/// `base16-mocha.dark` theme; a line that fails to highlight comes as one
/// piece in the default style. Each piece keeps its foreground colour.
#[verifier::external_body]
fn syntect_pieces(code: &str, syntax: Option<&str>) -> (r: Vec<StyledPiece>)
    ensures
        pieces_view(r@) == syntect_highlighted(code@, match syntax { Some(n) => Some(n@), None => None }),
{
    let set = SyntaxSet::load_defaults_newlines();
    let found = syntax.and_then(|n| set.find_syntax_by_name(n)).unwrap_or_else(|| set.find_syntax_plain_text());
    let themes = ThemeSet::load_defaults();
    let mut h = HighlightLines::new(found, &themes.themes["base16-mocha.dark"]);
    LinesWithEndings::from(code)
        .flat_map(|l| h.highlight_line(l, &set).unwrap_or_else(|_| vec![(Default::default(), l)]))
        .map(|(s, t)| StyledPiece { foreground: (s.foreground.r, s.foreground.g, s.foreground.b, s.foreground.a), text: t.to_string() })
        .collect()
}

/// The first of `names` that is a bundled syntax, if any.
pub open spec fn first_named(names: Seq<Seq<char>>) -> Option<Seq<char>>
    decreases names.len(),
{
    if names.len() == 0 {
        None
    } else if syntax_exists(names[0]) {
        Some(names[0])
    } else {
        first_named(names.drop_first())
    }
}

/// The syntax found for `ext`, else the first of `names` that exists.
pub open spec fn extension_or_names(ext: Seq<char>, names: Seq<Seq<char>>) -> Option<Seq<char>> {
    match syntax_for_extension(ext) {
        Some(n) => Some(n),
        None => first_named(names),
    }
}

/// The syntax a file extension is highlighted in (none: plain text). The
/// web and systems languages fall back on names when the extension is not
/// known: `js`/`jsx` on JavaScript (Babel), then JavaScript; `ts` on
/// TypeScript; `tsx` on TSX, TypeScript, then JavaScript (Babel); `rs` on
/// Rust; `py` on Python; `html` on HTML; `css` on CSS.
pub open spec fn syntax_choice(ext: Seq<char>) -> Option<Seq<char>> {
    if ext == "js"@ || ext == "jsx"@ {
        extension_or_names("js"@, seq!["JavaScript (Babel)"@, "JavaScript"@])
    } else if ext == "ts"@ {
        extension_or_names("ts"@, seq!["TypeScript"@])
    } else if ext == "tsx"@ {
        extension_or_names("tsx"@, seq!["TSX"@, "TypeScript"@, "JavaScript (Babel)"@])
    } else if ext == "rs"@ {
        extension_or_names("rs"@, seq!["Rust"@])
    } else if ext == "py"@ {
        extension_or_names("py"@, seq!["Python"@])
    } else if ext == "html"@ {
        extension_or_names("html"@, seq!["HTML"@])
    } else if ext == "css"@ {
        extension_or_names("css"@, seq!["CSS"@])
    } else {
        syntax_for_extension(ext)
    }
}

fn pick(ext: &str, names: &Vec<&str>) -> (r: Option<String>)
    ensures
        match r {
            Some(n) => extension_or_names(ext@, names@.map_values(|s: &str| s@)) == Some(n@),
            None => extension_or_names(ext@, names@.map_values(|s: &str| s@)).is_none(),
        },
{
    if let Some(n) = syntax_name_for_extension(ext) {
        return Some(n);
    }
    let ghost all = names@.map_values(|s: &str| s@);
    assert(all.subrange(0, all.len() as int) =~= all);
    let mut i: usize = 0;
    while i < names.len()
        invariant
            i <= names@.len(),
            all == names@.map_values(|s: &str| s@),
            first_named(all) == first_named(all.subrange(i as int, all.len() as int)),
            syntax_for_extension(ext@).is_none(),
        decreases names@.len() - i,
    {
        let ghost rest = all.subrange(i as int, all.len() as int);
        assert(rest[0] == names@[i as int]@);
        assert(rest.drop_first() =~= all.subrange(i + 1, all.len() as int));
        if has_syntax_named(names[i]) {
            return Some(String::from_str(names[i]));
        }
        i = i + 1;
    }
    assert(all.subrange(i as int, all.len() as int) =~= Seq::<Seq<char>>::empty());
    None
}

/// The syntax a file extension is highlighted in (see `syntax_choice`).
pub fn choose_syntax(ext: &str) -> (r: Option<String>)
    ensures
        match r {
            Some(n) => syntax_choice(ext@) == Some(n@),
            None => syntax_choice(ext@).is_none(),
        },
{
    proof {
        reveal_strlit("js");
        reveal_strlit("jsx");
        reveal_strlit("ts");
        reveal_strlit("tsx");
        reveal_strlit("rs");
        reveal_strlit("py");
        reveal_strlit("html");
        reveal_strlit("css");
    }
    if str_eq(ext, "js") || str_eq(ext, "jsx") {
        let names = vec!["JavaScript (Babel)", "JavaScript"];
        assert(names@.map_values(|s: &str| s@) =~= seq!["JavaScript (Babel)"@, "JavaScript"@]);
        pick("js", &names)
    } else if str_eq(ext, "ts") {
        let names = vec!["TypeScript"];
        assert(names@.map_values(|s: &str| s@) =~= seq!["TypeScript"@]);
        pick("ts", &names)
    } else if str_eq(ext, "tsx") {
        let names = vec!["TSX", "TypeScript", "JavaScript (Babel)"];
        assert(names@.map_values(|s: &str| s@) =~= seq!["TSX"@, "TypeScript"@, "JavaScript (Babel)"@]);
        pick("tsx", &names)
    } else if str_eq(ext, "rs") {
        let names = vec!["Rust"];
        assert(names@.map_values(|s: &str| s@) =~= seq!["Rust"@]);
        pick("rs", &names)
    } else if str_eq(ext, "py") {
        let names = vec!["Python"];
        assert(names@.map_values(|s: &str| s@) =~= seq!["Python"@]);
        pick("py", &names)
    } else if str_eq(ext, "html") {
        let names = vec!["HTML"];
        assert(names@.map_values(|s: &str| s@) =~= seq!["HTML"@]);
        pick("html", &names)
    } else if str_eq(ext, "css") {
        let names = vec!["CSS"];
        assert(names@.map_values(|s: &str| s@) =~= seq!["CSS"@]);
        pick("css", &names)
    } else {
        syntax_name_for_extension(ext)
    }
}

/// A highlighter of source code.
pub struct SyntaxHighlighter {}

impl SyntaxHighlighter {
    /// A highlighter over syntect's bundled syntaxes and themes.
    pub fn new() -> (h: Self) {
        SyntaxHighlighter {}
    }

    /// The highlighted pieces of `code`, in the syntax its file extension
    /// picks (see `syntax_choice`).
    pub fn highlight(&self, code: &str, file_extension: &str) -> (r: Vec<StyledPiece>)
        ensures
            pieces_view(r@) == syntect_highlighted(code@, syntax_choice(file_extension@)),
    {
        let choice = choose_syntax(file_extension);
        match choice {
            Some(n) => syntect_pieces(code, Some(n.as_str())),
            None => syntect_pieces(code, None),
        }
    }
}

} // verus!
