//! Syntax highlighting of fenced code blocks, through tree-sitter.
//!
//! A fenced block's language tag is normalised to one of the recognised
//! grammars; the code is then rendered as HTML with semantic class
//! annotations by the tree-sitter highlighter.  An unrecognised tag is a
//! no-op: the code passes through unchanged.  The highlighter itself is an
//! opaque capability: what the library guarantees is the normalisation and
//! the passthrough rule.

use tree_sitter_highlight::Highlight;
use tree_sitter_highlight::HighlightConfiguration;
use tree_sitter_highlight::Highlighter;
use tree_sitter_highlight::HtmlRenderer;
use vstd::prelude::*;

use crate::text::escaped;
use crate::text::push_escaped;
use crate::text::str_eq;
use crate::text::string_from_chars;

verus! {

/// Any language that Hyde recognises inside a fenced code block.
#[derive(Clone, Copy, PartialEq, Eq, Structural, Debug)]
pub enum Language {
    C,
    Cpp,
    Haskell,
    OCaml,
    Python,
    Rust,
}

/// The grammar a fenced block's language tag names, if any: each grammar
/// answers to its full name and its usual short alias.
pub open spec fn lang_of(s: Seq<char>) -> Option<Language> {
    if s == "c"@ {
        Some(Language::C)
    } else if s == "cpp"@ || s == "c++"@ {
        Some(Language::Cpp)
    } else if s == "haskell"@ || s == "hs"@ {
        Some(Language::Haskell)
    } else if s == "ocaml"@ || s == "ml"@ {
        Some(Language::OCaml)
    } else if s == "python"@ || s == "py"@ {
        Some(Language::Python)
    } else if s == "rs"@ || s == "rust"@ {
        Some(Language::Rust)
    } else {
        None
    }
}

impl Language {
    /// Normalises a fenced block's language tag to its grammar.
    pub fn from_str(s: &str) -> (r: Option<Language>)
        ensures
            r == lang_of(s@),
    {
        if str_eq(s, "c") {
            Some(Language::C)
        } else if str_eq(s, "cpp") || str_eq(s, "c++") {
            Some(Language::Cpp)
        } else if str_eq(s, "haskell") || str_eq(s, "hs") {
            Some(Language::Haskell)
        } else if str_eq(s, "ocaml") || str_eq(s, "ml") {
            Some(Language::OCaml)
        } else if str_eq(s, "python") || str_eq(s, "py") {
            Some(Language::Python)
        } else if str_eq(s, "rs") || str_eq(s, "rust") {
            Some(Language::Rust)
        } else {
            None
        }
    }
}

/// Declares tree-sitter's highlighter configuration as an opaque type.
#[verifier::external_type_specification]
#[verifier::external_body]
pub struct ExHighlightConfiguration(HighlightConfiguration);

/// The tree-sitter highlight capture names the renderer recognises; the
/// class attributes of `attrs_table` line up with them index by index.
pub open spec fn names_table() -> Seq<Seq<char>> {
    seq![
        "error"@,
        "punctuation.bracket"@,
        "punctuation.special"@,
        "comment"@,
        "constant"@,
        "constant.builtin"@,
        "constant.macro"@,
        "string.regex"@,
        "string"@,
        "character"@,
        "number"@,
        "boolean"@,
        "float"@,
        "annotation"@,
        "attribute"@,
        "attribute.builtin"@,
        "namespace"@,
        "function.builtin"@,
        "function"@,
        "function.macro"@,
        "parameter"@,
        "parameter.reference"@,
        "method"@,
        "field"@,
        "property"@,
        "constructor"@,
        "conditional"@,
        "repeat"@,
        "label"@,
        "keyword"@,
        "keyword.function"@,
        "keyword.operator"@,
        "operator"@,
        "exception"@,
        "type"@,
        "type.builtin"@,
        "type.qualifier"@,
        "storageClass"@,
        "structure"@,
        "include"@,
        "variable"@,
        "variable.builtin"@,
        "text"@,
        "text.underline"@,
        "tag"@,
        "tag.delimiter"@,
        "tag.attribute"@,
        "text.title"@,
        "text.literal"@,
        "text.literal.markdown"@,
        "text.literal.markdown_inline"@,
        "text.emphasis"@,
        "text.strike"@,
        "text.strong"@,
        "text.uri"@,
        "textReference"@,
        "punctuation.delimiter"@,
        "stringEscape"@,
        "text.note"@,
        "text.warning"@,
        "text.danger"@,
        "text.diff.add"@,
        "text.diff.delete"@,
    ]
}

/// The capture names turned into HTML class attributes.
pub open spec fn attrs_table() -> Seq<Seq<char>> {
    seq![
        r#"class="error""#@,
        r#"class="punctuation-bracket""#@,
        r#"class="punctuation-special""#@,
        r#"class="comment""#@,
        r#"class="constant""#@,
        r#"class="constant-builtin""#@,
        r#"class="constant-macro""#@,
        r#"class="string-regex""#@,
        r#"class="string""#@,
        r#"class="character""#@,
        r#"class="number""#@,
        r#"class="boolean""#@,
        r#"class="float""#@,
        r#"class="annotation""#@,
        r#"class="attribute""#@,
        r#"class="attribute-builtin""#@,
        r#"class="namespace""#@,
        r#"class="function-builtin""#@,
        r#"class="function""#@,
        r#"class="function-macro""#@,
        r#"class="parameter""#@,
        r#"class="parameter-reference""#@,
        r#"class="method""#@,
        r#"class="field""#@,
        r#"class="property""#@,
        r#"class="constructor""#@,
        r#"class="conditional""#@,
        r#"class="repeat""#@,
        r#"class="label""#@,
        r#"class="keyword""#@,
        r#"class="keyword-function""#@,
        r#"class="keyword-operator""#@,
        r#"class="operator""#@,
        r#"class="exception""#@,
        r#"class="type""#@,
        r#"class="type-builtin""#@,
        r#"class="type-qualifier""#@,
        r#"class="storageClass""#@,
        r#"class="structure""#@,
        r#"class="include""#@,
        r#"class="variable""#@,
        r#"class="variable-builtin""#@,
        r#"class="text""#@,
        r#"class="text-underline""#@,
        r#"class="tag""#@,
        r#"class="tag-delimiter""#@,
        r#"class="tag-attribute""#@,
        r#"class="text-title""#@,
        r#"class="text-literal""#@,
        r#"class="text-literal-markdown""#@,
        r#"class="text-literal-markdown_inline""#@,
        r#"class="text-emphasis""#@,
        r#"class="text-strike""#@,
        r#"class="text-strong""#@,
        r#"class="text-uri""#@,
        r#"class="textReference""#@,
        r#"class="punctuation-delimiter""#@,
        r#"class="stringEscape""#@,
        r#"class="text-note""#@,
        r#"class="text-warning""#@,
        r#"class="text-danger""#@,
        r#"class="text-diff-add""#@,
        r#"class="text-diff-delete""#@,
    ]
}

fn highlight_names() -> (r: Vec<&'static str>)
    ensures
        r.deep_view() == names_table(),
{
    let r: Vec<&'static str> = vec![
        "error",
        "punctuation.bracket",
        "punctuation.special",
        "comment",
        "constant",
        "constant.builtin",
        "constant.macro",
        "string.regex",
        "string",
        "character",
        "number",
        "boolean",
        "float",
        "annotation",
        "attribute",
        "attribute.builtin",
        "namespace",
        "function.builtin",
        "function",
        "function.macro",
        "parameter",
        "parameter.reference",
        "method",
        "field",
        "property",
        "constructor",
        "conditional",
        "repeat",
        "label",
        "keyword",
        "keyword.function",
        "keyword.operator",
        "operator",
        "exception",
        "type",
        "type.builtin",
        "type.qualifier",
        "storageClass",
        "structure",
        "include",
        "variable",
        "variable.builtin",
        "text",
        "text.underline",
        "tag",
        "tag.delimiter",
        "tag.attribute",
        "text.title",
        "text.literal",
        "text.literal.markdown",
        "text.literal.markdown_inline",
        "text.emphasis",
        "text.strike",
        "text.strong",
        "text.uri",
        "textReference",
        "punctuation.delimiter",
        "stringEscape",
        "text.note",
        "text.warning",
        "text.danger",
        "text.diff.add",
        "text.diff.delete",
    ];
    proof {
        assert(r.deep_view() =~= names_table());
    }
    r
}

fn html_attrs() -> (r: Vec<&'static str>)
    ensures
        r.deep_view() == attrs_table(),
{
    let r: Vec<&'static str> = vec![
        r#"class="error""#,
        r#"class="punctuation-bracket""#,
        r#"class="punctuation-special""#,
        r#"class="comment""#,
        r#"class="constant""#,
        r#"class="constant-builtin""#,
        r#"class="constant-macro""#,
        r#"class="string-regex""#,
        r#"class="string""#,
        r#"class="character""#,
        r#"class="number""#,
        r#"class="boolean""#,
        r#"class="float""#,
        r#"class="annotation""#,
        r#"class="attribute""#,
        r#"class="attribute-builtin""#,
        r#"class="namespace""#,
        r#"class="function-builtin""#,
        r#"class="function""#,
        r#"class="function-macro""#,
        r#"class="parameter""#,
        r#"class="parameter-reference""#,
        r#"class="method""#,
        r#"class="field""#,
        r#"class="property""#,
        r#"class="constructor""#,
        r#"class="conditional""#,
        r#"class="repeat""#,
        r#"class="label""#,
        r#"class="keyword""#,
        r#"class="keyword-function""#,
        r#"class="keyword-operator""#,
        r#"class="operator""#,
        r#"class="exception""#,
        r#"class="type""#,
        r#"class="type-builtin""#,
        r#"class="type-qualifier""#,
        r#"class="storageClass""#,
        r#"class="structure""#,
        r#"class="include""#,
        r#"class="variable""#,
        r#"class="variable-builtin""#,
        r#"class="text""#,
        r#"class="text-underline""#,
        r#"class="tag""#,
        r#"class="tag-delimiter""#,
        r#"class="tag-attribute""#,
        r#"class="text-title""#,
        r#"class="text-literal""#,
        r#"class="text-literal-markdown""#,
        r#"class="text-literal-markdown_inline""#,
        r#"class="text-emphasis""#,
        r#"class="text-strike""#,
        r#"class="text-strong""#,
        r#"class="text-uri""#,
        r#"class="textReference""#,
        r#"class="punctuation-delimiter""#,
        r#"class="stringEscape""#,
        r#"class="text-note""#,
        r#"class="text-warning""#,
        r#"class="text-danger""#,
        r#"class="text-diff-add""#,
        r#"class="text-diff-delete""#,
    ];
    proof {
        assert(r.deep_view() =~= attrs_table());
    }
    r
}

/// The HTML the tree-sitter highlighter renders for one recognised
/// language's code, under the given capture names and class attributes, or
/// `None` where the highlighter reports an error.  A function of its
/// arguments alone: the grammar and query are fixed by the language, and
/// parsing and rendering are deterministic.
pub uninterp spec fn hl_html_of(
    lang: Language,
    code: Seq<char>,
    names: Seq<Seq<char>>,
    attrs: Seq<Seq<char>>,
) -> Option<Seq<char>>;

/// Relies on `HighlightConfiguration::new` and the grammar crates'
/// language constants and highlight queries: builds the highlighter
/// configuration for one recognised language, configured with the given
/// capture names, or `None` where the grammar's query is rejected.
#[verifier::external_body]
fn grammar_config(lang: &Language, names: &Vec<&'static str>) -> Option<HighlightConfiguration> {
    let (l, q): (tree_sitter::Language, &str) = match lang {
        Language::C => (tree_sitter_c::LANGUAGE.into(), tree_sitter_c::HIGHLIGHT_QUERY),
        Language::Cpp => (tree_sitter_cpp::LANGUAGE.into(), tree_sitter_cpp::HIGHLIGHT_QUERY),
        Language::Haskell => (npezza93_tree_sitter_haskell::language(), npezza93_tree_sitter_haskell::HIGHLIGHTS_QUERY),
        Language::OCaml => (tree_sitter_ocaml::LANGUAGE_OCAML.into(), tree_sitter_ocaml::HIGHLIGHTS_QUERY),
        Language::Python => (tree_sitter_python::LANGUAGE.into(), tree_sitter_python::HIGHLIGHTS_QUERY),
        Language::Rust => (tree_sitter_rust::LANGUAGE.into(), tree_sitter_rust::HIGHLIGHTS_QUERY),
    };
    let mut config = HighlightConfiguration::new(l, "", q, "", "").ok()?;
    config.configure(names.as_slice());
    Some(config)
}

/// Relies on `tree_sitter_highlight`'s `Highlighter::highlight` and
/// `HtmlRenderer::render`, over the configuration of `grammar_config`:
/// renders one recognised language's code as HTML spans, wrapping each
/// highlighted region in the class attribute that lines up with its
/// capture; `None` where the highlighter reports an error.
#[verifier::external_body]
fn render_highlights(lang: &Language, code: &str, names: &Vec<&'static str>, attrs: &Vec<&'static str>) -> (r: Option<String>)
    ensures
        r.deep_view() == hl_html_of(*lang, code@, names.deep_view(), attrs.deep_view()),
{
    let config = grammar_config(lang, names)?;
    let mut hl = Highlighter::new();
    let events = hl.highlight(&config, code.as_bytes(), None, None, |_| None).ok()?;
    let mut renderer = HtmlRenderer::new();
    let cb = |h: Highlight, out: &mut Vec<u8>| if let Some(a) = attrs.get(h.0) { out.extend_from_slice(a.as_bytes()) };
    renderer.render(events, code.as_bytes(), &cb).ok()?;
    String::from_utf8(renderer.html).ok()
}

/// What highlighting a recognised language's code returns: the
/// highlighter's HTML under the fixed capture and attribute tables, or —
/// where the highlighter fails — the code escaped for an HTML text node.
pub open spec fn highlighted(l: Language, code: Seq<char>) -> Seq<char> {
    match hl_html_of(l, code, names_table(), attrs_table()) {
        Option::Some(h) => h,
        Option::None => escaped(code),
    }
}

/// Highlights the contents of a fenced code block of a given source
/// language as HTML.  An unrecognised language tag passes the code through
/// unchanged; a recognised one yields the highlighter's HTML, or the
/// escaped code where the highlighter fails.
pub fn highlight(lang: &str, code: &str) -> (r: String)
    ensures
        lang_of(lang@) is None ==> r@ == code@,
        lang_of(lang@) matches Some(l) ==> r@ == highlighted(l, code@),
{
    let l = match Language::from_str(lang) {
        Option::Some(l) => l,
        Option::None => {
            return code.to_owned();
        },
    };
    let names = highlight_names();
    let attrs = html_attrs();
    match render_highlights(&l, code, &names, &attrs) {
        Option::Some(html) => html,
        Option::None => escape_code(code),
    }
}

/// The code escaped for an HTML text node.
fn escape_code(code: &str) -> (r: String)
    ensures
        r@ == escaped(code@),
{
    let mut out: Vec<char> = Vec::new();
    let owned = code.to_owned();
    push_escaped(&mut out, &owned);
    string_from_chars(&out)
}

} // verus!
