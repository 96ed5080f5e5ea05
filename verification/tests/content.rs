use hyde::content::{compile_content, math_span_html};
use hyde::highlight::highlight;

#[test]
fn recognised_code_is_highlighted() {
    let html = compile_content("```python\ndef f():\n    return 1\n```\n");
    assert!(html.contains("<pre><code class=\"language-python\">"));
    // Recognised tokens come back wrapped in class-annotated spans.
    assert!(html.contains("<span class="));
    assert!(html.contains("keyword") || html.contains("function"));
}

#[test]
fn unrecognised_code_passes_through() {
    let html = compile_content("```brainfuck\n+[-->-[>>+>-----<<]<--<---]\n```\n");
    assert!(html.contains("+[--&gt;-[&gt;&gt;+&gt;-----&lt;&lt;]&lt;--&lt;---]"));
    assert!(!html.contains("<span class="));
}

#[test]
fn highlight_returns_unknown_code_unchanged() {
    assert_eq!(highlight("brainfuck", "+++"), "+++");
    assert_eq!(highlight("", "x"), "x");
}

#[test]
fn highlight_normalises_aliases() {
    let long = highlight("rust", "fn main() {}");
    let short = highlight("rs", "fn main() {}");
    assert_eq!(long, short);
    assert!(long.contains("<span class="));
}

#[test]
fn heading_with_fragment_gets_an_anchor() {
    let html = compile_content("# My heading {#custom-id}\n");
    assert!(html.contains("<a href=\"#custom-id\">My heading</a>"));
}

#[test]
fn heading_without_fragment_stays_plain() {
    let html = compile_content("# My heading\n");
    assert!(html.contains("My heading"));
    assert!(!html.contains("<a href="));
}

#[test]
fn mod_test() {
    println!(
        "{}",
        compile_content(
            r#"# This is a H1 {#this-is-an-id1}
## This is a H2 {#this-is-an-id2}
### This is a H3 {#this-is-an-id3}
#### This is a H4 {#this-is-an-id4}
##### This is a H5 {#this-is-an-id5}
"#,
        )
    );
}

#[test]
fn maths_becomes_a_tagged_span() {
    let html = compile_content("The rule $$x=1$$ holds.\n");
    assert!(html.contains("<span class=\"math math-display\">$$x=1$$</span>"));
    assert!(html.contains("The rule "));
    assert!(html.contains(" holds."));
}

#[test]
fn two_maths_in_one_run_both_get_spans() {
    let html = compile_content("first $$x$$ then $$y$$ done\n");
    assert!(html.contains("<span class=\"math math-display\">$$x$$</span>"));
    assert!(html.contains("<span class=\"math math-display\">$$y$$</span>"));
    assert!(html.contains("first "));
    assert!(html.contains(" then "));
    assert!(html.contains(" done"));
}

#[test]
fn maths_markup_is_escaped() {
    assert_eq!(
        math_span_html(&"$$a < \"b\" & c$$".to_string(), true),
        "<span class=\"math math-display\">$$a &lt; &quot;b&quot; &amp; c$$</span>"
    );
    assert_eq!(
        math_span_html(&"\\(y\\)".to_string(), false),
        "<span class=\"math math-inline\">\\(y\\)</span>"
    );
}

#[test]
fn text_without_maths_is_untouched() {
    let html = compile_content("just a paragraph\n");
    assert_eq!(html, "<p>just a paragraph</p>\n");
}
