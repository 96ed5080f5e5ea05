use hyde::latex::{scan_math, LatexDelim, MathNode};

fn text(node: &MathNode) -> &str {
    match node {
        MathNode::Text { raw } => raw,
        MathNode::Math { .. } => panic!("expected a text node"),
    }
}

fn math(node: &MathNode) -> (&str, &str, bool) {
    match node {
        MathNode::Math { content, raw, display } => (content, raw, *display),
        MathNode::Text { .. } => panic!("expected a math node"),
    }
}

#[test]
fn display_dollars() {
    let nodes = scan_math("$$x=1$$ done");
    assert_eq!(nodes.len(), 2);
    assert_eq!(math(&nodes[0]), ("x=1", "$$x=1$$", true));
    assert_eq!(text(&nodes[1]), " done");
}

#[test]
fn alternating_nodes() {
    let nodes = scan_math("a $$x$$ b \\(y\\) c");
    assert_eq!(nodes.len(), 5);
    assert_eq!(text(&nodes[0]), "a ");
    assert_eq!(math(&nodes[1]), ("x", "$$x$$", true));
    assert_eq!(text(&nodes[2]), " b ");
    assert_eq!(math(&nodes[3]), ("y", "\\(y\\)", false));
    assert_eq!(text(&nodes[4]), " c");
}

#[test]
fn ams_environment_keeps_wrapper() {
    let nodes = scan_math("see \\begin{align}x &= 1\\end{align} here");
    assert_eq!(nodes.len(), 3);
    assert_eq!(text(&nodes[0]), "see ");
    let (content, raw, display) = math(&nodes[1]);
    assert_eq!(content, "\\begin{align}x &= 1\\end{align}");
    assert_eq!(raw, "\\begin{align}x &= 1\\end{align}");
    assert!(display);
    assert_eq!(text(&nodes[2]), " here");
}

#[test]
fn bracket_display() {
    let nodes = scan_math("\\[x\\]");
    assert_eq!(nodes.len(), 1);
    assert_eq!(math(&nodes[0]), ("x", "\\[x\\]", true));
}

#[test]
fn unterminated_math_is_literal() {
    let nodes = scan_math("before $$x = 1 and on");
    assert_eq!(nodes.len(), 2);
    assert_eq!(text(&nodes[0]), "before ");
    assert_eq!(text(&nodes[1]), "$$x = 1 and on");
}

#[test]
fn braces_hide_the_closer() {
    // The closing delimiter counts only at brace depth zero.
    let nodes = scan_math("\\(f{a \\( b} g\\) t");
    assert_eq!(nodes.len(), 2);
    assert_eq!(math(&nodes[0]), ("f{a \\( b} g", "\\(f{a \\( b} g\\)", false));
    assert_eq!(text(&nodes[1]), " t");
}

#[test]
fn escaped_brace_does_not_change_depth() {
    let nodes = scan_math("$$a \\{ b$$ x");
    assert_eq!(nodes.len(), 2);
    assert_eq!(math(&nodes[0]), ("a \\{ b", "$$a \\{ b$$", true));
    assert_eq!(text(&nodes[1]), " x");
}

#[test]
fn no_math_is_one_text_node() {
    let nodes = scan_math("plain text only");
    assert_eq!(nodes.len(), 1);
    assert_eq!(text(&nodes[0]), "plain text only");
}

#[test]
fn empty_input_has_no_nodes() {
    let nodes = scan_math("");
    assert_eq!(nodes.len(), 0);
}

#[test]
fn delim_new_keeps_fields() {
    let d = LatexDelim::new("$$", "$$", true);
    assert_eq!(d.left, "$$");
    assert_eq!(d.right, "$$");
    assert!(d.display);
}
