//! Splitting a raw text run into literal-text and mathematics segments.
//!
//! Eight delimiter pairs are recognised: `$$…$$` (display), `\(…\)` (inline),
//! the AMS block environments `equation`, `align`, `alignat`, `gather` and
//! `CD`, and `\[…\]` (all display).  The scanner repeatedly finds the
//! leftmost opening delimiter, emits the text before it, and then looks for
//! the matching closing delimiter while tracking brace nesting — a closing
//! delimiter counts only at brace depth at most zero, and a
//! backslash-escaped character is skipped without affecting the depth.
//! Unterminated mathematics is not an error: the rest of the text is kept as
//! literal text.

use vstd::prelude::*;

use crate::text::chars_vec;
use crate::text::matches_at;
use crate::text::starts_with_at;
use crate::text::sub_string;

verus! {

/// One delimiter pair, and whether mathematics between the pair is set in
/// display style.
pub struct LatexDelim {
    pub left: &'static str,
    pub right: &'static str,
    pub display: bool,
}

impl LatexDelim {
    pub fn new(left: &'static str, right: &'static str, display: bool) -> (r: Self)
        ensures
            r.left@ == left@,
            r.right@ == right@,
            r.display == display,
    {
        Self { left, right, display }
    }
}

/// The number of recognised delimiter pairs.
pub open spec fn delim_count() -> int {
    8
}

/// The opening delimiter of pair `d`.
pub open spec fn delim_open(d: int) -> Seq<char> {
    if d == 0 {
        "$$"@
    } else if d == 1 {
        "\\("@
    } else if d == 2 {
        "\\begin{equation}"@
    } else if d == 3 {
        "\\begin{align}"@
    } else if d == 4 {
        "\\begin{alignat}"@
    } else if d == 5 {
        "\\begin{gather}"@
    } else if d == 6 {
        "\\begin{CD}"@
    } else {
        "\\["@
    }
}

/// The closing delimiter of pair `d`.
pub open spec fn delim_close(d: int) -> Seq<char> {
    if d == 0 {
        "$$"@
    } else if d == 1 {
        "\\)"@
    } else if d == 2 {
        "\\end{equation}"@
    } else if d == 3 {
        "\\end{align}"@
    } else if d == 4 {
        "\\end{alignat}"@
    } else if d == 5 {
        "\\end{gather}"@
    } else if d == 6 {
        "\\end{CD}"@
    } else {
        "\\]"@
    }
}

/// Whether mathematics in pair `d` is set in display style; only `\(…\)` is
/// inline.
pub open spec fn delim_display(d: int) -> bool {
    d != 1
}

/// The AMS environments keep their `\begin{…}`/`\end{…}` wrapper as part of
/// the mathematics itself.
pub open spec fn delim_ams(d: int) -> bool {
    2 <= d <= 6
}

/// The delimiter pair `d` of the recognised table.
pub fn delim_at(d: usize) -> (r: LatexDelim)
    requires
        d < delim_count(),
    ensures
        r.left@ == delim_open(d as int),
        r.right@ == delim_close(d as int),
        r.display == delim_display(d as int),
{
    if d == 0 {
        LatexDelim::new("$$", "$$", true)
    } else if d == 1 {
        LatexDelim::new("\\(", "\\)", false)
    } else if d == 2 {
        LatexDelim::new("\\begin{equation}", "\\end{equation}", true)
    } else if d == 3 {
        LatexDelim::new("\\begin{align}", "\\end{align}", true)
    } else if d == 4 {
        LatexDelim::new("\\begin{alignat}", "\\end{alignat}", true)
    } else if d == 5 {
        LatexDelim::new("\\begin{gather}", "\\end{gather}", true)
    } else if d == 6 {
        LatexDelim::new("\\begin{CD}", "\\end{CD}", true)
    } else {
        LatexDelim::new("\\[", "\\]", true)
    }
}

/// Every delimiter of the table is at least two characters long.
pub proof fn lemma_delim_lens()
    ensures
        forall|d: int|
            0 <= d < delim_count() ==> (#[trigger] delim_open(d)).len() >= 2 && delim_close(
                d,
            ).len() >= 2,
{
    reveal_strlit("$$");
    reveal_strlit("\\(");
    reveal_strlit("\\)");
    reveal_strlit("\\begin{equation}");
    reveal_strlit("\\end{equation}");
    reveal_strlit("\\begin{align}");
    reveal_strlit("\\end{align}");
    reveal_strlit("\\begin{alignat}");
    reveal_strlit("\\end{alignat}");
    reveal_strlit("\\begin{gather}");
    reveal_strlit("\\end{gather}");
    reveal_strlit("\\begin{CD}");
    reveal_strlit("\\end{CD}");
    reveal_strlit("\\[");
    reveal_strlit("\\]");
    assert forall|d: int| 0 <= d < delim_count() implies (#[trigger] delim_open(d)).len() >= 2
        && delim_close(d).len() >= 2 by {
        if d == 0 {
        } else if d == 1 {
        } else if d == 2 {
        } else if d == 3 {
        } else if d == 4 {
        } else if d == 5 {
        } else if d == 6 {
        } else {
        }
    }
}

/// The first delimiter pair of the table whose opening delimiter occurs at
/// position `i`, if any.
pub open spec fn open_at(s: Seq<char>, i: int) -> Option<int> {
    if matches_at(s, delim_open(0), i) {
        Some(0int)
    } else if matches_at(s, delim_open(1), i) {
        Some(1int)
    } else if matches_at(s, delim_open(2), i) {
        Some(2int)
    } else if matches_at(s, delim_open(3), i) {
        Some(3int)
    } else if matches_at(s, delim_open(4), i) {
        Some(4int)
    } else if matches_at(s, delim_open(5), i) {
        Some(5int)
    } else if matches_at(s, delim_open(6), i) {
        Some(6int)
    } else if matches_at(s, delim_open(7), i) {
        Some(7int)
    } else {
        None
    }
}

/// The leftmost opening delimiter at or after `from`: its position and its
/// pair.
pub open spec fn first_open(s: Seq<char>, from: int) -> Option<(int, int)>
    decreases s.len() - from,
{
    if from < 0 || from >= s.len() {
        None
    } else {
        match open_at(s, from) {
            Option::Some(d) => Some((from, d)),
            Option::None => first_open(s, from + 1),
        }
    }
}

/// The position at which `close` closes the mathematics that begins before
/// `i`, scanning forward from `i` at brace depth `depth`: the first
/// occurrence of `close` at depth at most zero, where `{` and `}` raise and
/// lower the depth and a backslash-escaped character is skipped.
pub open spec fn close_from(s: Seq<char>, close: Seq<char>, i: int, depth: int) -> Option<int>
    decreases s.len() + 1 - i,
{
    if i < 0 || i >= s.len() {
        None
    } else if depth <= 0 && matches_at(s, close, i) {
        Some(i)
    } else if s[i] == '\\' {
        close_from(s, close, i + 2, depth)
    } else if s[i] == '{' {
        close_from(s, close, i + 1, depth + 1)
    } else if s[i] == '}' {
        close_from(s, close, i + 1, depth - 1)
    } else {
        close_from(s, close, i + 1, depth)
    }
}

/// A found opening delimiter lies at or after the search start, names a pair
/// of the table, and indeed occurs where reported.
pub proof fn lemma_first_open_props(s: Seq<char>, from: int)
    requires
        first_open(s, from) is Some,
    ensures
        ({
            let (p, d) = first_open(s, from)->Some_0;
            &&& from <= p < s.len()
            &&& 0 <= d < delim_count()
            &&& matches_at(s, delim_open(d), p)
        }),
    decreases s.len() - from,
{
    if !(from < 0 || from >= s.len()) && open_at(s, from) is None {
        lemma_first_open_props(s, from + 1);
    }
}

/// A found closing delimiter lies at or after the search start and indeed
/// occurs where reported.
pub proof fn lemma_close_props(s: Seq<char>, close: Seq<char>, i: int, depth: int)
    requires
        close_from(s, close, i, depth) is Some,
    ensures
        ({
            let q = close_from(s, close, i, depth)->Some_0;
            &&& i <= q
            &&& matches_at(s, close, q)
        }),
    decreases s.len() + 1 - i,
{
    if !(i < 0 || i >= s.len()) {
        if depth <= 0 && matches_at(s, close, i) {
        } else if s[i] == '\\' {
            lemma_close_props(s, close, i + 2, depth);
        } else if s[i] == '{' {
            lemma_close_props(s, close, i + 1, depth + 1);
        } else if s[i] == '}' {
            lemma_close_props(s, close, i + 1, depth - 1);
        } else {
            lemma_close_props(s, close, i + 1, depth);
        }
    }
}

/// A segment of a text run: either literal text, or one piece of
/// mathematics with its delimiters and display classification.
pub enum MathNodeView {
    Text { raw: Seq<char> },
    Math { content: Seq<char>, raw: Seq<char>, display: bool },
}

/// A segment of a text run: either literal text, or one piece of
/// mathematics.  For the AMS environments `content` includes the
/// `\begin{…}`/`\end{…}` wrapper itself; for the other pairs `content`
/// excludes the delimiters.  `raw` always includes them.
pub enum MathNode {
    Text { raw: String },
    Math { content: String, raw: String, display: bool },
}

impl View for MathNode {
    type V = MathNodeView;

    open spec fn view(&self) -> MathNodeView {
        match self {
            MathNode::Text { raw } => MathNodeView::Text { raw: raw@ },
            MathNode::Math { content, raw, display } => MathNodeView::Math {
                content: content@,
                raw: raw@,
                display: *display,
            },
        }
    }
}

impl DeepView for MathNode {
    type V = MathNodeView;

    open spec fn deep_view(&self) -> MathNodeView {
        self.view()
    }
}

/// The segments of `s` from position `i` on: the text before the leftmost
/// opening delimiter, then the mathematics up to its matching closing
/// delimiter, then the segments of the rest.  Where no opening delimiter
/// follows, or none is properly closed, the remaining text is literal.
pub open spec fn scan_from(s: Seq<char>, i: int) -> Seq<MathNodeView>
    decreases s.len() - i,
        via scan_from_dec
{
    if i < 0 || i > s.len() {
        Seq::empty()
    } else {
        match first_open(s, i) {
            Option::None => {
                if i < s.len() {
                    seq![MathNodeView::Text { raw: s.subrange(i, s.len() as int) }]
                } else {
                    Seq::empty()
                }
            },
            Option::Some((p, d)) => {
                let pre: Seq<MathNodeView> = if p > i {
                    seq![MathNodeView::Text { raw: s.subrange(i, p) }]
                } else {
                    Seq::empty()
                };
                let cstart = p + delim_open(d).len();
                match close_from(s, delim_close(d), cstart, 0) {
                    Option::None => pre + seq![
                        MathNodeView::Text { raw: s.subrange(p, s.len() as int) },
                    ],
                    Option::Some(q) => {
                        let next = q + delim_close(d).len();
                        let raw = s.subrange(p, next);
                        let content = if delim_ams(d) {
                            raw
                        } else {
                            s.subrange(cstart, q)
                        };
                        pre + seq![
                            MathNodeView::Math { content, raw, display: delim_display(d) },
                        ] + scan_from(s, next)
                    },
                }
            },
        }
    }
}

#[via_fn]
proof fn scan_from_dec(s: Seq<char>, i: int) {
    if 0 <= i <= s.len() {
        if first_open(s, i) is Some {
            lemma_first_open_props(s, i);
            let (p, d) = first_open(s, i)->Some_0;
            lemma_delim_lens();
            let cstart = p + delim_open(d).len();
            if close_from(s, delim_close(d), cstart, 0) is Some {
                lemma_close_props(s, delim_close(d), cstart, 0);
            }
        }
    }
}

/// The raw text of the segments, concatenated in order.
pub open spec fn nodes_text(nodes: Seq<MathNodeView>) -> Seq<char>
    decreases nodes.len(),
{
    if nodes.len() == 0 {
        Seq::empty()
    } else {
        (match nodes[0] {
            MathNodeView::Text { raw } => raw,
            MathNodeView::Math { content: _, raw, display: _ } => raw,
        }) + nodes_text(nodes.drop_first())
    }
}

proof fn lemma_nodes_text_one(n: MathNodeView)
    ensures
        nodes_text(seq![n]) == match n {
            MathNodeView::Text { raw } => raw,
            MathNodeView::Math { content: _, raw, display: _ } => raw,
        },
{
    let e = seq![n].drop_first();
    assert(e.len() == 0);
    assert(nodes_text(e) == Seq::<char>::empty());
    assert(seq![n][0] == n);
    assert(nodes_text(seq![n]) =~= match n {
        MathNodeView::Text { raw } => raw,
        MathNodeView::Math { content: _, raw, display: _ } => raw,
    });
}

proof fn lemma_nodes_text_concat(a: Seq<MathNodeView>, b: Seq<MathNodeView>)
    ensures
        nodes_text(a + b) == nodes_text(a) + nodes_text(b),
    decreases a.len(),
{
    if a.len() == 0 {
        assert(a + b =~= b);
        assert(nodes_text(a) + nodes_text(b) =~= nodes_text(b));
    } else {
        assert((a + b).drop_first() =~= a.drop_first() + b);
        lemma_nodes_text_concat(a.drop_first(), b);
        assert((a + b)[0] == a[0]);
        assert(nodes_text(a + b) =~= nodes_text(a) + nodes_text(b));
    }
}

/// The scan loses nothing: the raw texts of the segments of `s` from
/// position `i` on, concatenated in order, are exactly the text scanned.
pub proof fn lemma_scan_preserves_text(s: Seq<char>, i: int)
    requires
        0 <= i <= s.len(),
    ensures
        nodes_text(scan_from(s, i)) == s.subrange(i, s.len() as int),
    decreases s.len() - i,
{
    lemma_delim_lens();
    match first_open(s, i) {
        Option::None => {
            if i < s.len() {
                let node = MathNodeView::Text { raw: s.subrange(i, s.len() as int) };
                lemma_nodes_text_one(node);
                assert(nodes_text(scan_from(s, i)) =~= s.subrange(i, s.len() as int));
            } else {
                assert(s.subrange(i, s.len() as int) =~= Seq::<char>::empty());
            }
        },
        Option::Some((p, d)) => {
            lemma_first_open_props(s, i);
            let pre: Seq<MathNodeView> = if p > i {
                seq![MathNodeView::Text { raw: s.subrange(i, p) }]
            } else {
                Seq::empty()
            };
            let cstart = p + delim_open(d).len();
            match close_from(s, delim_close(d), cstart, 0) {
                Option::None => {
                    let rest = seq![MathNodeView::Text { raw: s.subrange(p, s.len() as int) }];
                    lemma_nodes_text_concat(pre, rest);
                    lemma_nodes_text_one(MathNodeView::Text { raw: s.subrange(p, s.len() as int) });
                    if p > i {
                        lemma_nodes_text_one(MathNodeView::Text { raw: s.subrange(i, p) });
                    }
                    assert(nodes_text(scan_from(s, i)) =~= s.subrange(i, s.len() as int));
                },
                Option::Some(q) => {
                    lemma_close_props(s, delim_close(d), cstart, 0);
                    let next = q + delim_close(d).len();
                    let raw = s.subrange(p, next);
                    let content = if delim_ams(d) {
                        raw
                    } else {
                        s.subrange(cstart, q)
                    };
                    let node = seq![
                        MathNodeView::Math { content, raw, display: delim_display(d) },
                    ];
                    lemma_scan_preserves_text(s, next);
                    lemma_nodes_text_concat(pre + node, scan_from(s, next));
                    lemma_nodes_text_concat(pre, node);
                    lemma_nodes_text_one(
                        MathNodeView::Math { content, raw, display: delim_display(d) },
                    );
                    if p > i {
                        lemma_nodes_text_one(MathNodeView::Text { raw: s.subrange(i, p) });
                    }
                    assert(nodes_text(scan_from(s, i)) =~= s.subrange(i, s.len() as int));
                },
            }
        },
    }
}

/// The first delimiter pair of the table that opens at position `i` of `v`.
fn check_open_at(v: &Vec<char>, i: usize) -> (r: Option<usize>)
    requires
        i <= v@.len(),
    ensures
        match r {
            Some(d) => open_at(v@, i as int) == Some(d as int),
            None => open_at(v@, i as int) is None,
        },
{
    let mut d: usize = 0;
    while d < 8
        invariant
            d <= 8,
            i <= v@.len(),
            forall|k: int| 0 <= k < d ==> !matches_at(v@, delim_open(k), i as int),
        decreases 8 - d,
    {
        let delim = delim_at(d);
        let left = chars_vec(delim.left);
        if starts_with_at(v, &left, i) {
            return Some(d);
        }
        d = d + 1;
    }
    None
}

/// The leftmost opening delimiter of `v` at or after `from`: its position
/// and its pair.
fn find_open(v: &Vec<char>, from: usize) -> (r: Option<(usize, usize)>)
    requires
        from <= v@.len(),
    ensures
        match r {
            Some(pd) => first_open(v@, from as int) == Some((pd.0 as int, pd.1 as int)),
            None => first_open(v@, from as int) is None,
        },
{
    let mut i: usize = from;
    while i < v.len()
        invariant
            from <= i <= v@.len(),
            first_open(v@, from as int) == first_open(v@, i as int),
        decreases v@.len() - i,
    {
        match check_open_at(v, i) {
            Option::Some(d) => {
                return Some((i, d));
            },
            Option::None => {
                i = i + 1;
            },
        }
    }
    None
}

/// The position where `close` ends the mathematics, scanning `v` forward
/// from `start` while tracking brace depth.
fn find_close(v: &Vec<char>, close: &Vec<char>, start: usize) -> (r: Option<usize>)
    requires
        start <= v@.len(),
    ensures
        match r {
            Some(q) => close_from(v@, close@, start as int, 0) == Some(q as int),
            None => close_from(v@, close@, start as int, 0) is None,
        },
{
    let n = v.len();
    let mut i: usize = start;
    let mut depth: i128 = 0;
    while i < n
        invariant
            start <= i,
            n == v@.len(),
            -(i as int) <= depth as int <= i as int,
            close_from(v@, close@, start as int, 0) == close_from(v@, close@, i as int, depth as int),
        decreases v@.len() - i,
    {
        if depth <= 0 && starts_with_at(v, close, i) {
            return Some(i);
        }
        let c = v[i];
        if c == '\\' {
            proof {
                assert(close_from(v@, close@, i as int, depth as int) == close_from(
                    v@,
                    close@,
                    i + 2,
                    depth as int,
                ));
            }
            if i + 1 >= v.len() {
                // The escape skips past the end of the text: nothing closes.
                assert(close_from(v@, close@, i + 2, depth as int) is None);
                return None;
            }
            i = i + 2;
        } else if c == '{' {
            depth = depth + 1;
            i = i + 1;
        } else if c == '}' {
            depth = depth - 1;
            i = i + 1;
        } else {
            i = i + 1;
        }
    }
    None
}

/// Splits a text run into its literal-text and mathematics segments, in
/// left-to-right order.
pub fn scan_math(text: &str) -> (r: Vec<MathNode>)
    ensures
        r.deep_view() == scan_from(text@, 0),
{
    let v = chars_vec(text);
    let n = v.len();
    let mut out: Vec<MathNode> = Vec::new();
    let mut i: usize = 0;
    loop
        invariant
            i <= v@.len(),
            n == v@.len(),
            v@ == text@,
            scan_from(v@, 0) == out.deep_view() + scan_from(v@, i as int),
        decreases v@.len() - i,
    {
        let ghost pre_dv = out.deep_view();
        match find_open(&v, i) {
            Option::None => {
                if i < v.len() {
                    let raw = sub_string(&v, i, v.len());
                    out.push(MathNode::Text { raw });
                    proof {
                        assert(out.deep_view() =~= pre_dv + scan_from(v@, i as int));
                    }
                } else {
                    proof {
                        assert(scan_from(v@, i as int) =~= Seq::<MathNodeView>::empty());
                        assert(out.deep_view() =~= pre_dv + scan_from(v@, i as int));
                    }
                }
                proof {
                    assert(scan_from(v@, 0) =~= out.deep_view());
                }
                return out;
            },
            Option::Some((p, d)) => {
                proof {
                    lemma_first_open_props(v@, i as int);
                    lemma_delim_lens();
                }
                let delim = delim_at(d);
                let left = chars_vec(delim.left);
                let right = chars_vec(delim.right);
                let cstart = p + left.len();
                let ghost pre_seq: Seq<MathNodeView> = if p > i {
                    seq![MathNodeView::Text { raw: v@.subrange(i as int, p as int) }]
                } else {
                    Seq::empty()
                };
                match find_close(&v, &right, cstart) {
                    Option::None => {
                        if p > i {
                            let pre_raw = sub_string(&v, i, p);
                            out.push(MathNode::Text { raw: pre_raw });
                        }
                        let raw = sub_string(&v, p, v.len());
                        out.push(MathNode::Text { raw });
                        proof {
                            assert(scan_from(v@, i as int) == pre_seq + seq![
                                MathNodeView::Text { raw: v@.subrange(p as int, v@.len() as int) },
                            ]);
                            assert(out.deep_view() =~= pre_dv + scan_from(v@, i as int));
                            assert(scan_from(v@, 0) =~= out.deep_view());
                        }
                        return out;
                    },
                    Option::Some(q) => {
                        proof {
                            lemma_close_props(v@, right@, cstart as int, 0);
                        }
                        if p > i {
                            let pre_raw = sub_string(&v, i, p);
                            out.push(MathNode::Text { raw: pre_raw });
                        }
                        let next = q + right.len();
                        let raw = sub_string(&v, p, next);
                        let is_ams = d >= 2 && d <= 6;
                        let content = if is_ams {
                            sub_string(&v, p, next)
                        } else {
                            sub_string(&v, cstart, q)
                        };
                        let node = MathNode::Math { content, raw, display: delim.display };
                        out.push(node);
                        proof {
                            assert(scan_from(v@, i as int) == pre_seq + seq![
                                MathNodeView::Math {
                                    content: if delim_ams(d as int) {
                                        v@.subrange(p as int, next as int)
                                    } else {
                                        v@.subrange(cstart as int, q as int)
                                    },
                                    raw: v@.subrange(p as int, next as int),
                                    display: delim_display(d as int),
                                },
                            ] + scan_from(v@, next as int));
                            assert(out.deep_view() =~= pre_dv + pre_seq + seq![node@]);
                            assert(out.deep_view() + scan_from(v@, next as int) =~= pre_dv
                                + scan_from(v@, i as int));
                        }
                        i = next;
                    },
                }
            },
        }
    }
}

} // verus!
