//! Compiling a post's Markdown body into HTML.
//!
//! The body's parse events are rewritten in one left-to-right pass with two
//! pieces of state: the language of the fenced code block being read, and
//! the explicit fragment identifier of the heading being read.  Text inside
//! a recognised fenced block is replaced by highlighted HTML, text inside a
//! heading that declares a fragment identifier is wrapped in an anchor, and
//! every other text run is split into literal text and mathematics
//! segments, the mathematics emitted as tagged raw passthrough.  The
//! rewritten stream is serialised back to one HTML string.

use pulldown_cmark::CodeBlockKind;
use pulldown_cmark::Event;
use pulldown_cmark::Tag;
use vstd::prelude::*;

use crate::highlight::Language;
use crate::highlight::highlight;
use crate::highlight::highlighted;
use crate::highlight::lang_of;
use crate::latex::MathNode;
use crate::latex::MathNodeView;
use crate::latex::scan_from;
use crate::latex::scan_math;
use crate::text::chars_vec;
use crate::text::escaped;
use crate::text::push_escaped;
use crate::text::push_str_chars;
use crate::text::string_from_chars;

verus! {

/// What the content compiler reads off one parse event: fenced code block
/// boundaries with their language tag, heading boundaries with their
/// declared fragment identifier, text runs, and everything else.
#[derive(Clone, Debug)]
pub enum EventKind {
    CodeFenceStart(String),
    CodeFenceEnd,
    HeadingStart(Option<String>),
    HeadingEnd,
    Text(String),
    Other,
}

/// An event that replaces a text run: literal text, or raw HTML passed
/// through to the output.
#[derive(Clone, Debug)]
pub enum OutEvent {
    Text(String),
    Html(String),
}

pub enum OutEventView {
    Text(Seq<char>),
    Html(Seq<char>),
}

impl View for OutEvent {
    type V = OutEventView;

    open spec fn view(&self) -> OutEventView {
        match self {
            OutEvent::Text(s) => OutEventView::Text(s@),
            OutEvent::Html(s) => OutEventView::Html(s@),
        }
    }
}

impl DeepView for OutEvent {
    type V = OutEventView;

    open spec fn deep_view(&self) -> OutEventView {
        self.view()
    }
}

/// What happens to one parse event: it passes through, or it is replaced
/// by the given events.
#[derive(Clone, Debug)]
pub enum EventAction {
    Keep,
    Replace(Vec<OutEvent>),
}

pub enum EventActionView {
    Keep,
    Replace(Seq<OutEventView>),
}

impl View for EventAction {
    type V = EventActionView;

    open spec fn view(&self) -> EventActionView {
        match self {
            EventAction::Keep => EventActionView::Keep,
            EventAction::Replace(v) => EventActionView::Replace(v.deep_view()),
        }
    }
}

impl DeepView for EventAction {
    type V = EventActionView;

    open spec fn deep_view(&self) -> EventActionView {
        self.view()
    }
}

/// The two state slots of the rewriting pass.
#[derive(Clone, Debug)]
pub struct ContentState {
    /// The language tag of the fenced code block being read
    pub code_lang: Option<String>,
    /// The declared fragment identifier of the heading being read
    pub heading_frag: Option<String>,
}

/// The state after one event: entering a fenced block or a heading sets
/// the matching slot, leaving it clears it.
pub open spec fn next_state(st: ContentState, ev: EventKind) -> ContentState {
    match ev {
        EventKind::CodeFenceStart(lang) => ContentState {
            code_lang: Some(lang),
            heading_frag: st.heading_frag,
        },
        EventKind::CodeFenceEnd => ContentState { code_lang: None, heading_frag: st.heading_frag },
        EventKind::HeadingStart(frag) => ContentState {
            code_lang: st.code_lang,
            heading_frag: frag,
        },
        EventKind::HeadingEnd => ContentState { code_lang: st.code_lang, heading_frag: None },
        _ => st,
    }
}

/// The state in force when event `i` is rewritten: both slots empty at the
/// start, then the effect of the events before `i`.
pub open spec fn state_after(kinds: Seq<EventKind>, i: int) -> ContentState
    decreases i,
{
    if i <= 0 {
        ContentState { code_lang: None, heading_frag: None }
    } else {
        next_state(state_after(kinds, i - 1), kinds[i - 1])
    }
}

/// The raw-HTML form of one mathematics segment: the raw text, delimiters
/// included, escaped and wrapped in a span whose class carries the
/// display/inline classification, for a client-side renderer.
pub open spec fn math_span(raw: Seq<char>, display: bool) -> Seq<char> {
    (if display {
        "<span class=\"math math-display\">"@
    } else {
        "<span class=\"math math-inline\">"@
    }) + escaped(raw) + "</span>"@
}

pub fn math_span_html(raw: &String, display: bool) -> (r: String)
    ensures
        r@ == math_span(raw@, display),
{
    let mut out: Vec<char> = if display {
        chars_vec("<span class=\"math math-display\">")
    } else {
        chars_vec("<span class=\"math math-inline\">")
    };
    push_escaped(&mut out, raw);
    push_str_chars(&mut out, "</span>");
    string_from_chars(&out)
}

/// The anchor a heading with an explicit fragment identifier emits: the
/// heading text wrapped in a link targeting that fragment.
pub open spec fn anchor_html(frag: Seq<char>, text: Seq<char>) -> Seq<char> {
    "<a href=\"#"@ + frag + "\">"@ + text + "</a>"@
}

/// Formats a heading which has an associated fragment identifier as a link.
pub fn format_heading(fragment_id: &String, heading: &String) -> (r: String)
    ensures
        r@ == anchor_html(fragment_id@, heading@),
{
    let mut out = chars_vec("<a href=\"#");
    push_str_chars(&mut out, fragment_id.as_str());
    push_str_chars(&mut out, "\">");
    push_str_chars(&mut out, heading.as_str());
    push_str_chars(&mut out, "</a>");
    string_from_chars(&out)
}

/// The replacement event of one scanned segment: literal text stays a text
/// event, mathematics becomes tagged raw HTML.
pub open spec fn out_of_node(n: MathNodeView) -> OutEventView {
    match n {
        MathNodeView::Text { raw } => OutEventView::Text(raw),
        MathNodeView::Math { content, raw, display } => OutEventView::Html(math_span(raw, display)),
    }
}

/// The action on a text run outside code blocks and headings: where the
/// scan finds no mathematics the run passes through, otherwise it is
/// replaced by its segments.
pub open spec fn text_action(s: Seq<char>) -> EventActionView {
    let nodes = scan_from(s, 0);
    if nodes.len() == 1 && nodes[0] is Text {
        EventActionView::Keep
    } else {
        EventActionView::Replace(nodes.map_values(|n: MathNodeView| out_of_node(n)))
    }
}

/// What the rewriting pass must do with event `ev` under state `st`: text
/// in a recognised fenced block becomes exactly the raw-HTML event the
/// highlighter yields for it, text in an unrecognised block passes through,
/// text in a heading with a fragment identifier becomes exactly its
/// anchor, any other text run is scanned for mathematics, and every other
/// event passes through.
pub open spec fn action_ok(st: ContentState, ev: EventKind, a: EventActionView) -> bool {
    match ev {
        EventKind::Text(s) => match st.code_lang {
            Option::Some(lang) => match lang_of(lang@) {
                Option::None => a == EventActionView::Keep,
                Option::Some(l) => a == EventActionView::Replace(
                    seq![OutEventView::Html(highlighted(l, s@))],
                ),
            },
            Option::None => match st.heading_frag {
                Option::Some(frag) => a == EventActionView::Replace(
                    seq![OutEventView::Html(anchor_html(frag@, s@))],
                ),
                Option::None => a == text_action(s@),
            },
        },
        _ => a == EventActionView::Keep,
    }
}

/// An owned copy of an optional string.
fn dup_opt_string(s: &Option<String>) -> (r: Option<String>)
    ensures
        r == *s,
{
    match s {
        Option::Some(x) => Some(x.clone()),
        Option::None => None,
    }
}

/// The replacement events of a scanned text run.
fn outs_of_nodes(nodes: &Vec<MathNode>) -> (r: Vec<OutEvent>)
    ensures
        r.deep_view() == nodes.deep_view().map_values(|n: MathNodeView| out_of_node(n)),
{
    let mut out: Vec<OutEvent> = Vec::new();
    let mut i: usize = 0;
    while i < nodes.len()
        invariant
            i <= nodes@.len(),
            out@.len() == i,
            forall|k: int|
                0 <= k < i ==> (#[trigger] out.deep_view()[k]) == out_of_node(nodes.deep_view()[k]),
        decreases nodes@.len() - i,
    {
        let ghost pre = out.deep_view();
        match &nodes[i] {
            MathNode::Text { raw } => {
                out.push(OutEvent::Text(raw.clone()));
            },
            MathNode::Math { content: _, raw, display } => {
                out.push(OutEvent::Html(math_span_html(raw, *display)));
            },
        }
        proof {
            assert(out.deep_view() =~= pre.push(out@[i as int]@));
            assert(out.deep_view()[i as int] == out_of_node(nodes.deep_view()[i as int]));
        }
        i = i + 1;
    }
    proof {
        assert(out.deep_view() =~= nodes.deep_view().map_values(|n: MathNodeView| out_of_node(n)));
    }
    out
}

/// Decides, for every event of a post body's parse stream, whether it
/// passes through or what replaces it, threading the code-block and
/// heading state left to right.
pub fn content_actions(kinds: &Vec<EventKind>) -> (r: Vec<EventAction>)
    ensures
        r@.len() == kinds@.len(),
        forall|i: int|
            0 <= i < kinds@.len() ==> action_ok(
                state_after(kinds@, i),
                kinds@[i],
                (#[trigger] r@[i])@,
            ),
{
    let mut acts: Vec<EventAction> = Vec::new();
    let mut st = ContentState { code_lang: None, heading_frag: None };
    let mut i: usize = 0;
    while i < kinds.len()
        invariant
            i <= kinds@.len(),
            acts@.len() == i,
            st == state_after(kinds@, i as int),
            forall|k: int|
                0 <= k < i ==> action_ok(state_after(kinds@, k), kinds@[k], (#[trigger] acts@[k])@),
        decreases kinds@.len() - i,
    {
        match &kinds[i] {
            EventKind::CodeFenceStart(lang) => {
                st = ContentState { code_lang: Some(lang.clone()), heading_frag: st.heading_frag };
                acts.push(EventAction::Keep);
            },
            EventKind::CodeFenceEnd => {
                st = ContentState { code_lang: None, heading_frag: st.heading_frag };
                acts.push(EventAction::Keep);
            },
            EventKind::HeadingStart(frag) => {
                st = ContentState { code_lang: st.code_lang, heading_frag: dup_opt_string(frag) };
                acts.push(EventAction::Keep);
            },
            EventKind::HeadingEnd => {
                st = ContentState { code_lang: st.code_lang, heading_frag: None };
                acts.push(EventAction::Keep);
            },
            EventKind::Text(s) => {
                let action: EventAction = match &st.code_lang {
                    Option::Some(lang) => {
                        match Language::from_str(lang.as_str()) {
                            Option::None => EventAction::Keep,
                            Option::Some(l) => {
                                let html = highlight(lang.as_str(), s.as_str());
                                let mut outs: Vec<OutEvent> = Vec::new();
                                outs.push(OutEvent::Html(html));
                                proof {
                                    assert(outs.deep_view() =~= seq![
                                        OutEventView::Html(highlighted(l, s@)),
                                    ]);
                                }
                                EventAction::Replace(outs)
                            },
                        }
                    },
                    Option::None => {
                        match &st.heading_frag {
                            Option::Some(frag) => {
                                let mut outs: Vec<OutEvent> = Vec::new();
                                outs.push(OutEvent::Html(format_heading(frag, s)));
                                proof {
                                    assert(outs.deep_view() =~= seq![
                                        OutEventView::Html(anchor_html(frag@, s@)),
                                    ]);
                                }
                                EventAction::Replace(outs)
                            },
                            Option::None => {
                                let nodes = scan_math(s.as_str());
                                let keep = nodes.len() == 1 && matches!(
                                    &nodes[0],
                                    MathNode::Text { .. },
                                );
                                if keep {
                                    EventAction::Keep
                                } else {
                                    EventAction::Replace(outs_of_nodes(&nodes))
                                }
                            },
                        }
                    },
                };
                acts.push(action);
            },
            EventKind::Other => {
                acts.push(EventAction::Keep);
            },
        }
        i = i + 1;
    }
    acts
}

/// The parse events of a post body, under the full set of parser options,
/// reduced to what the rewriting pass reads.
pub uninterp spec fn content_events(s: Seq<char>) -> Seq<EventKind>;

/// The HTML serialisation of a post body's parse stream after the given
/// actions are applied to its events, one by one in order.
pub uninterp spec fn rendered_html(s: Seq<char>, actions: Seq<EventActionView>) -> Seq<char>;

/// Relies on the shape of pulldown_cmark's `Event`: each variant the
/// rewriting pass reads is told apart and its text moved over; every other
/// variant becomes `Other`.
#[verifier::external_body]
fn event_kind_of(e: Event<'_>) -> EventKind {
    match e {
        Event::Start(Tag::CodeBlock(CodeBlockKind::Fenced(l))) => EventKind::CodeFenceStart(l.to_string()),
        Event::End(Tag::CodeBlock(CodeBlockKind::Fenced(_))) => EventKind::CodeFenceEnd,
        Event::Start(Tag::Heading(_, frag, _)) => EventKind::HeadingStart(frag.map(str::to_string)),
        Event::End(Tag::Heading(..)) => EventKind::HeadingEnd,
        Event::Text(t) => EventKind::Text(t.to_string()),
        _ => EventKind::Other,
    }
}

/// Relies on pulldown_cmark's `Parser::new_ext`: the event stream of a
/// Markdown text, under fixed parser options, depends on the text alone.
#[verifier::external_body]
fn parse_content_kinds(s: &str) -> (r: Vec<EventKind>)
    ensures
        r@ == content_events(s@),
{
    pulldown_cmark::Parser::new_ext(s, pulldown_cmark::Options::all()).map(event_kind_of).collect()
}

/// Relies on the shape of pulldown_cmark's `Event`: keeps the event, or
/// replaces it by the decided literal-text and raw-HTML events.
#[verifier::external_body]
fn apply_action<'a>(e: pulldown_cmark::Event<'a>, a: &EventAction) -> Vec<pulldown_cmark::Event<'a>> {
    match a {
        EventAction::Keep => vec![e],
        EventAction::Replace(outs) => outs.iter().map(|o| match o {
            OutEvent::Text(t) => pulldown_cmark::Event::Text(t.clone().into()),
            OutEvent::Html(h) => pulldown_cmark::Event::Html(h.clone().into()),
        }).collect(),
    }
}

/// Relies on pulldown_cmark's `Parser::new_ext` and `html::push_html`:
/// re-parses the content, applies the decided action to each event in
/// turn, and serialises the rewritten stream; the result depends on the
/// content and the actions alone.
#[verifier::external_body]
fn render_content(s: &str, actions: &Vec<EventAction>) -> (r: String)
    ensures
        r@ == rendered_html(s@, actions.deep_view()),
{
    let parser = pulldown_cmark::Parser::new_ext(s, pulldown_cmark::Options::all()).zip(
        actions.iter(),
    ).flat_map(|ea: (pulldown_cmark::Event, &EventAction)| apply_action(ea.0, ea.1));
    let mut out = String::new();
    pulldown_cmark::html::push_html(&mut out, parser);
    out
}

/// `out` is a compilation of the body `s`: some sequence of actions, each
/// as the rewriting rules demand under the state in force at its event,
/// was applied to the body's events and serialised.
pub open spec fn compiled_from(s: Seq<char>, actions: Seq<EventActionView>, out: Seq<char>) -> bool {
    &&& actions.len() == content_events(s).len()
    &&& (forall|i: int|
        0 <= i < actions.len() ==> action_ok(
            state_after(content_events(s), i),
            content_events(s)[i],
            #[trigger] actions[i],
        ))
    &&& out == rendered_html(s, actions)
}

/// Compiles the markdown content of a post into HTML: the parse events are
/// rewritten under the code-block, heading and mathematics rules and the
/// result is serialised to one HTML string.
pub fn compile_content(content_markdown: &str) -> (r: String)
    ensures
        exists|actions: Seq<EventActionView>| compiled_from(content_markdown@, actions, r@),
{
    let kinds = parse_content_kinds(content_markdown);
    let acts = content_actions(&kinds);
    let r = render_content(content_markdown, &acts);
    proof {
        assert(compiled_from(content_markdown@, acts.deep_view(), r@));
    }
    r
}

} // verus!
