//! Producing a plain-text teaser from a post body.
//!
//! The Markdown body is parsed (with the strikethrough extension alone) into
//! a stream of events, and a single left-to-right pass folds them into a
//! text buffer: a stack of open tags suppresses struck-through text, a
//! per-depth counter stack numbers ordered list items and indents nested
//! ones, and single spaces separate paragraphs, headings and code blocks.
//! The buffer, trimmed, is the teaser.

use vstd::prelude::*;

use crate::text::dec_str;
use crate::text::push_dec;
use crate::text::push_str_chars;
use crate::text::string_from_chars;
use crate::text::trim_chars;
use crate::text::trimmed;

verus! {

/// The tags of the Markdown constructs the summariser reads.  `List` holds
/// the next ordered-list item number, or nothing for an unordered list;
/// `Link` and `Image` carry their title text.
#[derive(Clone, Debug)]
pub enum MdTag {
    Paragraph,
    Heading,
    CodeBlock,
    List(Option<u64>),
    Item,
    Strikethrough,
    Link { title: String },
    Image { title: String },
    Other,
}

/// One event of a parsed Markdown stream, reduced to what the summariser
/// reads.
#[derive(Clone, Debug)]
pub enum MdEvent {
    Start(MdTag),
    End(MdTag),
    Text(String),
    Code(String),
    SoftBreak,
    Other,
}

pub open spec fn is_list(t: MdTag) -> bool {
    t is List
}

/// How many lists are open.
pub open spec fn count_lists(stack: Seq<MdTag>) -> int
    decreases stack.len(),
{
    if stack.len() == 0 {
        0
    } else {
        (if is_list(stack[0]) {
            1int
        } else {
            0int
        }) + count_lists(stack.drop_first())
    }
}

/// The position of the innermost open list.
pub open spec fn last_list_idx(stack: Seq<MdTag>) -> Option<int>
    decreases stack.len(),
{
    if stack.len() == 0 {
        None
    } else if is_list(stack.last()) {
        Some(stack.len() - 1)
    } else {
        last_list_idx(stack.drop_last())
    }
}

pub open spec fn has_strike(stack: Seq<MdTag>) -> bool {
    exists|i: int| 0 <= i < stack.len() && stack[i] is Strikethrough
}

pub open spec fn has_list(stack: Seq<MdTag>) -> bool {
    exists|i: int| 0 <= i < stack.len() && stack[i] is List
}

/// `n` spaces (none for a negative `n`).
pub open spec fn spaces(n: int) -> Seq<char> {
    Seq::new(
        if n >= 0 {
            n as nat
        } else {
            0
        },
        |i: int| ' ',
    )
}

/// The next ordered-list item number; the last representable number is not
/// advanced past.
pub open spec fn next_count(nb: u64) -> u64 {
    if nb < u64::MAX {
        (nb + 1) as u64
    } else {
        nb
    }
}

/// The bullet glyph and its trailing space.
pub open spec fn bullet() -> Seq<char> {
    seq!['\u{2022}', ' ']
}

/// Entering a list item: one space, then one further space per enclosing
/// list beyond the first, then the item marker — the next counter value of
/// the innermost list followed by `. `, advancing that counter, or a bullet
/// glyph and a space for an unordered list.
pub open spec fn item_step(stack: Seq<MdTag>, buffer: Seq<char>) -> (Seq<MdTag>, Seq<char>) {
    let buf1 = buffer.push(' ') + spaces(count_lists(stack) - 1);
    match last_list_idx(stack) {
        Option::Some(i) => match stack[i] {
            MdTag::List(cnt) => match cnt {
                Option::Some(nb) => (
                    stack.update(i, MdTag::List(Some(next_count(nb)))),
                    buf1 + dec_str(nb as nat) + seq!['.', ' '],
                ),
                Option::None => (stack, buf1 + bullet()),
            },
            _ => (stack, buf1 + bullet()),
        },
        Option::None => (stack, buf1 + bullet()),
    }
}

/// A found innermost list lies in the stack and is a list.
proof fn lemma_last_list_idx_props(stack: Seq<MdTag>)
    requires
        last_list_idx(stack) is Some,
    ensures
        ({
            let i = last_list_idx(stack)->Some_0;
            &&& 0 <= i < stack.len()
            &&& is_list(stack[i])
        }),
    decreases stack.len(),
{
    if stack.len() > 0 && !is_list(stack.last()) {
        lemma_last_list_idx_props(stack.drop_last());
        let i = last_list_idx(stack.drop_last())->Some_0;
        assert(stack.drop_last()[i] == stack[i]);
    }
}

/// Ordered lists number independently per nesting level: entering an item
/// advances only the innermost open list's counter — every other stack
/// slot is untouched — and emits one leading space, one further space per
/// enclosing list beyond the first, and then that counter followed by
/// `. ` (or a bullet glyph and a space where the innermost list is
/// unordered, or none is open).
pub proof fn lemma_item_marker(stack: Seq<MdTag>, buffer: Seq<char>)
    ensures
        ({
            let sb = item_step(stack, buffer);
            let indent = buffer.push(' ') + spaces(count_lists(stack) - 1);
            match last_list_idx(stack) {
                Option::Some(i) => match stack[i] {
                    MdTag::List(cnt) => match cnt {
                        Option::Some(nb) => {
                            &&& sb.0 == stack.update(i, MdTag::List(Some(next_count(nb))))
                            &&& (forall|k: int|
                                0 <= k < stack.len() && k != i ==> sb.0[k] == stack[k])
                            &&& sb.1 == indent + dec_str(nb as nat) + seq!['.', ' ']
                        },
                        Option::None => sb.0 == stack && sb.1 == indent + bullet(),
                    },
                    _ => sb.0 == stack && sb.1 == indent + bullet(),
                },
                Option::None => sb.0 == stack && sb.1 == indent + bullet(),
            }
        }),
{
    if last_list_idx(stack) is Some {
        lemma_last_list_idx_props(stack);
    }
}

/// The buffer and counter effect of entering a tag, before the tag itself
/// is pushed onto the stack.
pub open spec fn start_effect(stack: Seq<MdTag>, buffer: Seq<char>, tag: MdTag) -> (
    Seq<MdTag>,
    Seq<char>,
) {
    match tag {
        MdTag::Link { title } => (stack, buffer + title@),
        MdTag::Image { title } => (stack, buffer + title@),
        MdTag::Item => item_step(stack, buffer),
        MdTag::Paragraph => (stack, buffer.push(' ')),
        MdTag::CodeBlock => (stack, buffer.push(' ')),
        MdTag::Heading => (stack, buffer.push(' ')),
        _ => (stack, buffer),
    }
}

/// The buffer effect of leaving a tag, after it was popped: a separating
/// space after paragraphs and headings, a second space after a code block
/// that already ends in one, and a space after a list that was not nested
/// in another.
pub open spec fn end_effect(stack_after: Seq<MdTag>, buffer: Seq<char>, tag: MdTag) -> Seq<char> {
    match tag {
        MdTag::Paragraph => buffer.push(' '),
        MdTag::Heading => buffer.push(' '),
        MdTag::CodeBlock => if buffer.len() > 0 && buffer.last() == ' ' {
            buffer.push(' ')
        } else {
            buffer
        },
        MdTag::List(_) => if has_list(stack_after) {
            buffer
        } else {
            buffer.push(' ')
        },
        _ => buffer,
    }
}

/// One event's effect on the tag stack and the text buffer.
pub open spec fn summary_step(stack: Seq<MdTag>, buffer: Seq<char>, ev: MdEvent) -> (
    Seq<MdTag>,
    Seq<char>,
) {
    match ev {
        MdEvent::Start(tag) => {
            let sb = start_effect(stack, buffer, tag);
            (sb.0.push(tag), sb.1)
        },
        MdEvent::End(tag) => {
            let stack1 = if stack.len() > 0 {
                stack.drop_last()
            } else {
                stack
            };
            (stack1, end_effect(stack1, buffer, tag))
        },
        MdEvent::Text(s) => (
            stack,
            if has_strike(stack) {
                buffer
            } else {
                buffer + s@
            },
        ),
        MdEvent::Code(s) => (stack, buffer + s@),
        MdEvent::SoftBreak => (stack, buffer.push(' ')),
        MdEvent::Other => (stack, buffer),
    }
}

/// The buffer after folding `events` over the running stack and buffer.
pub open spec fn summary_fold(events: Seq<MdEvent>, stack: Seq<MdTag>, buffer: Seq<char>) -> Seq<
    char,
>
    decreases events.len(),
{
    if events.len() == 0 {
        buffer
    } else {
        let sb = summary_step(stack, buffer, events[0]);
        summary_fold(events.drop_first(), sb.0, sb.1)
    }
}

/// The teaser a stream of events produces: the folded buffer, trimmed.
pub open spec fn summary_of(events: Seq<MdEvent>) -> Seq<char> {
    trimmed(summary_fold(events, Seq::empty(), Seq::empty()))
}

/// The stack and the buffer after folding `events` over the running stack
/// and buffer.
pub open spec fn fold_state(events: Seq<MdEvent>, stack: Seq<MdTag>, buffer: Seq<char>) -> (
    Seq<MdTag>,
    Seq<char>,
)
    decreases events.len(),
{
    if events.len() == 0 {
        (stack, buffer)
    } else {
        let sb = summary_step(stack, buffer, events[0]);
        fold_state(events.drop_first(), sb.0, sb.1)
    }
}

proof fn lemma_fold_is_fold_state(events: Seq<MdEvent>, stack: Seq<MdTag>, buffer: Seq<char>)
    ensures
        summary_fold(events, stack, buffer) == fold_state(events, stack, buffer).1,
    decreases events.len(),
{
    if events.len() > 0 {
        let sb = summary_step(stack, buffer, events[0]);
        lemma_fold_is_fold_state(events.drop_first(), sb.0, sb.1);
    }
}

proof fn lemma_fold_state_concat(a: Seq<MdEvent>, b: Seq<MdEvent>, stack: Seq<MdTag>, buffer: Seq<char>)
    ensures
        ({
            let mid = fold_state(a, stack, buffer);
            fold_state(a + b, stack, buffer) == fold_state(b, mid.0, mid.1)
        }),
    decreases a.len(),
{
    if a.len() == 0 {
        assert(a + b =~= b);
    } else {
        let sb = summary_step(stack, buffer, a[0]);
        assert((a + b)[0] == a[0]);
        assert((a + b).drop_first() =~= a.drop_first() + b);
        lemma_fold_state_concat(a.drop_first(), b, sb.0, sb.1);
    }
}

proof fn lemma_no_strike_push(stack: Seq<MdTag>, t: MdTag)
    requires
        !has_strike(stack),
        !(t is Strikethrough),
    ensures
        !has_strike(stack.push(t)),
{
    assert forall|i: int| 0 <= i < stack.push(t).len() implies !(stack.push(t)[i]
        is Strikethrough) by {
        if i < stack.len() {
            assert(stack.push(t)[i] == stack[i]);
        }
    }
}

proof fn lemma_count_lists_push(stack: Seq<MdTag>, t: MdTag)
    ensures
        count_lists(stack.push(t)) == count_lists(stack) + if is_list(t) {
            1int
        } else {
            0int
        },
    decreases stack.len(),
{
    if stack.len() == 0 {
        assert(stack.push(t)[0] == t);
        assert(stack.push(t).drop_first() =~= Seq::<MdTag>::empty());
        assert(count_lists(Seq::<MdTag>::empty()) == 0);
    } else {
        assert(stack.push(t)[0] == stack[0]);
        assert(stack.push(t).drop_first() =~= stack.drop_first().push(t));
        lemma_count_lists_push(stack.drop_first(), t);
    }
}

/// The events of one run of list items, each holding one text run.
pub open spec fn flat_items(texts: Seq<String>) -> Seq<MdEvent>
    decreases texts.len(),
{
    if texts.len() == 0 {
        Seq::empty()
    } else {
        seq![
            MdEvent::Start(MdTag::Item),
            MdEvent::Text(texts[0]),
            MdEvent::End(MdTag::Item),
        ] + flat_items(texts.drop_first())
    }
}

/// The text such items append to the teaser, with the list counter at `n`
/// and `depth` enclosing lists beyond the first: the `k`-th item (counting
/// from zero) contributes one space, `depth` indent spaces, the number
/// `n + k` (the counter advanced `k` times), `. `, and its text.
pub open spec fn item_markers(n: u64, texts: Seq<String>, depth: int) -> Seq<char>
    decreases texts.len(),
{
    if texts.len() == 0 {
        Seq::empty()
    } else {
        seq![' '] + spaces(depth) + dec_str(n as nat) + seq!['.', ' '] + texts[0]@ + item_markers(
            next_count(n),
            texts.drop_first(),
            depth,
        )
    }
}

/// The counter after `k` items.
spec fn advanced(n: u64, k: int) -> u64
    decreases k,
{
    if k <= 0 {
        n
    } else {
        advanced(next_count(n), k - 1)
    }
}

proof fn lemma_flat_items(stack: Seq<MdTag>, buffer: Seq<char>, n: u64, texts: Seq<String>)
    requires
        !has_strike(stack),
    ensures
        fold_state(flat_items(texts), stack.push(MdTag::List(Some(n))), buffer) == (
            stack.push(MdTag::List(Some(advanced(n, texts.len() as int)))),
            buffer + item_markers(n, texts, count_lists(stack)),
        ),
    decreases texts.len(),
{
    let st0 = stack.push(MdTag::List(Some(n)));
    if texts.len() == 0 {
        assert(buffer + item_markers(n, texts, count_lists(stack)) =~= buffer);
    } else {
        let item = seq![
            MdEvent::Start(MdTag::Item),
            MdEvent::Text(texts[0]),
            MdEvent::End(MdTag::Item),
        ];
        assert(flat_items(texts) == item + flat_items(texts.drop_first()));
        // The item's three events, step by step.
        lemma_count_lists_push(stack, MdTag::List(Some(n)));
        assert(last_list_idx(st0) == Some(st0.len() - 1));
        let bumped = stack.push(MdTag::List(Some(next_count(n))));
        assert(st0.update(st0.len() - 1, MdTag::List(Some(next_count(n)))) =~= bumped);
        let header = seq![' '] + spaces(count_lists(stack)) + dec_str(n as nat) + seq!['.', ' '];
        let sb1 = summary_step(st0, buffer, item[0]);
        assert(spaces(count_lists(st0) - 1) =~= spaces(count_lists(stack)));
        assert(sb1.0 =~= bumped.push(MdTag::Item));
        assert(sb1.1 =~= buffer + header);
        lemma_no_strike_push(stack, MdTag::List(Some(next_count(n))));
        lemma_no_strike_push(bumped, MdTag::Item);
        let sb2 = summary_step(sb1.0, sb1.1, item[1]);
        assert(sb2.0 == sb1.0 && sb2.1 == sb1.1 + texts[0]@);
        let sb3 = summary_step(sb2.0, sb2.1, item[2]);
        assert(bumped.push(MdTag::Item).drop_last() =~= bumped);
        assert(sb3.0 == bumped && sb3.1 == sb2.1);
        let e1 = item.drop_first();
        let e2 = e1.drop_first();
        assert(e1[0] == item[1]);
        assert(e2[0] == item[2]);
        assert(e2.drop_first() =~= Seq::<MdEvent>::empty());
        assert(fold_state(item, st0, buffer) == fold_state(e1, sb1.0, sb1.1));
        assert(fold_state(e1, sb1.0, sb1.1) == fold_state(e2, sb2.0, sb2.1));
        assert(fold_state(e2, sb2.0, sb2.1) == fold_state(e2.drop_first(), sb3.0, sb3.1));
        assert(fold_state(item, st0, buffer) == (bumped, buffer + header + texts[0]@));
        lemma_fold_state_concat(item, flat_items(texts.drop_first()), st0, buffer);
        lemma_flat_items(stack, buffer + header + texts[0]@, next_count(n), texts.drop_first());
        assert(buffer + item_markers(n, texts, count_lists(stack)) =~= (buffer + header
            + texts[0]@) + item_markers(next_count(n), texts.drop_first(), count_lists(stack)));
        assert(advanced(n, texts.len() as int) == advanced(next_count(n), texts.len() - 1));
    }
}

/// Summary nesting, the ordered-list numbering law: a list declaring the
/// start value `n`, holding any number of items in order, renders each
/// item's marker from its own counter — the `k`-th item (counting from
/// zero) is numbered with the counter advanced `k` times from `n`, that is
/// `n + k`, followed by `. ` and the item's text — with one leading space
/// per item and no indent at the top level, and one separating space after
/// the list closes, the whole trimmed.
pub proof fn lemma_ordered_list_numbering(n: u64, texts: Seq<String>)
    ensures
        summary_of(
            seq![MdEvent::Start(MdTag::List(Some(n)))] + flat_items(texts) + seq![
                MdEvent::End(MdTag::List(Some(n))),
            ],
        ) == trimmed(item_markers(n, texts, 0) + seq![' ']),
{
    let empty_stack = Seq::<MdTag>::empty();
    let empty_buf = Seq::<char>::empty();
    let open = seq![MdEvent::Start(MdTag::List(Some(n)))];
    let close = seq![MdEvent::End(MdTag::List(Some(n)))];
    let events = open + flat_items(texts) + close;
    lemma_fold_is_fold_state(events, empty_stack, empty_buf);
    // The opening event pushes the list.
    assert(open[0] == MdEvent::Start(MdTag::List(Some(n))));
    assert(open.drop_first() =~= Seq::<MdEvent>::empty());
    let st0 = empty_stack.push(MdTag::List(Some(n)));
    let sb_open = summary_step(empty_stack, empty_buf, open[0]);
    assert(sb_open.0 == st0 && sb_open.1 == empty_buf);
    assert(fold_state(open, empty_stack, empty_buf) == fold_state(
        open.drop_first(),
        sb_open.0,
        sb_open.1,
    ));
    assert(fold_state(open, empty_stack, empty_buf) == (st0, empty_buf));
    assert(events =~= open + (flat_items(texts) + close));
    lemma_fold_state_concat(open, flat_items(texts) + close, empty_stack, empty_buf);
    // The items append their markers and texts.
    lemma_flat_items(empty_stack, empty_buf, n, texts);
    let markers = item_markers(n, texts, 0);
    assert(count_lists(empty_stack) == 0);
    assert(empty_buf + markers =~= markers);
    lemma_fold_state_concat(flat_items(texts), close, st0, empty_buf);
    // The closing event pops the list and, with none left open, adds one
    // separating space.
    let done = empty_stack.push(MdTag::List(Some(advanced(n, texts.len() as int))));
    assert(done.drop_last() =~= empty_stack);
    assert(!has_list(empty_stack));
    assert(close[0] == MdEvent::End(MdTag::List(Some(n))));
    assert(close.drop_first() =~= Seq::<MdEvent>::empty());
    let sb_close = summary_step(done, markers, close[0]);
    assert(sb_close.0 == empty_stack && sb_close.1 == markers.push(' '));
    assert(fold_state(close, done, markers) == fold_state(
        close.drop_first(),
        sb_close.0,
        sb_close.1,
    ));
    assert(fold_state(close, done, markers) == (empty_stack, markers.push(' ')));
    assert(markers.push(' ') =~= markers + seq![' ']);
    assert(fold_state(flat_items(texts) + close, st0, empty_buf) == (
        empty_stack,
        markers + seq![' '],
    ));
    assert(fold_state(events, empty_stack, empty_buf) == (empty_stack, markers + seq![' ']));
    assert(summary_fold(events, empty_stack, empty_buf) == markers + seq![' ']);
    assert(summary_of(events) == trimmed(markers + seq![' ']));
}

fn count_lists_exec(stack: &Vec<MdTag>) -> (r: usize)
    ensures
        r == count_lists(stack@),
{
    let mut r: usize = 0;
    let mut i: usize = 0;
    proof {
        assert(stack@.subrange(0, stack@.len() as int) =~= stack@);
    }
    while i < stack.len()
        invariant
            i <= stack@.len(),
            r <= i,
            count_lists(stack@) == r + count_lists(
                stack@.subrange(i as int, stack@.len() as int),
            ),
        decreases stack@.len() - i,
    {
        let ghost sub = stack@.subrange(i as int, stack@.len() as int);
        proof {
            assert(sub.drop_first() =~= stack@.subrange(i + 1, stack@.len() as int));
        }
        if matches!(&stack[i], MdTag::List(_)) {
            r = r + 1;
        }
        i = i + 1;
    }
    r
}

fn last_list_idx_exec(stack: &Vec<MdTag>) -> (r: Option<usize>)
    ensures
        match r {
            Some(i) => last_list_idx(stack@) == Some(i as int) && i < stack@.len()
                && stack@[i as int] is List,
            None => last_list_idx(stack@) is None,
        },
{
    let mut j: usize = stack.len();
    proof {
        assert(stack@.subrange(0, stack@.len() as int) =~= stack@);
    }
    while j > 0
        invariant
            j <= stack@.len(),
            last_list_idx(stack@) == last_list_idx(stack@.subrange(0, j as int)),
        decreases j,
    {
        let ghost sub = stack@.subrange(0, j as int);
        proof {
            assert(sub.drop_last() =~= stack@.subrange(0, j - 1));
            assert(sub.last() == stack@[j - 1]);
        }
        if matches!(&stack[j - 1], MdTag::List(_)) {
            return Some(j - 1);
        }
        j = j - 1;
    }
    proof {
        assert(stack@.subrange(0, 0) =~= Seq::<MdTag>::empty());
    }
    None
}

fn has_strike_exec(stack: &Vec<MdTag>) -> (r: bool)
    ensures
        r == has_strike(stack@),
{
    let mut i: usize = 0;
    while i < stack.len()
        invariant
            i <= stack@.len(),
            forall|k: int| 0 <= k < i ==> !(stack@[k] is Strikethrough),
        decreases stack@.len() - i,
    {
        if matches!(&stack[i], MdTag::Strikethrough) {
            return true;
        }
        i = i + 1;
    }
    false
}

fn has_list_exec(stack: &Vec<MdTag>) -> (r: bool)
    ensures
        r == has_list(stack@),
{
    let mut i: usize = 0;
    while i < stack.len()
        invariant
            i <= stack@.len(),
            forall|k: int| 0 <= k < i ==> !(stack@[k] is List),
        decreases stack@.len() - i,
    {
        if matches!(&stack[i], MdTag::List(_)) {
            return true;
        }
        i = i + 1;
    }
    false
}

/// An owned copy of a tag.
fn dup_tag(t: &MdTag) -> (r: MdTag)
    ensures
        r == *t,
{
    match t {
        MdTag::Paragraph => MdTag::Paragraph,
        MdTag::Heading => MdTag::Heading,
        MdTag::CodeBlock => MdTag::CodeBlock,
        MdTag::List(c) => MdTag::List(*c),
        MdTag::Item => MdTag::Item,
        MdTag::Strikethrough => MdTag::Strikethrough,
        MdTag::Link { title } => MdTag::Link { title: title.clone() },
        MdTag::Image { title } => MdTag::Image { title: title.clone() },
        MdTag::Other => MdTag::Other,
    }
}

/// Applies the buffer and counter effect of entering `tag`; the caller then
/// pushes the tag itself.
fn start_tag(tag: &MdTag, buffer: &mut Vec<char>, stack: &mut Vec<MdTag>)
    ensures
        ({
            let se = start_effect(old(stack)@, old(buffer)@, *tag);
            final(stack)@ == se.0 && final(buffer)@ == se.1
        }),
{
    match tag {
        MdTag::Link { title } => {
            push_str_chars(buffer, title.as_str());
        },
        MdTag::Image { title } => {
            push_str_chars(buffer, title.as_str());
        },
        MdTag::Item => {
            let ghost buf0 = buffer@;
            let ghost stack0 = stack@;
            buffer.push(' ');
            let k = count_lists_exec(stack);
            let mut m: usize = 1;
            while m < k
                invariant
                    1 <= m,
                    k <= usize::MAX,
                    m <= k || m == 1,
                    buffer@ == buf0.push(' ') + spaces(m - 1),
                decreases k - m,
            {
                proof {
                    assert((buf0.push(' ') + spaces(m - 1)).push(' ') =~= buf0.push(' ') + spaces(
                        m as int,
                    ));
                }
                buffer.push(' ');
                m = m + 1;
            }
            proof {
                assert(buffer@ =~= buf0.push(' ') + spaces(count_lists(stack0) - 1));
            }
            let ghost buf1 = buffer@;
            match last_list_idx_exec(stack) {
                Option::Some(idx) => {
                    let cnt: Option<u64> = match &stack[idx] {
                        MdTag::List(c) => *c,
                        _ => None,
                    };
                    match cnt {
                        Option::Some(nb) => {
                            push_dec(buffer, nb);
                            buffer.push('.');
                            buffer.push(' ');
                            let next = if nb < u64::MAX {
                                nb + 1
                            } else {
                                nb
                            };
                            stack.set(idx, MdTag::List(Some(next)));
                            proof {
                                assert(buffer@ =~= buf1 + dec_str(nb as nat) + seq!['.', ' ']);
                            }
                        },
                        Option::None => {
                            buffer.push('\u{2022}');
                            buffer.push(' ');
                            proof {
                                assert(buffer@ =~= buf1 + bullet());
                            }
                        },
                    }
                },
                Option::None => {
                    buffer.push('\u{2022}');
                    buffer.push(' ');
                    proof {
                        assert(buffer@ =~= buf1 + bullet());
                    }
                },
            }
        },
        MdTag::Paragraph => {
            buffer.push(' ');
        },
        MdTag::CodeBlock => {
            buffer.push(' ');
        },
        MdTag::Heading => {
            buffer.push(' ');
        },
        MdTag::List(_) => {},
        MdTag::Strikethrough => {},
        MdTag::Other => {},
    }
}

/// Applies the buffer effect of leaving `tag`; the caller pops the stack
/// before calling.
fn end_tag(tag: &MdTag, buffer: &mut Vec<char>, stack: &Vec<MdTag>)
    ensures
        final(buffer)@ == end_effect(stack@, old(buffer)@, *tag),
{
    match tag {
        MdTag::Paragraph => {
            buffer.push(' ');
        },
        MdTag::Heading => {
            buffer.push(' ');
        },
        MdTag::CodeBlock => {
            let ends_space = buffer.len() > 0 && buffer[buffer.len() - 1] == ' ';
            if ends_space {
                buffer.push(' ');
            }
        },
        MdTag::List(_) => {
            if !has_list_exec(stack) {
                buffer.push(' ');
            }
        },
        MdTag::Item => {},
        MdTag::Strikethrough => {},
        MdTag::Link { .. } => {},
        MdTag::Image { .. } => {},
        MdTag::Other => {},
    }
}

/// Folds a stream of events into the trimmed plain-text teaser.
pub fn summarise_events(events: &Vec<MdEvent>) -> (r: String)
    ensures
        r@ == summary_of(events@),
{
    let mut stack: Vec<MdTag> = Vec::new();
    let mut buffer: Vec<char> = Vec::new();
    let mut i: usize = 0;
    proof {
        assert(events@.subrange(0, events@.len() as int) =~= events@);
    }
    while i < events.len()
        invariant
            i <= events@.len(),
            summary_fold(events@, Seq::empty(), Seq::empty()) == summary_fold(
                events@.subrange(i as int, events@.len() as int),
                stack@,
                buffer@,
            ),
        decreases events@.len() - i,
    {
        let ghost rest = events@.subrange(i as int, events@.len() as int);
        proof {
            assert(rest[0] == events@[i as int]);
            assert(rest.drop_first() =~= events@.subrange(i + 1, events@.len() as int));
        }
        match &events[i] {
            MdEvent::Start(tag) => {
                start_tag(tag, &mut buffer, &mut stack);
                stack.push(dup_tag(tag));
            },
            MdEvent::End(tag) => {
                if stack.len() > 0 {
                    stack.pop();
                }
                end_tag(tag, &mut buffer, &stack);
            },
            MdEvent::Text(s) => {
                if !has_strike_exec(&stack) {
                    push_str_chars(&mut buffer, s.as_str());
                }
            },
            MdEvent::Code(s) => {
                push_str_chars(&mut buffer, s.as_str());
            },
            MdEvent::SoftBreak => {
                buffer.push(' ');
            },
            MdEvent::Other => {},
        }
        i = i + 1;
    }
    proof {
        assert(events@.subrange(i as int, events@.len() as int) =~= Seq::<MdEvent>::empty());
    }
    let out = trim_chars(&buffer);
    string_from_chars(&out)
}

/// The event stream of a Markdown text, parsed with the strikethrough
/// extension alone and reduced to the events the summariser reads.
pub uninterp spec fn summary_events(s: Seq<char>) -> Seq<MdEvent>;

/// Relies on the shape of pulldown_cmark's `Tag`: each variant the
/// summariser reads is told apart and its text moved over; every other
/// variant becomes `Other`.
#[verifier::external_body]
fn md_tag_of(t: pulldown_cmark::Tag<'_>) -> MdTag {
    match t {
        pulldown_cmark::Tag::Paragraph => MdTag::Paragraph,
        pulldown_cmark::Tag::Heading(..) => MdTag::Heading,
        pulldown_cmark::Tag::CodeBlock(_) => MdTag::CodeBlock,
        pulldown_cmark::Tag::List(start) => MdTag::List(start),
        pulldown_cmark::Tag::Item => MdTag::Item,
        pulldown_cmark::Tag::Strikethrough => MdTag::Strikethrough,
        pulldown_cmark::Tag::Link(_, _, title) => MdTag::Link { title: title.to_string() },
        pulldown_cmark::Tag::Image(_, _, title) => MdTag::Image { title: title.to_string() },
        _ => MdTag::Other,
    }
}

/// Relies on the shape of pulldown_cmark's `Event`: each variant the
/// summariser reads is told apart and its text moved over; every other
/// variant becomes `Other`.
#[verifier::external_body]
fn md_event_of(e: pulldown_cmark::Event<'_>) -> MdEvent {
    match e {
        pulldown_cmark::Event::Start(t) => MdEvent::Start(md_tag_of(t)),
        pulldown_cmark::Event::End(t) => MdEvent::End(md_tag_of(t)),
        pulldown_cmark::Event::Text(s) => MdEvent::Text(s.to_string()),
        pulldown_cmark::Event::Code(s) => MdEvent::Code(s.to_string()),
        pulldown_cmark::Event::SoftBreak => MdEvent::SoftBreak,
        _ => MdEvent::Other,
    }
}

/// Declares pulldown_cmark's `Tag` as an opaque type.
#[verifier::external_type_specification]
#[verifier::external_body]
pub struct ExMdTag<'a>(pulldown_cmark::Tag<'a>);

/// Declares pulldown_cmark's `Event` as an opaque type.
#[verifier::external_type_specification]
#[verifier::external_body]
pub struct ExPulldownEvent<'a>(pulldown_cmark::Event<'a>);

/// Relies on pulldown_cmark's `Parser::new_ext`: the event stream of a
/// Markdown text, under fixed parser options, depends on the text alone.
#[verifier::external_body]
fn parse_summary_events(content: &str) -> (r: Vec<MdEvent>)
    ensures
        r@ == summary_events(content@),
{
    pulldown_cmark::Parser::new_ext(content, pulldown_cmark::Options::ENABLE_STRIKETHROUGH).map(
        md_event_of,
    ).collect()
}

/// The plain-text teaser of a post body: the body's Markdown events folded
/// into text, with struck-through spans suppressed, list items marked and
/// indented, and the result trimmed.
pub fn summarise_content(content_markdown: &str) -> (r: String)
    ensures
        r@ == summary_of(summary_events(content_markdown@)),
{
    let events = parse_summary_events(content_markdown);
    summarise_events(&events)
}

} // verus!
