use hyde::summary::{summarise_content, summarise_events, MdEvent, MdTag};

#[test]
fn nested_bullets_are_indented() {
    let teaser = summarise_content("- a\n  - b\n- c");
    assert_eq!(teaser, "\u{2022} a  \u{2022} b \u{2022} c");
}

#[test]
fn ordered_lists_count_per_level() {
    let teaser = summarise_content("1. a\n   1. b\n   2. c\n2. d");
    assert_eq!(teaser, "1. a  1. b  2. c 2. d");
}

#[test]
fn ordered_lists_honour_their_start_value() {
    let teaser = summarise_content("4. a\n5. b");
    assert_eq!(teaser, "4. a 5. b");
}

#[test]
fn struck_through_text_is_suppressed() {
    let teaser = summarise_content("keep ~~drop~~ end");
    assert_eq!(teaser, "keep  end");
}

#[test]
fn paragraphs_are_separated_by_spaces() {
    let teaser = summarise_content("one\n\ntwo");
    assert_eq!(teaser, "one  two");
}

#[test]
fn soft_breaks_become_spaces() {
    let teaser = summarise_content("one\ntwo");
    assert_eq!(teaser, "one two");
}

#[test]
fn inline_code_is_kept_literally() {
    let teaser = summarise_content("run `make all` now");
    assert_eq!(teaser, "run make all now");
}

#[test]
fn events_fold_without_a_parser() {
    let events = vec![
        MdEvent::Start(MdTag::Paragraph),
        MdEvent::Text("hello".to_string()),
        MdEvent::End(MdTag::Paragraph),
    ];
    assert_eq!(summarise_events(&events), "hello");
}

#[test]
fn an_unordered_item_without_a_counter_gets_a_bullet() {
    let events = vec![
        MdEvent::Start(MdTag::List(None)),
        MdEvent::Start(MdTag::Item),
        MdEvent::Text("x".to_string()),
        MdEvent::End(MdTag::Item),
        MdEvent::End(MdTag::List(None)),
    ];
    assert_eq!(summarise_events(&events), "\u{2022} x");
}

#[test]
fn an_empty_body_gives_an_empty_teaser() {
    assert_eq!(summarise_content(""), "");
}
