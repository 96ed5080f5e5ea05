use hyde::frontmatter::{split_frontmatter, Frontmatter};
use hyde::post::Post;

const WELL_FORMED: &str = "---\ntitle: X\ntimestamp: 2024-01-01T00:00:00Z\nlanguage: en\ntags: []\n---\nBody";

#[test]
fn frontmatter_round_trip() {
    let (fm_text, body) = split_frontmatter(WELL_FORMED).expect("two delimiters are present");
    assert_eq!(body, "\nBody");
    let fm = Frontmatter::from_str(&fm_text, "post.md").expect("the frontmatter is well formed");
    assert_eq!(fm.title, "X");
    assert_eq!(fm.timestamp, "2024-01-01T00:00:00Z");
    assert_eq!(fm.language, "en");
    assert!(fm.tags.is_empty());
}

#[test]
fn one_delimiter_is_missing_frontmatter() {
    let source = "---\ntitle: X\n";
    assert!(split_frontmatter(source).is_none());
    let err = Post::from_path("post.md", source).unwrap_err();
    assert_eq!(err.path, "post.md");
    assert_eq!(err.info, "Missing frontmatter");
}

#[test]
fn no_delimiter_is_missing_frontmatter() {
    assert!(split_frontmatter("just a body").is_none());
}

#[test]
fn later_delimiters_belong_to_the_body() {
    let source = "---\na: 1\n---\nfirst\n---\nsecond";
    let (fm_text, body) = split_frontmatter(source).unwrap();
    assert_eq!(fm_text, "\na: 1\n");
    assert_eq!(body, "\nfirst\n---\nsecond");
}

#[test]
fn tags_are_read_in_order() {
    let fm = Frontmatter::from_str(
        "title: T\ntimestamp: 2024-06-01T10:00:00+02:00\nlanguage: en\ntags: [one, two]",
        "p.md",
    )
    .unwrap();
    assert_eq!(fm.tags, vec!["one".to_string(), "two".to_string()]);
}

#[test]
fn missing_title_is_reported() {
    let err = Frontmatter::from_str(
        "timestamp: 2024-01-01T00:00:00Z\nlanguage: en\ntags: []",
        "p.md",
    )
    .unwrap_err();
    assert_eq!(err.path, "p.md");
    assert_eq!(err.info, "missing or invalid field 'title'");
}

#[test]
fn missing_tags_are_reported() {
    let err = Frontmatter::from_str(
        "title: T\ntimestamp: 2024-01-01T00:00:00Z\nlanguage: en",
        "p.md",
    )
    .unwrap_err();
    assert_eq!(err.info, "missing or invalid field 'tags'");
}

#[test]
fn missing_timestamp_is_reported() {
    let err = Frontmatter::from_str("title: T\nlanguage: en\ntags: []", "p.md").unwrap_err();
    assert_eq!(err.info, "missing or invalid field 'timestamp'");
}

#[test]
fn missing_language_is_reported() {
    let err = Frontmatter::from_str(
        "title: T\ntimestamp: 2024-01-01T00:00:00Z\ntags: []",
        "p.md",
    )
    .unwrap_err();
    assert_eq!(err.info, "missing or invalid field 'language'");
}

#[test]
fn invalid_timestamp_is_reported() {
    let err = Frontmatter::from_str(
        "title: T\ntimestamp: yesterday\nlanguage: en\ntags: []",
        "p.md",
    )
    .unwrap_err();
    assert_eq!(err.info, "field 'timestamp' is not an RFC 3339 timestamp");
}

#[test]
fn unparsable_yaml_is_reported() {
    let err = Frontmatter::from_str(": : :", "p.md").unwrap_err();
    assert_eq!(err.path, "p.md");
    assert!(!err.info.is_empty());
}

#[test]
fn a_non_string_tag_is_invalid() {
    let err = Frontmatter::from_str(
        "title: T\ntimestamp: 2024-01-01T00:00:00Z\nlanguage: en\ntags: [1]",
        "p.md",
    )
    .unwrap_err();
    assert_eq!(err.info, "missing or invalid field 'tags'");
}
