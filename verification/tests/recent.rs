use hyde::frontmatter::Frontmatter;
use hyde::recent::{file_stem, select_recent, RecentPost};

fn post_at(path: &str, timestamp: &str) -> RecentPost {
    RecentPost {
        path: path.to_string(),
        url: None,
        frontmatter: Frontmatter {
            title: path.to_string(),
            timestamp: timestamp.to_string(),
            language: "en".to_string(),
            tags: Vec::new(),
        },
        md_content: String::new(),
        summary: None,
    }
}

#[test]
fn from_path_reads_the_frontmatter() {
    let source = "---\ntitle: T\ntimestamp: 2024-03-01T12:00:00Z\nlanguage: en\ntags: []\n---\nHello";
    let post = RecentPost::from_path("posts/hello.md", source).unwrap();
    assert_eq!(post.path, "posts/hello.md");
    assert_eq!(post.frontmatter.title, "T");
    assert!(post.url.is_none());
    assert!(post.summary.is_none());
}

#[test]
fn hydrate_fills_url_and_summary() {
    let source = "---\ntitle: T\ntimestamp: 2024-03-01T12:00:00Z\nlanguage: en\ntags: []\n---\nSome *text* here.";
    let post = RecentPost::from_path("posts/hello-world.md", source).unwrap();
    let hydrated = post.hydrate().unwrap();
    assert_eq!(hydrated.url.as_deref(), Some("./posts/hello-world.html"));
    assert_eq!(hydrated.summary.as_deref(), Some("Some text here."));
}

#[test]
fn file_stem_strips_directory_and_extension() {
    assert_eq!(file_stem("posts/hello.md"), "hello");
    assert_eq!(file_stem("a/b/c.tar.gz"), "c.tar");
    assert_eq!(file_stem("plain"), "plain");
    assert_eq!(file_stem(".hidden"), ".hidden");
}

#[test]
fn the_five_most_recent_posts_are_kept_in_order() {
    let posts = vec![
        post_at("a.md", "2024-01-03T00:00:00Z"),
        post_at("b.md", "2024-01-07T00:00:00Z"),
        post_at("c.md", "2024-01-01T00:00:00Z"),
        post_at("d.md", "2024-01-06T00:00:00Z"),
        post_at("e.md", "2024-01-02T00:00:00Z"),
        post_at("f.md", "2024-01-05T00:00:00Z"),
        post_at("g.md", "2024-01-04T00:00:00Z"),
    ];
    let recent = select_recent(posts);
    let order: Vec<&str> = recent.iter().map(|p| p.path.as_str()).collect();
    assert_eq!(order, vec!["b.md", "d.md", "f.md", "g.md", "a.md"]);
}

#[test]
fn fewer_than_five_posts_all_stay() {
    let posts = vec![
        post_at("a.md", "2024-01-01T00:00:00Z"),
        post_at("b.md", "2024-01-02T00:00:00Z"),
    ];
    let recent = select_recent(posts);
    let order: Vec<&str> = recent.iter().map(|p| p.path.as_str()).collect();
    assert_eq!(order, vec!["b.md", "a.md"]);
}

#[test]
fn equal_timestamps_all_survive_the_cut() {
    let posts = vec![
        post_at("a.md", "2024-01-01T00:00:00Z"),
        post_at("b.md", "2024-01-01T00:00:00Z"),
        post_at("c.md", "2024-01-02T00:00:00Z"),
    ];
    let recent = select_recent(posts);
    assert_eq!(recent.len(), 3);
    assert_eq!(recent[0].path, "c.md");
}

#[test]
fn timestamps_compare_as_instants_not_text() {
    // The same instant written in two offsets; a later instant in a
    // "smaller-looking" text.
    let posts = vec![
        post_at("early.md", "2024-01-01T10:00:00+09:00"),
        post_at("late.md", "2024-01-01T09:00:00Z"),
    ];
    let recent = select_recent(posts);
    let order: Vec<&str> = recent.iter().map(|p| p.path.as_str()).collect();
    assert_eq!(order, vec!["late.md", "early.md"]);
}
