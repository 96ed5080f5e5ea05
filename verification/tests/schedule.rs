use hyde::schedule::{compile_posts, html_file_name, PostSource};

fn post(stem: &str, src_mtime: u128, dest: Option<u128>) -> PostSource {
    PostSource {
        stem: stem.to_string(),
        src_mtime,
        dest_exists: dest.is_some(),
        dest_mtime: dest.unwrap_or(0),
    }
}

#[test]
fn missing_output_is_compiled() {
    let plans = compile_posts(&vec![post("first", 100, None)]);
    assert_eq!(plans.len(), 1);
    assert!(plans[0].compile);
    assert_eq!(plans[0].dest_name, "first.html");
}

#[test]
fn newer_source_is_recompiled() {
    let plans = compile_posts(&vec![post("first", 200, Some(100))]);
    assert!(plans[0].compile);
}

#[test]
fn up_to_date_output_is_skipped() {
    let plans = compile_posts(&vec![post("first", 100, Some(100)), post("second", 99, Some(100))]);
    assert!(!plans[0].compile);
    assert!(!plans[1].compile);
}

#[test]
fn touching_one_post_leaves_the_other_alone() {
    // Both posts compiled earlier; only the first source was touched since.
    let plans = compile_posts(&vec![
        post("a", 300, Some(200)),
        post("b", 100, Some(200)),
    ]);
    assert!(plans[0].compile);
    assert!(!plans[1].compile);
}

#[test]
fn an_unchanged_project_recompiles_nothing() {
    let posts = vec![
        post("a", 100, Some(150)),
        post("b", 120, Some(150)),
        post("c", 150, Some(150)),
    ];
    let plans = compile_posts(&posts);
    assert!(plans.iter().all(|p| !p.compile));
}

#[test]
fn output_names_get_the_html_extension() {
    assert_eq!(html_file_name(&"my-first-post".to_string()), "my-first-post.html");
    assert_eq!(html_file_name(&"".to_string()), ".html");
}
