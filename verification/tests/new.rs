use hyde::new::write_config;

#[test]
fn the_config_text_names_the_project() {
    let text = write_config("blog", "My Blog", Some("notes and rants"));
    assert_eq!(
        text,
        "name = \"blog\"\ndisplay_name = \"My Blog\"\ndescription = \"notes and rants\"\ntheme = \"default_theme\"\n"
    );
}

#[test]
fn a_missing_description_is_written_empty() {
    let text = write_config("blog", "My Blog", None);
    assert!(text.contains("description = \"\"\n"));
}

#[test]
fn the_config_parses_as_toml() {
    let text = write_config("blog", "My Blog", Some("d"));
    let value: toml::Value = toml::from_str(&text).unwrap();
    assert_eq!(value["name"].as_str(), Some("blog"));
    assert_eq!(value["theme"].as_str(), Some("default_theme"));
}
