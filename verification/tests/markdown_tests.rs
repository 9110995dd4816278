use rustykelvinbot::text::markdown::RKBMarkdown;

#[test]
fn renders_markdown_as_plain_text() {
    let parsed = RKBMarkdown::from("# Hi *Earth*!").unwrap();
    assert_eq!(parsed.to_string(), "Hi Earth!");
}

#[test]
fn strips_emphasis_and_code_markup() {
    let parsed = RKBMarkdown::from("some **bold** and `code` here").unwrap();
    assert_eq!(parsed.to_string(), "some bold and code here");
}

#[test]
fn keeps_plain_text_unchanged() {
    let parsed = RKBMarkdown::from("just words").unwrap();
    assert_eq!(parsed.to_string(), "just words");
}

#[test]
fn rendering_is_deterministic_in_the_source_text() {
    let first = RKBMarkdown::from("# Hi *Earth*!").unwrap().to_string();
    let second = RKBMarkdown::from("# Hi *Earth*!").unwrap().to_string();
    assert_eq!(first, second);
}
