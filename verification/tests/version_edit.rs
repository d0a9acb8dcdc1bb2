use cargo_sane::version_edit::{update_version_in_content, UpdateError};

#[test]
fn detailed_entry_is_preferred_over_simple() {
    let content = "a = \"1\"\na = { version = \"2\" }\n";
    assert_eq!(update_version_in_content(content, "a", "9").unwrap(), "a = \"1\"\na = { version = \"9\" }\n");
}

#[test]
fn first_entry_is_edited() {
    let content = "x = \"1\"\nx = \"2\"\n";
    assert_eq!(update_version_in_content(content, "x", "3").unwrap(), "x = \"3\"\nx = \"2\"\n");
}

#[test]
fn entry_must_start_a_line() {
    let content = "# serde = \"1.0\"\nmyserde = \"2\"\n";
    match update_version_in_content(content, "serde", "3") {
        Err(UpdateError::DependencyNotFound { name }) => assert_eq!(name, "serde"),
        other => panic!("unexpected {:?}", other),
    }
}

#[test]
fn whitespace_and_line_breaks_are_allowed() {
    let content = "[dependencies]\n\t serde\t=\u{a0}{\n  version =\n \"1.0\" }\n";
    assert_eq!(
        update_version_in_content(content, "serde", "1.1").unwrap(),
        "[dependencies]\n\t serde\t=\u{a0}{\n  version =\n \"1.1\" }\n"
    );
}

#[test]
fn empty_version_is_not_an_entry() {
    let content = "serde = \"\"\n";
    assert!(update_version_in_content(content, "serde", "1").is_err());
}

#[test]
fn unterminated_version_is_not_an_entry() {
    let content = "serde = \"1.0";
    assert!(update_version_in_content(content, "serde", "2").is_err());
}

#[test]
fn dependency_name_is_literal() {
    let content = "a.b = \"1\"\naxb = \"2\"\n";
    assert_eq!(update_version_in_content(content, "a.b", "3").unwrap(), "a.b = \"3\"\naxb = \"2\"\n");
    assert_eq!(update_version_in_content(content, "axb", "4").unwrap(), "a.b = \"1\"\naxb = \"4\"\n");
}

#[test]
fn same_version_leaves_text_unchanged() {
    let content = "[dependencies]\nserde = { version = \"1.0.5\", features = [\"derive\"] }\n";
    assert_eq!(update_version_in_content(content, "serde", "1.0.5").unwrap(), content);
}

#[test]
fn second_update_overrides_first() {
    let content = "tokio = \"1.0\"\n";
    let once = update_version_in_content(content, "tokio", "1.5").unwrap();
    let twice = update_version_in_content(&once, "tokio", "1.9").unwrap();
    assert_eq!(twice, update_version_in_content(content, "tokio", "1.9").unwrap());
}

#[test]
fn edit_is_undone_by_writing_back_the_old_version() {
    let content = "[dependencies]\nserde = { version = \"1.0.0\", features = [\"derive\"] }\ntokio = \"1.0\"\n";
    let edited = update_version_in_content(content, "serde", "1.0.200").unwrap();
    let restored = update_version_in_content(&edited, "serde", "1.0.0").unwrap();
    assert_eq!(restored, content);
}

#[test]
fn quoted_name_can_break_the_round_trip() {
    let content = "\"a =\n\"OLD\"X\"\n";
    let edited = update_version_in_content(content, "\"a", "a = { version = ").unwrap();
    assert_eq!(edited, "\"a =\n\"a = { version = \"X\"\n");
    let back = update_version_in_content(&edited, "\"a", "OLD").unwrap();
    assert_ne!(back, content);
}
