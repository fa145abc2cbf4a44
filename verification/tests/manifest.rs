use vercheck::manifest::{extract_version, strip_quotes, ExtractError};

#[test]
fn extracts_the_version_of_the_package() {
    assert_eq!(extract_version("[package]\nversion = \"1.2.3\""), Ok("1.2.3".to_string()));
}

#[test]
fn missing_package_table() {
    assert_eq!(extract_version("version = \"1.2.3\""), Err(ExtractError::MissingPackage));
    assert_eq!(extract_version(""), Err(ExtractError::MissingPackage));
    assert_eq!(
        extract_version("[dependencies]\nversion = \"1.2.3\""),
        Err(ExtractError::MissingPackage)
    );
}

#[test]
fn missing_version_field() {
    assert_eq!(extract_version("[package]"), Err(ExtractError::MissingVersion));
    assert_eq!(
        extract_version("[package]\nname = \"demo\"\n[other]\nversion = \"1.2.3\""),
        Err(ExtractError::MissingVersion)
    );
}

#[test]
fn a_package_that_is_no_table_has_no_version() {
    assert_eq!(extract_version("package = 5"), Err(ExtractError::MissingVersion));
    assert_eq!(extract_version("package = \"version\""), Err(ExtractError::MissingVersion));
    assert_eq!(extract_version("package = [1, 2]"), Err(ExtractError::MissingVersion));
}

#[test]
fn malformed_text_is_a_parse_error_with_the_parser_message() {
    let raw = "[package\nversion = \"1.2.3\"";
    let expected = toml::from_str::<toml::Value>(raw).unwrap_err().to_string();
    assert!(!expected.is_empty());
    assert_ne!(expected, raw);
    assert_eq!(extract_version(raw), Err(ExtractError::Parse(expected)));
    assert!(matches!(extract_version("[package]\nversion = "), Err(ExtractError::Parse(_))));
    assert!(matches!(extract_version("= 1"), Err(ExtractError::Parse(_))));
}

#[test]
fn a_duplicate_key_is_a_parse_error() {
    assert!(matches!(
        extract_version("[package]\nversion = \"1\"\nversion = \"2\""),
        Err(ExtractError::Parse(_))
    ));
}

#[test]
fn reads_the_version_among_other_entries() {
    let raw = "# a manifest\n[package]\nname = \"demo\"\nversion = \"0.10.7\"\nauthors = [\"a\", \"b\"]\n\n[dependencies]\nserde = { version = \"1\", features = [\"derive\"] }\n";
    assert_eq!(extract_version(raw), Ok("0.10.7".to_string()));
}

#[test]
fn reads_the_version_from_other_ways_to_write_the_table() {
    assert_eq!(extract_version("package.version = \"3.2.1\""), Ok("3.2.1".to_string()));
    assert_eq!(extract_version("package = { version = \"3.2.1\" }"), Ok("3.2.1".to_string()));
    assert_eq!(extract_version("[package]\nversion = '3.2.1'"), Ok("3.2.1".to_string()));
}

#[test]
fn a_version_that_is_no_string_is_given_as_it_is_written() {
    assert_eq!(extract_version("[package]\nversion = 7"), Ok("7".to_string()));
    assert_eq!(extract_version("[package]\nversion = true"), Ok("true".to_string()));
}

#[test]
fn strips_the_quotes_around_a_text() {
    assert_eq!(strip_quotes("\"1.2.3\""), "1.2.3");
    assert_eq!(strip_quotes("1.2.3"), "1.2.3");
    assert_eq!(strip_quotes("\"\"1.2.3\""), "1.2.3");
    assert_eq!(strip_quotes("\"1.2.3"), "1.2.3");
    assert_eq!(strip_quotes("1.2.3\"\"\""), "1.2.3");
    assert_eq!(strip_quotes("\"a\"b\""), "a\"b");
    assert_eq!(strip_quotes("\"\""), "");
    assert_eq!(strip_quotes("\""), "");
    assert_eq!(strip_quotes(""), "");
    assert_eq!(strip_quotes("'1.2.3'"), "'1.2.3'");
    assert_eq!(strip_quotes("\" 1 \""), " 1 ");
}

#[test]
fn strips_quotes_as_the_standard_library_trims_them() {
    let samples = ["", "\"", "\"\"", "\"x\"", "x\"", "\"x", "\"\"x\"y\"\"", "é\"", "\"é", "plain"];
    for sample in samples {
        assert_eq!(strip_quotes(sample), sample.trim_matches('"'));
    }
}

#[test]
fn extract_error_messages() {
    assert_eq!(ExtractError::MissingPackage.message(), "Missing package table");
    assert_eq!(ExtractError::MissingVersion.message(), "Missing version field");
    assert_eq!(ExtractError::Parse("bad".to_string()).message(), "bad");
}
