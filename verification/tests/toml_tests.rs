use monoverse::toml::{edit, query};
use monoverse::version::ToVersion;

#[test]
fn test_edit_top_level() {
    let file_content = r#"version = "1.0.111""#;
    let version = "1.0.112".to_version();
    let selector = "version";
    let new_file_content = edit(file_content, selector, &version.render()).unwrap();
    assert_eq!(
        new_file_content,
        "version = \"1.0.112\"\n" // Note the serializer adds a newline
    );
}

#[test]
fn test_edit_cargo_version() {
    let file_content = r#"[dependencies]
serde = { version = "1.0.195", features = ["derive"] }
serde_json = "1.0.111"
"#;
    let version = "1.0.112".to_version();
    let selector = "dependencies.serde_json";
    let new_file_content = edit(file_content, selector, &version.render()).unwrap();
    assert_eq!(
        new_file_content,
        r#"[dependencies]
serde = { version = "1.0.195", features = ["derive"] }
serde_json = "1.0.112"
"#
    );
}

#[test]
fn test_edit_cargo_version_dict() {
    let file_content = r#"[dependencies]
serde = { version = "1.0.195", features = ["derive"] }
serde_json = "1.0.111"
"#;
    let version = "1.0.196".to_version();
    let selector = "dependencies.serde.version";
    let new_file_content = edit(file_content, selector, &version.render()).unwrap();
    assert_eq!(
        new_file_content,
        r#"[dependencies]
serde = { version = "1.0.196", features = ["derive"] }
serde_json = "1.0.111"
"#
    );
}

#[test]
fn test_edit_array_of_tables() {
    let file_content = r#"[[dependencies]]
        "#;
    let version = "1.0.196".to_version();
    let selector = "dependencies.version";
    let result = edit(file_content, selector, &version.render());
    assert!(result.is_err());
    assert!(result
        .unwrap_err()
        .message()
        .contains("Array of tables not supported for TOML dependent"));
}

#[test]
fn test_query_top_level() {
    let file_content = r#"version = "1.0.111""#;
    let selector = "version";
    let line_context = query(file_content, selector).unwrap();
    assert_eq!(line_context.value, "1.0.111");
    assert_eq!(line_context.line_number, 1);
}

#[test]
fn test_query_cargo_version() {
    let file_content = r#"[dependencies]
serde = { version = "1.0.195", features = ["derive"] }
serde_json = "1.0.111"
"#;
    let selector = "dependencies.serde_json";
    let line_context = query(file_content, selector).unwrap();
    assert_eq!(line_context.value, "1.0.111");
    assert_eq!(line_context.line_number, 3);
}

#[test]
fn test_query_cargo_version_dict() {
    let file_content = r#"[dependencies]
serde = { version = "1.0.195", features = ["derive"] }
serde_json = "1.0.111"
"#;
    let selector = "dependencies.serde.version";
    let line_context = query(file_content, selector).unwrap();
    assert_eq!(line_context.value, "1.0.195");
    assert_eq!(line_context.line_number, 2);
}

#[test]
fn test_query_missing_key() {
    let result = query("a = 1\n", "missing");
    assert!(result.is_err());
    assert!(result
        .unwrap_err()
        .message()
        .contains("Key not found in TOML file for selector: missing"));
}

#[test]
fn test_query_non_string_value() {
    let result = query("a = 1\n", "a");
    assert!(result.is_err());
    assert!(result
        .unwrap_err()
        .message()
        .contains("Failed to parse value from TOML file for selector: a"));
}

#[test]
fn test_edit_parse_failure() {
    let result = edit("not [ valid toml", "a", "1");
    assert!(result.is_err());
    assert!(result.unwrap_err().message().contains("Failed to parse document"));
}

#[test]
fn test_edit_creates_missing_key() {
    let edited = edit("name = \"x\"\n", "version", "1.2.3").unwrap();
    let queried = query(&edited, "version").unwrap();
    assert_eq!(queried.value, "1.2.3");
}

#[test]
fn test_query_value_only() {
    let value = monoverse::toml::query_value("[package]\nversion = \"3.4.5\"\n", "package.version")
        .unwrap();
    assert_eq!(value, "3.4.5");
}

#[test]
fn test_toml_round_trip() {
    let doc = "[package]\nname = \"demo\"\nversion = \"1.0.111\"\n";
    let value = query(doc, "package.version").unwrap().value;
    assert_eq!(edit(doc, "package.version", &value).unwrap(), doc);
}
