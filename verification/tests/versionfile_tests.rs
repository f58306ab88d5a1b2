use monoverse::versionfile::{edit, query};

#[test]
fn test_versionfile_query_first_line() {
    let result = query("1.2.3\nrest\n").unwrap();
    assert_eq!(result.value, "1.2.3");
    assert_eq!(result.line_number, 1);
}

#[test]
fn test_versionfile_query_without_newline() {
    let result = query("1.2.3").unwrap();
    assert_eq!(result.value, "1.2.3");
    assert_eq!(result.line_number, 1);
}

#[test]
fn test_versionfile_query_strips_carriage_return() {
    let result = query("1.2.3\r\nrest").unwrap();
    assert_eq!(result.value, "1.2.3");
}

#[test]
fn test_versionfile_query_empty_file() {
    let result = query("");
    assert!(result.is_err());
    assert!(result
        .unwrap_err()
        .message()
        .contains("Failed to get value from plain text file"));
}

#[test]
fn test_versionfile_edit_replaces_content() {
    assert_eq!(edit("2.0.0").unwrap(), "2.0.0");
}

#[test]
fn test_versionfile_round_trip() {
    let doc = "1.2.3";
    let value = query(doc).unwrap().value;
    assert_eq!(edit(&value).unwrap(), doc);
}
