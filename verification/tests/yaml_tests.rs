use monoverse::yaml::{edit, query};

#[test]
fn test_edit() {
    let file_content = r#"appVersion: "1.2.3""#;
    let selector = "appVersion";
    let new_value = "1.2.4";
    let result = edit(file_content, selector, new_value).unwrap();
    assert_eq!(result, r#"appVersion: "1.2.4""#);
}

#[test]
fn test_edit_nested() {
    let file_content = r#"single_key: "single_value"
test_key:
    nested_key: "value"
dependencies:
    serde: "1.0""#;
    let selector = "dependencies.serde";
    let new_value = "2.0";
    let result = edit(file_content, selector, new_value).unwrap();
    assert_eq!(
        result,
        r#"single_key: "single_value"
test_key:
    nested_key: "value"
dependencies:
    serde: "2.0""#
    );
}

#[test]
fn test_edit_comment_preservation() {
    let file_content = r#"appVersion: "1.2.3" # comment"#;
    let selector = "appVersion";
    let new_value = "1.2.4";
    let result = edit(file_content, selector, new_value).unwrap();
    assert_eq!(result, r#"appVersion: "1.2.4" # comment"#);
}

#[test]
fn test_query() {
    let file_content = r#"appVersion: "1.2.3""#;
    let selector = "appVersion";
    let result = query(file_content, selector).unwrap();
    assert_eq!(result.value, "1.2.3");
    assert_eq!(result.line_number, 1);
}

#[test]
fn test_query_nested() {
    let file_content = r#"single_key: "single_value"
test_key:
  nested_key: "value"
dependencies:
  serde: "1.0""#;
    let selector = "dependencies.serde";
    let result = query(file_content, selector).unwrap();
    assert_eq!(result.value, "1.0");
    assert_eq!(result.line_number, 5);
}

#[test]
fn test_query_sequence_index() {
    let file_content = r#"dependencies:
  - name: common
    version: "1.0.0"
  - name: other
    version: "2.0.0""#;
    let selector = "dependencies[0].version";
    let result = query(file_content, selector).unwrap();
    assert_eq!(result.value, "1.0.0");
    assert_eq!(result.line_number, 3);
}

#[test]
fn test_query_sequence_index_scalar_item() {
    let file_content = r#"dependencies:
  - "alpha"
  - "beta""#;
    let selector = "dependencies[0]";
    let result = query(file_content, selector).unwrap();
    assert_eq!(result.value, "alpha");
    assert_eq!(result.line_number, 2);
}

#[test]
fn test_query_sequence_index_out_of_range() {
    let file_content = r#"dependencies:
  - name: common
    version: "1.0.0""#;
    let selector = "dependencies[2].version";
    let result = query(file_content, selector);
    match result {
        Ok(_) => panic!("Expected an error"),
        Err(e) => assert!(e.message().contains("Key 'dependencies[2]' not found")),
    }
}

#[test]
fn test_query_filter_on_non_sequence() {
    let file_content = r#"dependencies:
  name: common
  version: "1.0.0""#;
    let selector = "dependencies[name=common].version";
    let result = query(file_content, selector);
    match result {
        Ok(_) => panic!("Expected an error"),
        Err(e) => assert!(e
            .message()
            .contains("Value for 'dependencies[name=common]' is not a sequence")),
    }
}

#[test]
fn test_query_filter_key_missing_in_item() {
    let file_content = r#"dependencies:
  - version: "1.0.0""#;
    let selector = "dependencies[name=common].version";
    let result = query(file_content, selector);
    match result {
        Ok(_) => panic!("Expected an error"),
        Err(e) => assert!(e
            .message()
            .contains("Key 'dependencies[name=common]' not found")),
    }
}

#[test]
fn test_query_invalid_index_format() {
    let file_content = r#"dependencies:
  - name: common
    version: "1.0.0""#;
    let selector = "dependencies[abc].version";
    let result = query(file_content, selector);
    match result {
        Ok(_) => panic!("Expected an error"),
        Err(e) => assert!(e
            .message()
            .contains("Selector segment 'dependencies[abc]' has an invalid index")),
    }
}

#[test]
fn test_query_missing_closing_bracket() {
    let file_content = r#"dependencies:
  - name: common
    version: "1.0.0""#;
    let selector = "dependencies[0.version";
    let result = query(file_content, selector);
    match result {
        Ok(_) => panic!("Expected an error"),
        Err(e) => assert!(e
            .message()
            .contains("Selector segment 'dependencies[0' is missing ']'")),
    }
}

#[test]
fn test_query_sequence_filter() {
    let file_content = r#"dependencies:
  - name: common
    version: "1.0.0"
  - name: other
    version: "2.0.0""#;
    let selector = "dependencies[name=common].version";
    let result = query(file_content, selector).unwrap();
    assert_eq!(result.value, "1.0.0");
    assert_eq!(result.line_number, 3);
}

#[test]
fn test_edit_sequence_filter() {
    let file_content = r#"dependencies:
  - name: common
    version: "1.0.0"
  - name: other
    version: "2.0.0""#;
    let selector = "dependencies[name=other].version";
    let result = edit(file_content, selector, "2.1.0").unwrap();
    assert_eq!(
        result,
        r#"dependencies:
  - name: common
    version: "1.0.0"
  - name: other
    version: "2.1.0""#
    );
}

#[test]
fn test_query_nested_sequence_filter() {
    let file_content = r#"groups:
  - name: app
    dependencies:
      - name: common
        version: "1.0.0"
      - name: other
        version: "2.0.0""#;
    let selector = "groups[name=app].dependencies[name=common].version";
    let result = query(file_content, selector).unwrap();
    assert_eq!(result.value, "1.0.0");
    assert_eq!(result.line_number, 5);
}

#[test]
fn test_query_not_found() {
    let file_content = r#"appVersion: "1.2.3"
                "#;
    let selector = "not_found";
    let result = query(file_content, selector);
    match result {
        Ok(_) => panic!("Expected an error"),
        Err(e) => assert!(e.message().contains("Key 'not_found' not found")),
    }
}

#[test]
fn test_query_nested_not_found() {
    let file_content = r#"single_key: "single_value"
test_key:
    nested_key: "value"
dependencies:
    serde: "1.0""#;
    let selector = "dependencies.not_found";
    let result = query(file_content, selector);
    match result {
        Ok(_) => panic!("Expected an error"),
        Err(e) => assert!(e
            .message()
            .contains("Key 'dependencies.not_found' not found")),
    }
}

#[test]
fn test_query_nested_not_scalar() {
    let file_content = r#"single_key: "single_value"
test_key:
    nested_key: "value"
dependencies:
    serde:
        version: "1.0""#;
    let selector = "dependencies.serde";
    let result = query(file_content, selector);
    match result {
        Ok(_) => panic!("Expected an error"),
        Err(e) => assert!(e
            .message()
            .contains("Value for 'dependencies.serde' is not a scalar")),
    }
}

#[test]
fn test_query_nested_not_mapping() {
    let file_content = r#"single_key: "single_value"
test_key:
    nested_key: "value"
dependencies:
    - serde"#;
    let selector = "dependencies.serde";
    let result = query(file_content, selector);
    match result {
        Ok(_) => panic!("Expected an error"),
        Err(e) => assert!(e
            .message()
            .contains("Value for 'dependencies.serde' is not a mapping")),
    }
}

#[test]
fn test_edit_query_round_trip_representative_selectors() {
    let doc = r#"top: plain
quoted: "1.2.3"
nested:
  inner: 'single'
items:
  - name: a
    version: "0.1.0"
  - name: b
    version: "0.2.0""#;
    for selector in [
        "top",
        "quoted",
        "nested.inner",
        "items[0].version",
        "items[name=b].version",
    ] {
        let value = query(doc, selector).unwrap().value;
        let edited = edit(doc, selector, &value).unwrap();
        assert_eq!(edited, doc, "round trip failed for selector {}", selector);
    }
}

#[test]
fn test_query_empty_segment() {
    let result = query("a: 1", "a..b");
    match result {
        Ok(_) => panic!("Expected an error"),
        Err(e) => assert!(e.message().contains("Selector contains an empty segment")),
    }
}

#[test]
fn test_query_empty_filter_value() {
    let result = query("a: 1", "a[k=]");
    match result {
        Ok(_) => panic!("Expected an error"),
        Err(e) => assert!(e.message().contains("has an empty filter value")),
    }
}

#[test]
fn test_query_empty_filter_key() {
    let result = query("a: 1", "a[=v]");
    match result {
        Ok(_) => panic!("Expected an error"),
        Err(e) => assert!(e.message().contains("has an empty filter key")),
    }
}

#[test]
fn test_query_missing_key_before_bracket() {
    let result = query("a: 1", "[0]");
    match result {
        Ok(_) => panic!("Expected an error"),
        Err(e) => assert!(e.message().contains("is missing a key")),
    }
}

#[test]
fn test_query_quoted_filter_value() {
    let file_content = r#"dependencies:
  - name: common
    version: "1.0.0""#;
    let result = query(file_content, r#"dependencies[name="common"].version"#).unwrap();
    assert_eq!(result.value, "1.0.0");
}

#[test]
fn test_query_empty_document() {
    let result = query("", "a");
    match result {
        Ok(_) => panic!("Expected an error"),
        Err(e) => assert!(e
            .message()
            .contains("YAML document does not contain a root node")),
    }
}

#[test]
fn test_query_unparsable_document() {
    let result = query("a: [unclosed", "a");
    match result {
        Ok(_) => panic!("Expected an error"),
        Err(e) => assert!(e.message().contains("Failed to parse document")),
    }
}

#[test]
fn test_query_rejects_byte_order_mark() {
    let result = query("\u{feff}a: b", "a");
    match result {
        Ok(_) => panic!("Expected an error"),
        Err(e) => assert!(e.message().contains("byte-order mark")),
    }
}

#[test]
fn test_edit_rejects_byte_order_mark() {
    let result = edit("\u{feff}\u{e4}: x", "\u{e4}", "y");
    match result {
        Ok(_) => panic!("Expected an error"),
        Err(e) => assert!(e.message().contains("byte-order mark")),
    }
}
