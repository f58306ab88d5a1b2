use monoverse::dependents::{
    get_dependent, Dependent, DependentHandle, DependentType, DependentUpdateOptions,
    HelmDependent, RegexDependent, TomlDependent, YamlDepedent,
};
use monoverse::settings::DependentSettings;
use monoverse::version::ToVersion;

#[test]
fn test_update_regex() {
    let file_content = r#"version = "0.1.0""#;
    let version = "0.2.0".to_version();
    let settings = DependentSettings {
        dependent_type: DependentType::Regex,
        dependent_path: "Cargo.toml".to_string(),
        selector: Some(r#"(\d+\.\d+\.\d+)"#.to_string()),
        replace: None,
    };
    let dependent = RegexDependent { settings, repo_path: String::new() };
    let new_file_content = dependent.update_version(file_content, &version).unwrap();
    assert_eq!(new_file_content, r#"version = "0.2.0""#);
}

#[test]
fn test_update_regex_with_replace() {
    let file_content = r#"version = "0.1.0""#;
    let version = "0.2.0".to_version();
    let settings = DependentSettings {
        dependent_type: DependentType::Regex,
        dependent_path: "Cargo.toml".to_string(),
        selector: Some(r#"version = "(.*)""#.to_string()),
        replace: Some(r#"version = "{{version}}""#.to_string()),
    };
    let dependent = RegexDependent { settings, repo_path: String::new() };
    let new_file_content = dependent.update_version(file_content, &version).unwrap();
    assert_eq!(new_file_content, r#"version = "0.2.0""#);
}

#[test]
fn test_update_regex_multi_line() {
    let file_content = r#"
[package]
version = "0.1.0"
"#;
    let version = "0.2.0".to_version();
    let settings = DependentSettings {
        dependent_type: DependentType::Regex,
        dependent_path: "Cargo.toml".to_string(),
        selector: Some(r#"version = "(.*)""#.to_string()),
        replace: Some(r#"version = "{{version}}""#.to_string()),
    };
    let dependent = RegexDependent { settings, repo_path: String::new() };
    let new_file_content = dependent.update_version(file_content, &version).unwrap();
    assert_eq!(
        new_file_content,
        r#"
[package]
version = "0.2.0"
"#
    );
}

#[test]
fn test_update_regex_bad_pattern() {
    let settings = DependentSettings {
        dependent_type: DependentType::Regex,
        dependent_path: "f".to_string(),
        selector: Some("(".to_string()),
        replace: None,
    };
    let dependent = RegexDependent { settings, repo_path: String::new() };
    let result = dependent.update_version("x", &"1.0.0".to_version());
    assert!(result.is_err());
    assert!(result.unwrap_err().message().contains("Failed to build regex pattern"));
}

#[test]
fn test_regex_selector_required() {
    let settings = DependentSettings {
        dependent_type: DependentType::Regex,
        dependent_path: "f".to_string(),
        selector: None,
        replace: None,
    };
    let dependent = RegexDependent { settings, repo_path: String::new() };
    let result = dependent.update_version("x", &"1.0.0".to_version());
    assert!(result
        .unwrap_err()
        .message()
        .contains("Selector is required for regex dependent"));
}

#[test]
fn test_yaml_dependent_updates_selector() {
    let settings = DependentSettings {
        dependent_type: DependentType::Yaml,
        dependent_path: "values.yaml".to_string(),
        selector: Some("image.tag".to_string()),
        replace: None,
    };
    let dependent = YamlDepedent { settings, repo_path: String::new() };
    let content = "image:\n  tag: \"1.0.0\"\n  repo: r";
    let updated = dependent.update_version(content, &"2.0.0".to_version()).unwrap();
    assert_eq!(updated, "image:\n  tag: \"2.0.0\"\n  repo: r");
}

#[test]
fn test_yaml_dependent_selector_required() {
    let settings = DependentSettings {
        dependent_type: DependentType::Yaml,
        dependent_path: "values.yaml".to_string(),
        selector: None,
        replace: None,
    };
    let dependent = YamlDepedent { settings, repo_path: String::new() };
    let result = dependent.update_version("a: 1", &"2.0.0".to_version());
    assert!(result
        .unwrap_err()
        .message()
        .contains("Selector is required for YAML dependent"));
}

#[test]
fn test_toml_dependent_selector_required() {
    let settings = DependentSettings {
        dependent_type: DependentType::Toml,
        dependent_path: "a.toml".to_string(),
        selector: None,
        replace: None,
    };
    let dependent = TomlDependent { settings, repo_path: String::new() };
    let result = dependent.update_version("a = 1", &"2.0.0".to_version());
    assert!(result
        .unwrap_err()
        .message()
        .contains("Selector is required for TOML dependent"));
}

#[test]
fn test_toml_dependent_array_of_tables_leaves_text() {
    let settings = DependentSettings {
        dependent_type: DependentType::Toml,
        dependent_path: "a.toml".to_string(),
        selector: Some("dependencies.version".to_string()),
        replace: None,
    };
    let dependent = TomlDependent { settings, repo_path: String::new() };
    let result = dependent.update_version("[[dependencies]]\n", &"2.0.0".to_version());
    assert!(result
        .unwrap_err()
        .message()
        .contains("Array of tables not supported for TOML dependent"));
}

#[test]
fn test_helm_dependent_edits_chart_version() {
    let settings = DependentSettings {
        dependent_type: DependentType::Helm,
        dependent_path: "charts/app".to_string(),
        selector: Some("dependencies[name=common].version".to_string()),
        replace: None,
    };
    let dependent = HelmDependent { settings, repo_path: String::new() };
    let content = "dependencies:\n  - name: common\n    version: \"1.0.0\"";
    let updated = dependent.update_version(content, &"1.1.0".to_version()).unwrap();
    assert_eq!(updated, "dependencies:\n  - name: common\n    version: \"1.1.0\"");
}

#[test]
fn test_get_dependent_picks_type_and_path() {
    let settings = DependentSettings {
        dependent_type: DependentType::Helm,
        dependent_path: "charts/app".to_string(),
        selector: Some("version".to_string()),
        replace: None,
    };
    let handle = get_dependent(settings, String::new()).unwrap();
    assert!(matches!(handle, DependentHandle::Helm(_)));
    assert_eq!(handle.get_file_path(), "charts/app/Chart.yaml");
}

#[test]
fn test_dependent_update_options_default() {
    let options = DependentUpdateOptions::default();
    assert!(!options.helm_dependency_update);
}
