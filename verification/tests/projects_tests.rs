use monoverse::projects::{
    get_project_file, HelmProject, NodeProject, Project, ProjectType, RustProject, TomlProject,
    VersionfileProject, YamlProject,
};
use monoverse::settings::{ProjectSettings, SettingsError, Settings};
use monoverse::version::{ToVersion, VersionContext};

fn settings_for(project_type: ProjectType) -> ProjectSettings {
    ProjectSettings {
        project_type,
        project_path: String::new(),
        manifest_path: Some("Chart.yaml".to_string()),
        tag_prefix: None,
        selector: None,
        dependents: None,
    }
}

#[test]
fn test_version_context() {
    let project = HelmProject::new(settings_for(ProjectType::Helm), String::new());
    let version_file_content = r#"apiVersion: v2
appVersion: "1.2.3"
description: A Helm chart for Kubernetes
name: test
version: 0.1.0"#;
    let result = project.version_context(version_file_content).unwrap();
    assert_eq!(result.version, "1.2.3".to_version());
    assert_eq!(result.line_number, 2);
}

#[test]
fn test_update_version() {
    let project = HelmProject::new(settings_for(ProjectType::Helm), String::new());
    let version_file_content = r#"apiVersion: v2
description: A Helm chart for Kubernetes
name: test
appVersion: "1.2.3"
version: 0.1.0"#;
    let version_context = VersionContext {
        version: "1.2.3".to_version(),
        next_version: "1.2.4".to_version(),
        line_number: 3,
    };
    let result = project
        .update_version(version_file_content, &version_context)
        .unwrap();
    assert_eq!(
        result,
        r#"apiVersion: v2
description: A Helm chart for Kubernetes
name: test
appVersion: "1.2.4"
version: 0.1.1"#
    );
}

#[test]
fn test_rust_version_context_finds_line() {
    let mut settings = settings_for(ProjectType::Rust);
    settings.manifest_path = Some("Cargo.toml".to_string());
    let project = RustProject::new(settings, String::new());
    let content = "[package]\nname = \"demo\"\nversion = \"1.0.111\"\n";
    let ctx = project.version_context(content).unwrap();
    assert_eq!(ctx.version, "1.0.111".to_version());
    assert_eq!(ctx.line_number, 3);
}

#[test]
fn test_rust_update_version() {
    let mut settings = settings_for(ProjectType::Rust);
    settings.manifest_path = Some("Cargo.toml".to_string());
    let project = RustProject::new(settings, String::new());
    let content = "[package]\nname = \"demo\"\nversion = \"1.0.111\"\n";
    let ctx = VersionContext {
        version: "1.0.111".to_version(),
        next_version: "1.0.112".to_version(),
        line_number: 3,
    };
    let updated = project.update_version(content, &ctx).unwrap();
    assert_eq!(updated, "[package]\nname = \"demo\"\nversion = \"1.0.112\"\n");
}

#[test]
fn test_node_version_context_reads_json() {
    let mut settings = settings_for(ProjectType::Node);
    settings.manifest_path = Some("package.json".to_string());
    let project = NodeProject::new(settings, String::new());
    let content = "{\n  \"name\": \"demo\",\n  \"version\": \"2.3.4\"\n}";
    let ctx = project.version_context(content).unwrap();
    assert_eq!(ctx.version, "2.3.4".to_version());
    assert_eq!(ctx.line_number, 3);
}

#[test]
fn test_node_update_version_preserves_format() {
    let mut settings = settings_for(ProjectType::Node);
    settings.manifest_path = Some("package.json".to_string());
    let project = NodeProject::new(settings, String::new());
    let content = "{\n  \"name\": \"demo\",\n  \"version\": \"2.3.4\"\n}";
    let ctx = VersionContext {
        version: "2.3.4".to_version(),
        next_version: "2.3.5".to_version(),
        line_number: 3,
    };
    let updated = project.update_version(content, &ctx).unwrap();
    assert_eq!(updated, "{\n  \"name\": \"demo\",\n  \"version\": \"2.3.5\"\n}");
}

#[test]
fn test_yaml_project_requires_selector() {
    let mut settings = settings_for(ProjectType::Yaml);
    settings.manifest_path = Some("app.yaml".to_string());
    let project = YamlProject::new(settings, String::new());
    let result = project.version_context("a: 1");
    assert!(result
        .unwrap_err()
        .message()
        .contains("Selector is required for a YAML project"));
}

#[test]
fn test_toml_project_requires_selector() {
    let mut settings = settings_for(ProjectType::Toml);
    settings.manifest_path = Some("app.toml".to_string());
    let project = TomlProject::new(settings, String::new());
    let result = project.version_context("a = 1");
    assert!(result
        .unwrap_err()
        .message()
        .contains("Selector is required for a TOML project"));
}

#[test]
fn test_versionfile_project_round_trip() {
    let mut settings = settings_for(ProjectType::Versionfile);
    settings.manifest_path = Some("VERSION".to_string());
    let project = VersionfileProject::new(settings, String::new());
    let ctx = project.version_context("3.4.5\n").unwrap();
    assert_eq!(ctx.version, "3.4.5".to_version());
    assert_eq!(ctx.line_number, 1);
    let next = VersionContext {
        version: "3.4.5".to_version(),
        next_version: "3.4.6".to_version(),
        line_number: 1,
    };
    assert_eq!(project.update_version("3.4.5\n", &next).unwrap(), "3.4.6");
}

#[test]
fn test_get_project_file_dispatches() {
    let project = get_project_file(settings_for(ProjectType::Helm), String::new());
    assert!(matches!(project, Project::Helm(_)));
    assert_eq!(project.get_manifest_file_path().unwrap(), "Chart.yaml");
}

#[test]
fn test_manifest_path_defaults() {
    let mut s = settings_for(ProjectType::Helm);
    s.manifest_path = None;
    s.project_path = "./charts/app".to_string();
    assert_eq!(s.get_manifest_file_path().unwrap(), "charts/app/Chart.yaml");
    let mut n = settings_for(ProjectType::Node);
    n.manifest_path = None;
    n.project_path = "web".to_string();
    assert_eq!(n.get_manifest_file_path().unwrap(), "web/package.json");
    let mut r = settings_for(ProjectType::Rust);
    r.manifest_path = None;
    r.project_path = String::new();
    assert_eq!(r.get_manifest_file_path().unwrap(), "Cargo.toml");
}

#[test]
fn test_manifest_path_required_for_generic_types() {
    let mut s = settings_for(ProjectType::Toml);
    s.manifest_path = None;
    let err = s.get_manifest_file_path().unwrap_err();
    assert!(err.message().contains("TOML project requires a manifest path"));
}

#[test]
fn test_project_settings_lookup() {
    let settings = Settings {
        projects: vec![
            ("app".to_string(), settings_for(ProjectType::Helm)),
            ("web".to_string(), settings_for(ProjectType::Node)),
        ],
    };
    assert!(matches!(
        settings.project_settings("web").unwrap().project_type,
        ProjectType::Node
    ));
    let err = settings.project_settings("missing").unwrap_err();
    assert!(matches!(err, SettingsError::NoSuchProject { .. }));
    assert!(err.message().contains("No project found with name: missing"));
}

#[test]
fn test_rust_version_context_missing_version() {
    let mut settings = settings_for(ProjectType::Rust);
    settings.manifest_path = Some("Cargo.toml".to_string());
    let project = RustProject::new(settings, String::new());
    let result = project.version_context("[package]\nname = \"demo\"\n");
    assert!(result
        .unwrap_err()
        .message()
        .contains("Failed to parse version from Cargo.toml"));
}

#[test]
fn test_rust_version_context_line_not_found() {
    let mut settings = settings_for(ProjectType::Rust);
    settings.manifest_path = Some("Cargo.toml".to_string());
    let project = RustProject::new(settings, String::new());
    let result = project.version_context("package = { version = \"1.0.0\" }\n");
    assert!(result
        .unwrap_err()
        .message()
        .contains("Failed to find version in Cargo.toml"));
}

#[test]
fn test_manifest_path_override_strips_dot_slash() {
    let mut s = settings_for(ProjectType::Helm);
    s.manifest_path = Some("./charts/app/Chart.yaml".to_string());
    assert_eq!(s.get_manifest_file_path().unwrap(), "charts/app/Chart.yaml");
}
