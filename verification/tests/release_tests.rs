use monoverse::gitpaths::{any_path_under_root, release_due, under_root};
use monoverse::projects::{get_project_file, ProjectType};
use monoverse::release::{
    release_start, release_step, ReleaseAction, ReleaseConfig, ReleaseEvent, ReleaseState,
};
use monoverse::settings::ProjectSettings;
use monoverse::versionfile;

fn config() -> ReleaseConfig {
    ReleaseConfig {
        project_name: "app".to_string(),
        force: false,
        commit: true,
        tag: true,
        tag_prefix: None,
        manifest_path: "app/VERSION".to_string(),
        project_root: "app".to_string(),
        dependent_count: 1,
    }
}

fn versionfile_project() -> monoverse::projects::Project {
    get_project_file(
        ProjectSettings {
            project_type: ProjectType::Versionfile,
            project_path: "app".to_string(),
            manifest_path: Some("app/VERSION".to_string()),
            tag_prefix: None,
            selector: None,
            dependents: None,
        },
        String::new(),
    )
}

#[test]
fn test_guard_rejects_modified_manifest() {
    let project = versionfile_project();
    let cfg = config();
    let (state, action) = release_start(&cfg);
    assert!(matches!(action, ReleaseAction::QueryStatus { .. }));
    let (state, action) = release_step(
        &project,
        &cfg,
        state,
        ReleaseEvent::ManifestStatus { wt_modified: true, index_modified: false },
    );
    assert!(matches!(state, ReleaseState::Done));
    match action {
        ReleaseAction::Fail { error } => assert!(error
            .message()
            .contains("has been modified. Please stash or commit your changes")),
        _ => panic!("expected a failure"),
    }
}

#[test]
fn test_release_skipped_when_unchanged() {
    let project = versionfile_project();
    let cfg = config();
    let (state, _) = release_start(&cfg);
    let (state, action) = release_step(
        &project,
        &cfg,
        state,
        ReleaseEvent::ManifestStatus { wt_modified: false, index_modified: false },
    );
    assert!(matches!(action, ReleaseAction::ReadManifest { .. }));
    let (state, action) = release_step(
        &project,
        &cfg,
        state,
        ReleaseEvent::ManifestText { content: "1.2.3\n".to_string() },
    );
    match &action {
        ReleaseAction::CheckChanged { path, line, root } => {
            assert_eq!(path, "app/VERSION");
            assert_eq!(*line, 1);
            assert_eq!(root, "app");
        },
        _ => panic!("expected a change check"),
    }
    let (state, action) =
        release_step(&project, &cfg, state, ReleaseEvent::ChangedSince { changed: false });
    assert!(matches!(state, ReleaseState::Done));
    assert!(matches!(action, ReleaseAction::Finish { released: None }));
}

#[test]
fn test_release_full_flow_with_commit_and_tag() {
    let project = versionfile_project();
    let cfg = config();
    let (state, _) = release_start(&cfg);
    let (state, _) = release_step(
        &project,
        &cfg,
        state,
        ReleaseEvent::ManifestStatus { wt_modified: false, index_modified: false },
    );
    let (state, _) = release_step(
        &project,
        &cfg,
        state,
        ReleaseEvent::ManifestText { content: "1.2.3\n".to_string() },
    );
    let (state, action) =
        release_step(&project, &cfg, state, ReleaseEvent::ChangedSince { changed: true });
    let released = match &action {
        ReleaseAction::WriteManifest { path, content } => {
            assert_eq!(path, "app/VERSION");
            content.clone()
        },
        _ => panic!("expected a manifest write"),
    };
    // The new manifest content is exactly the bumped version.
    let bumped = versionfile::query(&released).unwrap().value;
    assert_eq!(bumped, released);
    let (state, action) = release_step(&project, &cfg, state, ReleaseEvent::ManifestWritten);
    match &action {
        ReleaseAction::UpdateDependent { index, .. } => assert_eq!(*index, 0),
        _ => panic!("expected a dependent update"),
    }
    let (state, action) = release_step(
        &project,
        &cfg,
        state,
        ReleaseEvent::DependentUpdated { paths: vec!["charts/app/Chart.yaml".to_string()] },
    );
    match &action {
        ReleaseAction::CommitFiles { paths, message } => {
            assert_eq!(
                paths,
                &vec!["charts/app/Chart.yaml".to_string(), "app/VERSION".to_string()]
            );
            assert!(message.starts_with("chore: release app "));
        },
        _ => panic!("expected a commit"),
    }
    let (state, action) = release_step(&project, &cfg, state, ReleaseEvent::Committed);
    match &action {
        ReleaseAction::CreateTag { name } => assert!(name.starts_with("app-")),
        _ => panic!("expected a tag"),
    }
    let (state, action) = release_step(&project, &cfg, state, ReleaseEvent::Tagged);
    assert!(matches!(state, ReleaseState::Done));
    assert!(matches!(action, ReleaseAction::Finish { released: Some(_) }));
}

#[test]
fn test_unexpected_event_fails() {
    let project = versionfile_project();
    let cfg = config();
    let (state, _) = release_start(&cfg);
    let (_, action) = release_step(&project, &cfg, state, ReleaseEvent::Committed);
    assert!(matches!(action, ReleaseAction::Fail { .. }));
}

#[test]
fn test_under_root_is_structural() {
    assert!(under_root(b"foo/bar.rs", b"foo"));
    assert!(!under_root(b"foo-bar/baz.rs", b"foo"));
    assert!(under_root(b"foo/bar.rs", b""));
    assert!(!under_root(b"./foo/bar.rs", b"foo"));
    assert!(under_root(b"foo//bar.rs", b"foo/"));
}

#[test]
fn test_any_path_under_root() {
    let paths = vec!["web/a.ts".to_string(), "app/src/main.rs".to_string()];
    assert!(any_path_under_root(&paths, "app"));
    assert!(!any_path_under_root(&paths, "lib"));
    assert!(release_due(true, false));
    assert!(release_due(false, true));
    assert!(!release_due(false, false));
}

#[test]
fn test_under_root_normalizes_interior_dots() {
    assert!(under_root(b"a/./b/c.rs", b"a/b"));
    assert!(under_root(b"./x/y.rs", b"./x"));
    assert!(!under_root(b"./x/y.rs", b"x/extra/deep"));
}
