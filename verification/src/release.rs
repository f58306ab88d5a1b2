//! The release orchestrator, as a state machine: guard, decide, edit,
//! propagate, then optionally commit and tag.  Each step consumes one
//! event from the caller (a version-control status, the manifest text, the
//! change-detection verdict, completion notices) and answers with the next
//! action to perform.  Every decision the machine takes, and every value
//! it puts into an action, is pinned by the step contract; the caller only
//! moves bytes and runs the version control.

use vstd::prelude::*;
use vstd::string::StringExecFns;
use vstd::utf8::encode_utf8;

use crate::dependents::clone_string;
use crate::projects::{
    update_version_post, version_context_post, opt_str_view, Project, ProjectError,
};
use crate::version::{is_bump_of, spec_version_chars, Version, VersionContext};

verus! {

/// Everything the orchestrator needs to know up front.
pub struct ReleaseConfig {
    pub project_name: String,
    pub force: bool,
    pub commit: bool,
    pub tag: bool,
    pub tag_prefix: Option<String>,
    pub manifest_path: String,
    pub project_root: String,
    pub dependent_count: usize,
}

/// What can abort a release.
#[derive(Debug)]
pub enum ReleaseError {
    /// The manifest has uncommitted changes; force does not bypass this.
    ManifestModified { path: String },
    /// Reading or rewriting the manifest failed.
    Project { inner: ProjectError },
    /// The caller handed the machine an event its state does not expect.
    UnexpectedEvent,
}

pub enum SpecReleaseError {
    ManifestModified { path: Seq<char> },
    Project { inner: crate::projects::SpecProjectError },
    UnexpectedEvent,
}

impl View for ReleaseError {
    type V = SpecReleaseError;

    open spec fn view(&self) -> SpecReleaseError {
        match self {
            ReleaseError::ManifestModified { path } => SpecReleaseError::ManifestModified {
                path: path@,
            },
            ReleaseError::Project { inner } => SpecReleaseError::Project { inner: inner@ },
            ReleaseError::UnexpectedEvent => SpecReleaseError::UnexpectedEvent,
        }
    }
}

impl ReleaseError {
    /// Human-readable description; presentation only.
    pub fn message(&self) -> String {
        match self {
            ReleaseError::ManifestModified { path } => String::from_str("The version file '")
                .concat(path.as_str()).concat(
                "' has been modified. Please stash or commit your changes before releasing.",
            ),
            ReleaseError::Project { inner } => inner.message(),
            ReleaseError::UnexpectedEvent => String::from_str(
                "The release flow received an event out of order",
            ),
        }
    }
}

/// Where the release stands.
pub enum ReleaseState {
    /// Waiting for the manifest's version-control status.
    Guard,
    /// Waiting for the manifest's text.
    AwaitManifest,
    /// Waiting for the change-detection verdict.
    AwaitChange { ctx: VersionContext, content: String },
    /// Waiting for the rewritten manifest to reach disk.
    AwaitWrite { next: Version },
    /// Waiting for the dependent at `index` to be updated.
    Propagate { next: Version, index: usize, files: Vec<String> },
    /// Waiting for the release commit.
    AwaitCommit { next: Version },
    /// Waiting for the release tag.
    AwaitTag { next: Version },
    /// Finished, successfully or not.
    Done,
}

/// What the caller reports back to the machine.
pub enum ReleaseEvent {
    ManifestStatus { wt_modified: bool, index_modified: bool },
    ManifestText { content: String },
    ChangedSince { changed: bool },
    ManifestWritten,
    DependentUpdated { paths: Vec<String> },
    Committed,
    Tagged,
}

/// What the caller must do next.
pub enum ReleaseAction {
    /// Ask the version control for the file's worktree and index status.
    QueryStatus { path: String },
    /// Read the file.
    ReadManifest { path: String },
    /// Blame the line, then diff that commit against the head, and report
    /// whether any changed path lies under the root.
    CheckChanged { path: String, line: usize, root: String },
    /// Write the file.
    WriteManifest { path: String, content: String },
    /// Update the dependent at this index with the released version.
    UpdateDependent { index: usize, version: Version },
    /// Stage these paths and commit with this message.
    CommitFiles { paths: Vec<String>, message: String },
    /// Tag the new commit with this name.
    CreateTag { name: String },
    /// Stop; print the version when one was released.
    Finish { released: Option<Version> },
    /// Stop with this error.
    Fail { error: ReleaseError },
}

/// The commit message of a release.
pub open spec fn spec_commit_message(project: Seq<char>, next: Version) -> Seq<char> {
    "chore: release "@ + project + " "@ + spec_version_chars(next)
}

/// The tag name of a release: the configured prefix, or `<project>-`,
/// followed by the version.
pub open spec fn spec_tag_name(
    prefix: Option<Seq<char>>,
    project: Seq<char>,
    next: Version,
) -> Seq<char> {
    (match prefix {
        Some(p) => p,
        None => project + "-"@,
    }) + spec_version_chars(next)
}

fn commit_message(cfg: &ReleaseConfig, next: &Version) -> (r: String)
    ensures
        r@ == spec_commit_message(cfg.project_name@, *next),
{
    String::from_str("chore: release ").concat(cfg.project_name.as_str()).concat(" ").concat(
        next.render().as_str(),
    )
}

fn tag_name(cfg: &ReleaseConfig, next: &Version) -> (r: String)
    ensures
        r@ == spec_tag_name(opt_str_view(cfg.tag_prefix), cfg.project_name@, *next),
{
    let prefix = match &cfg.tag_prefix {
        Some(p) => clone_string(p),
        None => clone_string(&cfg.project_name).concat("-"),
    };
    prefix.concat(next.render().as_str())
}

/// Whether the guard rejects the manifest's status: any worktree or staged
/// modification is fatal, and force does not bypass it.
pub open spec fn guard_rejects(wt_modified: bool, index_modified: bool) -> bool {
    wt_modified || index_modified
}

/// The step contract, case by case over state and event.
pub open spec fn release_step_post(
    project: Project,
    cfg: ReleaseConfig,
    state: ReleaseState,
    event: ReleaseEvent,
    r: (ReleaseState, ReleaseAction),
) -> bool {
    match (state, event) {
        (ReleaseState::Guard, ReleaseEvent::ManifestStatus { wt_modified, index_modified }) => {
            if guard_rejects(wt_modified, index_modified) {
                &&& r.0 is Done
                &&& match r.1 {
                    ReleaseAction::Fail { error } => error@ == (
                    SpecReleaseError::ManifestModified { path: cfg.manifest_path@ }),
                    _ => false,
                }
            } else {
                &&& r.0 is AwaitManifest
                &&& match r.1 {
                    ReleaseAction::ReadManifest { path } => path@ == cfg.manifest_path@,
                    _ => false,
                }
            }
        },
        (ReleaseState::AwaitManifest, ReleaseEvent::ManifestText { content }) => {
            edit_phase_post(project, cfg, content, None, r)
        },
        (ReleaseState::AwaitChange { ctx, content }, ReleaseEvent::ChangedSince { changed }) => {
            if !changed {
                r.0 is Done && r.1 matches ReleaseAction::Finish { released: None }
            } else {
                edit_phase_post(project, cfg, content, Some(ctx), r)
            }
        },
        (ReleaseState::AwaitWrite { next }, ReleaseEvent::ManifestWritten) => {
            after_edit_post(cfg, next, Seq::<Seq<char>>::empty(), 0, r)
        },
        (
            ReleaseState::Propagate { next, index, files },
            ReleaseEvent::DependentUpdated { paths },
        ) => {
            after_edit_post(cfg, next, files.deep_view() + paths.deep_view(), index + 1 as int, r)
        },
        (ReleaseState::AwaitCommit { next }, ReleaseEvent::Committed) => {
            if cfg.tag {
                &&& r.0 matches ReleaseState::AwaitTag { next: n } && n == next
                &&& match r.1 {
                    ReleaseAction::CreateTag { name } => name@ == spec_tag_name(
                        opt_str_view(cfg.tag_prefix),
                        cfg.project_name@,
                        next,
                    ),
                    _ => false,
                }
            } else {
                r.0 is Done && (r.1 matches ReleaseAction::Finish { released: Some(v) } && v
                    == next)
            }
        },
        (ReleaseState::AwaitTag { next }, ReleaseEvent::Tagged) => {
            r.0 is Done && (r.1 matches ReleaseAction::Finish { released: Some(v) } && v
                == next)
        },
        _ => {
            r.0 is Done && (match r.1 {
                ReleaseAction::Fail { error } => error@ == SpecReleaseError::UnexpectedEvent,
                _ => false,
            })
        },
    }
}

/// The write half of the edit phase: with the context in hand, the
/// machine must rewrite the manifest exactly as the adapter's contract
/// pins it, or fail with exactly the adapter's error.
pub open spec fn write_phase_post(
    project: Project,
    cfg: ReleaseConfig,
    content: String,
    ctx: VersionContext,
    r: (ReleaseState, ReleaseAction),
) -> bool {
    let sel = opt_str_view(project.settings_spec().selector);
    let text = encode_utf8(content@);
    match crate::projects::spec_project_update(
        project.kind(),
        sel,
        text,
        content@,
        ctx.next_version,
    ) {
        Err(se) => r.0 is Done && (match r.1 {
            ReleaseAction::Fail { error } => error@ == (SpecReleaseError::Project {
                inner: se,
            }),
            _ => false,
        }),
        Ok(o) => {
            &&& (r.0 matches ReleaseState::AwaitWrite { next } && next == ctx.next_version)
            &&& match r.1 {
                ReleaseAction::WriteManifest { path, content: nc } => {
                    &&& path@ == cfg.manifest_path@
                    &&& match o {
                        crate::dependents::EngineOutcome::Exact { bytes } => encode_utf8(nc@)
                            == bytes,
                        crate::dependents::EngineOutcome::Parsed { rendered, tree } => nc@
                            == rendered && crate::toml::toml_doc_of(nc@) == Some(tree),
                    }
                },
                _ => false,
            }
        },
    }
}

/// The edit phase: read the version context from the manifest text, then
/// either ask for the change verdict (no force, no verdict yet), or
/// rewrite the manifest.  Every outcome is owed: a failing read or
/// rewrite fails with exactly the adapter's error, a successful one must
/// produce exactly the pinned action.
pub open spec fn edit_phase_post(
    project: Project,
    cfg: ReleaseConfig,
    content: String,
    known_ctx: Option<VersionContext>,
    r: (ReleaseState, ReleaseAction),
) -> bool {
    let sel = opt_str_view(project.settings_spec().selector);
    let text = encode_utf8(content@);
    match known_ctx {
        None => match crate::projects::spec_project_query(project.kind(), sel, text, content@) {
            Err(se) => r.0 is Done && (match r.1 {
                ReleaseAction::Fail { error } => error@ == (SpecReleaseError::Project {
                    inner: se,
                }),
                _ => false,
            }),
            Ok((v, l)) => {
                if !cfg.force {
                    &&& match r.1 {
                        ReleaseAction::CheckChanged { path, line, root } => path@
                            == cfg.manifest_path@ && line == l && root@ == cfg.project_root@,
                        _ => false,
                    }
                    &&& match r.0 {
                        ReleaseState::AwaitChange { ctx, content: c } => {
                            &&& ctx.version == crate::version::spec_parse_version(v)
                            &&& ctx.line_number == l
                            &&& is_bump_of(ctx.next_version, ctx.version)
                            &&& c@ == content@
                        },
                        _ => false,
                    }
                } else {
                    exists|ctx: VersionContext|
                        {
                            &&& ctx.version == crate::version::spec_parse_version(v)
                            &&& ctx.line_number == l
                            &&& is_bump_of(ctx.next_version, ctx.version)
                            &&& #[trigger] write_phase_post(project, cfg, content, ctx, r)
                        }
                }
            },
        },
        Some(ctx0) => write_phase_post(project, cfg, content, ctx0, r),
    }
}

/// After the manifest edit: propagate to the next dependent, then commit
/// if asked, then finish.  `files` holds every path the dependents
/// reported so far.
pub open spec fn after_edit_post(
    cfg: ReleaseConfig,
    next: Version,
    files: Seq<Seq<char>>,
    index: int,
    r: (ReleaseState, ReleaseAction),
) -> bool {
    if index < cfg.dependent_count {
        &&& match r.0 {
            ReleaseState::Propagate { next: n, index: i, files: f } => n == next && i == index
                && f.deep_view() == files,
            _ => false,
        }
        &&& match r.1 {
            ReleaseAction::UpdateDependent { index: i, version } => i == index && version
                == next,
            _ => false,
        }
    } else if cfg.commit {
        &&& r.0 matches ReleaseState::AwaitCommit { next: n } && n == next
        &&& match r.1 {
            ReleaseAction::CommitFiles { paths, message } => paths.deep_view() == files.push(
                cfg.manifest_path@,
            ) && message@ == spec_commit_message(cfg.project_name@, next),
            _ => false,
        }
    } else {
        r.0 is Done && (r.1 matches ReleaseAction::Finish { released: Some(v) } && v == next)
    }
}

/// Append copies of every string in `src` to `dst`.
#[verifier::loop_isolation(false)]
fn append_strings(dst: &mut Vec<String>, src: &Vec<String>)
    ensures
        final(dst).deep_view() == old(dst).deep_view() + src.deep_view(),
{
    let mut i: usize = 0;
    while i < src.len()
        invariant
            i <= src.len(),
            dst.deep_view() =~= old(dst).deep_view() + src.deep_view().take(i as int),
        decreases src.len() - i,
    {
        let ghost before = dst.deep_view();
        dst.push(clone_string(&src[i]));
        proof {
            assert(src.deep_view()[i as int] == src@[i as int]@);
            assert(dst.deep_view() =~= before.push(src@[i as int]@));
        }
        i += 1;
    }
    proof {
        assert(src.deep_view().take(src@.len() as int) =~= src.deep_view());
    }
}

/// The first action of a release: ask for the manifest's status.
pub fn release_start(cfg: &ReleaseConfig) -> (r: (ReleaseState, ReleaseAction))
    ensures
        r.0 is Guard,
        r.1 matches ReleaseAction::QueryStatus { path } && path@ == cfg.manifest_path@,
{
    (
        ReleaseState::Guard,
        ReleaseAction::QueryStatus { path: clone_string(&cfg.manifest_path) },
    )
}

fn after_edit_step(cfg: &ReleaseConfig, next: Version, files: Vec<String>, index: usize) -> (r: (
    ReleaseState,
    ReleaseAction,
))
    ensures
        after_edit_post(*cfg, next, files.deep_view(), index as int, r),
{
    if index < cfg.dependent_count {
        (
            ReleaseState::Propagate { next, index, files },
            ReleaseAction::UpdateDependent { index, version: next },
        )
    } else if cfg.commit {
        let mut paths = files;
        let ghost before = paths.deep_view();
        paths.push(clone_string(&cfg.manifest_path));
        proof {
            assert(paths.deep_view() =~= before.push(cfg.manifest_path@));
        }
        let message = commit_message(cfg, &next);
        (
            ReleaseState::AwaitCommit { next },
            ReleaseAction::CommitFiles { paths, message },
        )
    } else {
        (ReleaseState::Done, ReleaseAction::Finish { released: Some(next) })
    }
}

fn edit_phase(
    project: &Project,
    cfg: &ReleaseConfig,
    content: String,
    known_ctx: Option<VersionContext>,
) -> (r: (ReleaseState, ReleaseAction))
    ensures
        edit_phase_post(*project, *cfg, content, known_ctx, r),
{
    let ghost from_query = known_ctx is None;
    let ctx = match known_ctx {
        Some(c) => c,
        None => {
            match project.version_context(content.as_str()) {
                Ok(c) => {
                    if !cfg.force {
                        let line = c.line_number;
                        return (
                            ReleaseState::AwaitChange { ctx: c, content },
                            ReleaseAction::CheckChanged {
                                path: clone_string(&cfg.manifest_path),
                                line,
                                root: clone_string(&cfg.project_root),
                            },
                        );
                    }
                    c
                },
                Err(e) => {
                    return (
                        ReleaseState::Done,
                        ReleaseAction::Fail { error: ReleaseError::Project { inner: e } },
                    );
                },
            }
        },
    };
    let r2 = match project.update_version(content.as_str(), &ctx) {
        Ok(new_content) => {
            let next = ctx.next_version;
            (
                ReleaseState::AwaitWrite { next },
                ReleaseAction::WriteManifest {
                    path: clone_string(&cfg.manifest_path),
                    content: new_content,
                },
            )
        },
        Err(e) => {
            (
                ReleaseState::Done,
                ReleaseAction::Fail { error: ReleaseError::Project { inner: e } },
            )
        },
    };
    proof {
        assert(write_phase_post(*project, *cfg, content, ctx, r2));
        if from_query {
            assert(edit_phase_post(*project, *cfg, content, known_ctx, r2));
        }
    }
    r2
}

/// Take one step: consume the event the caller reports and answer with the
/// next state and the next action.
pub fn release_step(
    project: &Project,
    cfg: &ReleaseConfig,
    state: ReleaseState,
    event: ReleaseEvent,
) -> (r: (ReleaseState, ReleaseAction))
    ensures
        release_step_post(*project, *cfg, state, event, r),
{
    match (state, event) {
        (ReleaseState::Guard, ReleaseEvent::ManifestStatus { wt_modified, index_modified }) => {
            if wt_modified || index_modified {
                (
                    ReleaseState::Done,
                    ReleaseAction::Fail {
                        error: ReleaseError::ManifestModified {
                            path: clone_string(&cfg.manifest_path),
                        },
                    },
                )
            } else {
                (
                    ReleaseState::AwaitManifest,
                    ReleaseAction::ReadManifest { path: clone_string(&cfg.manifest_path) },
                )
            }
        },
        (ReleaseState::AwaitManifest, ReleaseEvent::ManifestText { content }) => {
            edit_phase(project, cfg, content, None)
        },
        (ReleaseState::AwaitChange { ctx, content }, ReleaseEvent::ChangedSince { changed }) => {
            if !changed {
                (ReleaseState::Done, ReleaseAction::Finish { released: None })
            } else {
                edit_phase(project, cfg, content, Some(ctx))
            }
        },
        (ReleaseState::AwaitWrite { next }, ReleaseEvent::ManifestWritten) => {
            let empty: Vec<String> = Vec::new();
            proof {
                assert(empty.deep_view() =~= Seq::<Seq<char>>::empty());
            }
            after_edit_step(cfg, next, empty, 0)
        },
        (
            ReleaseState::Propagate { next, index, files },
            ReleaseEvent::DependentUpdated { paths },
        ) => {
            let mut all = files;
            append_strings(&mut all, &paths);
            if index < cfg.dependent_count {
                let r2 = after_edit_step(cfg, next, all, index + 1);
                proof {
                    assert(release_step_post(*project, *cfg, state, event, r2));
                }
                r2
            } else {
                let r2 = after_edit_step(cfg, next, all, cfg.dependent_count);
                proof {
                    assert(release_step_post(*project, *cfg, state, event, r2));
                }
                r2
            }
        },
        (ReleaseState::AwaitCommit { next }, ReleaseEvent::Committed) => {
            if cfg.tag {
                let name = tag_name(cfg, &next);
                (ReleaseState::AwaitTag { next }, ReleaseAction::CreateTag { name })
            } else {
                (ReleaseState::Done, ReleaseAction::Finish { released: Some(next) })
            }
        },
        (ReleaseState::AwaitTag { next }, ReleaseEvent::Tagged) => {
            (ReleaseState::Done, ReleaseAction::Finish { released: Some(next) })
        },
        (_, _) => {
            (
                ReleaseState::Done,
                ReleaseAction::Fail { error: ReleaseError::UnexpectedEvent },
            )
        },
    }
}

} // verus!
