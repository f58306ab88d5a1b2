//! Project adapters: each project type binds a manifest format and a
//! selector to the two operations the release flow needs — reading the
//! current version (with the line it sits on) and rewriting the manifest
//! with the next version.

use vstd::prelude::*;
use vstd::string::{StringExecFns, StringSliceAdditionalSpecFns};
use vstd::utf8::encode_utf8;

use crate::bytes::{bytes_eq, is_ascii_ws, spec_split, split_bytes};
use crate::edit::{EditError, LineContext, SpecEditError};
use crate::settings::ProjectSettings;
use crate::strutil::str_to_bytes;
use crate::toml::{spec_toml_edit_check, spec_toml_query_value};
use crate::version::{
    is_bump_of, spec_bump_patch, spec_parse_version, spec_version_bytes, Version, VersionContext,
};
use crate::yaml::{spec_yaml_edit, spec_yaml_query};

verus! {

/// The supported project types.
#[derive(Debug, Clone, Copy, PartialEq, Eq, Structural)]
pub enum ProjectType {
    Helm,
    Node,
    Rust,
    Toml,
    Versionfile,
    Yaml,
}

/// What the settings and the manifest the project shares with every
/// adapter.
pub struct BaseProjectFile {
    pub settings: ProjectSettings,
    pub repo_path: String,
}

/// What a project operation can reject.
#[derive(Debug, Clone)]
pub enum ProjectError {
    Edit { inner: EditError },
    SelectorRequired { project_type: ProjectType },
    CargoVersionMissing,
    CargoVersionLineMissing,
}

pub enum SpecProjectError {
    Edit { inner: SpecEditError },
    SelectorRequired { project_type: ProjectType },
    CargoVersionMissing,
    CargoVersionLineMissing,
}

impl View for ProjectError {
    type V = SpecProjectError;

    open spec fn view(&self) -> SpecProjectError {
        match self {
            ProjectError::Edit { inner } => SpecProjectError::Edit { inner: inner@ },
            ProjectError::SelectorRequired { project_type } => {
                SpecProjectError::SelectorRequired { project_type: *project_type }
            },
            ProjectError::CargoVersionMissing => SpecProjectError::CargoVersionMissing,
            ProjectError::CargoVersionLineMissing => SpecProjectError::CargoVersionLineMissing,
        }
    }
}

impl ProjectError {
    /// Human-readable description; presentation only.
    pub fn message(&self) -> String {
        match self {
            ProjectError::Edit { inner } => inner.message(),
            ProjectError::SelectorRequired { project_type } => match project_type {
                ProjectType::Toml => String::from_str("Selector is required for a TOML project"),
                ProjectType::Yaml => String::from_str("Selector is required for a YAML project"),
                _ => String::from_str("Selector is required"),
            },
            ProjectError::CargoVersionMissing => String::from_str(
                "Failed to parse version from Cargo.toml",
            ),
            ProjectError::CargoVersionLineMissing => String::from_str(
                "Failed to find version in Cargo.toml",
            ),
        }
    }
}

// ---------------------------------------------------------------------------
// The Cargo manifest version line
// ---------------------------------------------------------------------------

/// The bytes of the `version` keyword.
pub open spec fn version_kw() -> Seq<u8> {
    encode_utf8("version"@)
}

/// The first non-whitespace position at or after `i`.
pub open spec fn spec_skip_ws(s: Seq<u8>, i: nat) -> nat
    decreases s.len() - i,
    when i <= s.len()
{
    if i < s.len() && is_ascii_ws(s[i as int]) {
        spec_skip_ws(s, i + 1)
    } else {
        i
    }
}

///`vb` matches at `at`, with `.` in `vb` matching any byte (the version
/// is interpolated into a pattern where `.` is a wildcard).
pub open spec fn spec_wildcard_at(line: Seq<u8>, at: int, vb: Seq<u8>) -> bool {
    0 <= at && at + vb.len() <= line.len() && forall|t: int|
        0 <= t < vb.len() ==> line[at + t] == vb[t] || #[trigger] vb[t] == 46
}

/// The line declares the version: `version`, optional whitespace, `=`,
/// optional whitespace, then the version in double quotes (dots wild, as
/// the original interpolated pattern had them).  Whitespace here is the
/// ASCII subset of the pattern's whitespace class.
pub open spec fn spec_rust_line_match(line: Seq<u8>, vb: Seq<u8>) -> bool {
    let kw = version_kw();
    line.len() >= kw.len() && line.take(kw.len() as int) == kw && {
        let i = spec_skip_ws(line, kw.len());
        i < line.len() && line[i as int] == 61 && {
            let j = spec_skip_ws(line, i + 1);
            j < line.len() && line[j as int] == 34 && spec_wildcard_at(line, j as int + 1, vb)
                && j + 1 + vb.len() < line.len() && line[j as int + 1 + vb.len() as int] == 34
        }
    }
}

/// The index of the first matching line.
pub open spec fn spec_first_rust_match(pieces: Seq<Seq<u8>>, vb: Seq<u8>) -> Option<int>
    decreases pieces.len(),
{
    if pieces.len() == 0 {
        None
    } else if spec_rust_line_match(pieces[0], vb) {
        Some(0)
    } else {
        match spec_first_rust_match(pieces.drop_first(), vb) {
            Some(i) => Some(i + 1),
            None => None,
        }
    }
}

/// The 1-based line of the Cargo manifest declaring the version.
pub open spec fn spec_rust_line(text: Seq<u8>, vb: Seq<u8>) -> Option<int> {
    match spec_first_rust_match(spec_split(text, 10), vb) {
        Some(i) => Some(i + 1),
        None => None,
    }
}

#[verifier::loop_isolation(false)]
fn skip_ws(s: &[u8], from: usize) -> (r: usize)
    requires
        from <= s@.len(),
    ensures
        r == spec_skip_ws(s@, from as nat),
        from <= r <= s@.len(),
{
    let mut cur = from;
    while cur < s.len() && (s[cur] == 32 || s[cur] == 9 || s[cur] == 10 || s[cur] == 13)
        invariant
            from <= cur <= s@.len(),
            spec_skip_ws(s@, from as nat) == spec_skip_ws(s@, cur as nat),
        decreases s.len() - cur,
    {
        cur += 1;
    }
    cur
}

#[verifier::loop_isolation(false)]
fn rust_line_match(line: &[u8], vb: &[u8]) -> (r: bool)
    ensures
        r == spec_rust_line_match(line@, vb@),
{
    let kw = str_to_bytes("version");
    proof {
        assert(kw@ == version_kw());
    }
    if line.len() < kw.len() {
        return false;
    }
    let head = crate::bytes::sub_bytes(line, 0, kw.len());
    proof {
        assert(head@ =~= line@.take(kw@.len() as int));
    }
    if !bytes_eq(head.as_slice(), kw.as_slice()) {
        return false;
    }
    let i = skip_ws(line, kw.len());
    if !(i < line.len() && line[i] == 61) {
        return false;
    }
    let j = skip_ws(line, i + 1);
    if !(j < line.len() && line[j] == 34) {
        return false;
    }
    if line.len() - (j + 1) <= vb.len() {
        return false;
    }
    let mut t: usize = 0;
    while t < vb.len()
        invariant
            j + 1 + vb@.len() < line@.len(),
            t <= vb@.len(),
            forall|u: int| 0 <= u < t ==> line@[j + 1 + u] == vb@[u] || #[trigger] vb@[u] == 46,
        decreases vb.len() - t,
    {
        if line[j + 1 + t] != vb[t] && vb[t] != 46 {
            return false;
        }
        t += 1;
    }
    line[j + 1 + vb.len()] == 34
}

fn rust_match_from(pieces: &Vec<Vec<u8>>, j: usize, vb: &[u8]) -> (r: Option<usize>)
    requires
        j <= pieces.len(),
    ensures
        match r {
            Some(i) => j <= i < pieces.len() && spec_first_rust_match(
                pieces.deep_view().skip(j as int),
                vb@,
            ) == Some(i - j),
            None => spec_first_rust_match(pieces.deep_view().skip(j as int), vb@) is None,
        },
    decreases pieces.len() - j,
{
    if j == pieces.len() {
        proof {
            assert(pieces.deep_view().skip(j as int) =~= Seq::<Seq<u8>>::empty());
        }
        return None;
    }
    proof {
        assert(pieces.deep_view().skip(j as int)[0] == pieces.deep_view()[j as int]);
        assert(pieces.deep_view()[j as int] == pieces@[j as int]@);
        assert(pieces.deep_view().skip(j as int).drop_first() =~= pieces.deep_view().skip(
            j as int + 1,
        ));
    }
    if rust_line_match(pieces[j].as_slice(), vb) {
        Some(j)
    } else {
        rust_match_from(pieces, j + 1, vb)
    }
}

/// The 1-based line of the Cargo manifest declaring the given version.
fn rust_find_line(text: &[u8], vb: &[u8]) -> (r: Option<usize>)
    ensures
        match r {
            Some(l) => spec_rust_line(text@, vb@) == Some(l as int) && l >= 1,
            None => spec_rust_line(text@, vb@) is None,
        },
{
    let lines = split_bytes(text, 10);
    proof {
        assert(lines.deep_view().skip(0) =~= lines.deep_view());
    }
    match rust_match_from(&lines, 0, vb) {
        Some(i) => Some(i + 1),
        None => None,
    }
}

// ---------------------------------------------------------------------------
// Per-type behaviour, as one specification
// ---------------------------------------------------------------------------

pub open spec fn opt_str_view(o: Option<String>) -> Option<Seq<char>> {
    match o {
        Some(s) => Some(s@),
        None => None,
    }
}

/// What reading the version out of a manifest yields, per project type:
/// the version's text and its exact 1-based line, or the per-type error.
pub open spec fn spec_project_query(
    pt: ProjectType,
    sel: Option<Seq<char>>,
    text: Seq<u8>,
    textc: Seq<char>,
) -> Result<(Seq<u8>, int), SpecProjectError> {
    match pt {
        ProjectType::Helm => match spec_yaml_query(text, encode_utf8("appVersion"@)) {
            Ok((v, l)) => Ok((v, l as int)),
            Err(e) => Err(SpecProjectError::Edit { inner: e }),
        },
        ProjectType::Node => match spec_yaml_query(text, encode_utf8("version"@)) {
            Ok((v, l)) => Ok((v, l as int)),
            Err(e) => Err(SpecProjectError::Edit { inner: e }),
        },
        ProjectType::Yaml => match sel {
            None => Err(SpecProjectError::SelectorRequired { project_type: ProjectType::Yaml }),
            Some(s) => match spec_yaml_query(text, encode_utf8(s)) {
                Ok((v, l)) => Ok((v, l as int)),
                Err(e) => Err(SpecProjectError::Edit { inner: e }),
            },
        },
        ProjectType::Toml => match sel {
            None => Err(SpecProjectError::SelectorRequired { project_type: ProjectType::Toml }),
            Some(s) => match spec_toml_query_value(textc, s) {
                Err(e) => Err(SpecProjectError::Edit { inner: e }),
                Ok(v) => match crate::toml::spec_sentinel_line(textc, s) {
                    Some(l) => Ok((v, l)),
                    None => Err(
                        SpecProjectError::Edit { inner: SpecEditError::LineNumberNotFound },
                    ),
                },
            },
        },
        ProjectType::Versionfile => match crate::versionfile::spec_first_line(text) {
            Some(l) => Ok((l, 1)),
            None => Err(SpecProjectError::Edit { inner: SpecEditError::EmptyFile }),
        },
        ProjectType::Rust => match spec_toml_query_value(textc, "package.version"@) {
            Err(e) => match e {
                SpecEditError::NotAString { .. } => Err(SpecProjectError::CargoVersionMissing),
                SpecEditError::TomlKeyNotFound { .. } => Err(
                    SpecProjectError::CargoVersionMissing,
                ),
                _ => Err(SpecProjectError::Edit { inner: e }),
            },
            Ok(v) => match spec_rust_line(
                text,
                spec_version_bytes(spec_parse_version(v)),
            ) {
                Some(l) => Ok((v, l)),
                None => Err(SpecProjectError::CargoVersionLineMissing),
            },
        },
    }
}

/// The chart-manifest rewrite: the packaging `version` field is patch
/// bumped and the `appVersion` field becomes the released version, in one
/// pass over the text.
pub open spec fn spec_helm_update(text: Seq<u8>, next_app: Version) -> Result<
    Seq<u8>,
    SpecEditError,
> {
    match spec_yaml_query(text, encode_utf8("version"@)) {
        Err(e) => Err(e),
        Ok((v, _)) => {
            let chart_next = spec_version_bytes(spec_bump_patch(spec_parse_version(v)));
            match spec_yaml_edit(text, encode_utf8("version"@), chart_next) {
                Err(e) => Err(e),
                Ok(t1) => spec_yaml_edit(t1, encode_utf8("appVersion"@), spec_version_bytes(
                    next_app,
                )),
            }
        },
    }
}

/// The outcome of a structured TOML rewrite at `s`: the rendered text and
/// the tree it parses to.
pub open spec fn toml_update_outcome(
    textc: Seq<char>,
    s: Seq<char>,
    next: Version,
) -> crate::dependents::EngineOutcome {
    crate::dependents::EngineOutcome::Parsed {
        rendered: crate::toml::toml_assigned_render(
            textc,
            crate::toml::spec_sel_keys(s),
            spec_version_bytes(next),
        ),
        tree: crate::toml::spec_assign(
            crate::toml::toml_doc_of(textc)->Some_0,
            crate::toml::spec_sel_keys(s),
            spec_version_bytes(next),
        ),
    }
}

/// What rewriting a manifest with the next version yields, per project
/// type: the exact new text (as bytes, or as the structured facility's
/// render with its parsed tree), or the per-type error.
pub open spec fn spec_project_update(
    pt: ProjectType,
    sel: Option<Seq<char>>,
    text: Seq<u8>,
    textc: Seq<char>,
    next: Version,
) -> Result<crate::dependents::EngineOutcome, SpecProjectError> {
    match pt {
        ProjectType::Helm => match spec_helm_update(text, next) {
            Ok(b) => Ok(crate::dependents::EngineOutcome::Exact { bytes: b }),
            Err(e) => Err(SpecProjectError::Edit { inner: e }),
        },
        ProjectType::Node => match spec_yaml_edit(
            text,
            encode_utf8("version"@),
            spec_version_bytes(next),
        ) {
            Ok(b) => Ok(crate::dependents::EngineOutcome::Exact { bytes: b }),
            Err(e) => Err(SpecProjectError::Edit { inner: e }),
        },
        ProjectType::Yaml => match sel {
            None => Err(SpecProjectError::SelectorRequired { project_type: ProjectType::Yaml }),
            Some(s) => match spec_yaml_edit(text, encode_utf8(s), spec_version_bytes(next)) {
                Ok(b) => Ok(crate::dependents::EngineOutcome::Exact { bytes: b }),
                Err(e) => Err(SpecProjectError::Edit { inner: e }),
            },
        },
        ProjectType::Toml => match sel {
            None => Err(SpecProjectError::SelectorRequired { project_type: ProjectType::Toml }),
            Some(s) => match spec_toml_edit_check(textc, s) {
                Ok(_) => Ok(toml_update_outcome(textc, s, next)),
                Err(e) => Err(SpecProjectError::Edit { inner: e }),
            },
        },
        ProjectType::Rust => match spec_toml_edit_check(textc, "package.version"@) {
            Ok(_) => Ok(toml_update_outcome(textc, "package.version"@, next)),
            Err(e) => Err(SpecProjectError::Edit { inner: e }),
        },
        ProjectType::Versionfile => Ok(
            crate::dependents::EngineOutcome::Exact { bytes: spec_version_bytes(next) },
        ),
    }
}

/// The contract every `version_context` shares: success exactly when the
/// per-type read succeeds, with the parsed value, the exact line, and a
/// calendar bump; the per-type error otherwise.
pub open spec fn version_context_post(
    pt: ProjectType,
    sel: Option<Seq<char>>,
    text: Seq<u8>,
    textc: Seq<char>,
    r: Result<VersionContext, ProjectError>,
) -> bool {
    match r {
        Ok(ctx) => match spec_project_query(pt, sel, text, textc) {
            Ok((v, l)) => ctx.version == spec_parse_version(v) && ctx.line_number == l
                && is_bump_of(ctx.next_version, ctx.version),
            Err(_) => false,
        },
        Err(e) => spec_project_query(pt, sel, text, textc) == Err::<(Seq<u8>, int), _>(e@),
    }
}

/// The contract every `update_version` shares: success exactly when the
/// per-type rewrite succeeds, with the new text pinned; the per-type
/// error otherwise.
pub open spec fn update_version_post(
    pt: ProjectType,
    sel: Option<Seq<char>>,
    text: Seq<u8>,
    textc: Seq<char>,
    next: Version,
    r: Result<String, ProjectError>,
) -> bool {
    match r {
        Ok(s) => match spec_project_update(pt, sel, text, textc, next) {
            Ok(o) => match o {
                crate::dependents::EngineOutcome::Exact { bytes } => encode_utf8(s@) == bytes,
                crate::dependents::EngineOutcome::Parsed { rendered, tree } => s@ == rendered
                    && crate::toml::toml_doc_of(s@) == Some(tree),
            },
            Err(_) => false,
        },
        Err(e) => spec_project_update(pt, sel, text, textc, next) == Err::<
            crate::dependents::EngineOutcome,
            _,
        >(e@),
    }
}

// ---------------------------------------------------------------------------
// The six adapters
// ---------------------------------------------------------------------------

/// Chart-manifest project: the application version lives at `appVersion`.
pub struct HelmProject {
    pub base: BaseProjectFile,
}

/// JSON package manifest project: the version lives at the `version` key,
/// read through the YAML engine (JSON being a YAML subset for scalar
/// extraction).
pub struct NodeProject {
    pub base: BaseProjectFile,
}

/// Cargo-style manifest project: the version lives at `package.version`.
pub struct RustProject {
    pub base: BaseProjectFile,
}

/// Generic TOML project: the version lives at the configured selector.
pub struct TomlProject {
    pub base: BaseProjectFile,
}

/// Plain-text project: the version is the file's entire content.
pub struct VersionfileProject {
    pub base: BaseProjectFile,
}

/// Generic YAML project: the version lives at the configured selector.
pub struct YamlProject {
    pub base: BaseProjectFile,
}

impl HelmProject {
    pub fn new(settings: ProjectSettings, repo_path: String) -> (r: Self)
        ensures
            r.base.settings == settings && r.base.repo_path == repo_path,
    {
        HelmProject { base: BaseProjectFile { settings, repo_path } }
    }

    /// Return the current version and the line number of the version field.
    pub fn version_context(&self, version_file_content: &str) -> (r: Result<
        VersionContext,
        ProjectError,
    >)
        ensures
            version_context_post(
                ProjectType::Helm,
                opt_str_view(self.base.settings.selector),
                encode_utf8(version_file_content@),
                version_file_content@,
                r,
            ),
    {
        match crate::yaml::query(version_file_content, "appVersion") {
            Ok(lc) => Ok(VersionContext::from_line_context(lc)),
            Err(e) => Err(ProjectError::Edit { inner: e }),
        }
    }

    /// Rewrite the manifest: bump the packaging `version` field by one
    /// patch and set `appVersion` to the released version.
    pub fn update_version(&self, version_file_content: &str, version_context: &VersionContext)
        -> (r: Result<String, ProjectError>)
        ensures
            update_version_post(
                ProjectType::Helm,
                opt_str_view(self.base.settings.selector),
                encode_utf8(version_file_content@),
                version_file_content@,
                version_context.next_version,
                r,
            ),
    {
        let chart_lc = match crate::yaml::query(version_file_content, "version") {
            Ok(lc) => lc,
            Err(e) => {
                return Err(ProjectError::Edit { inner: e });
            },
        };
        let next_chart = Version::parse(chart_lc.value.as_str()).bump_patch();
        let next_chart_rendered = next_chart.render();
        let next_app_rendered = version_context.next_version.render();
        let t1 = match crate::yaml::edit(
            version_file_content,
            "version",
            next_chart_rendered.as_str(),
        ) {
            Ok(t) => t,
            Err(e) => {
                return Err(ProjectError::Edit { inner: e });
            },
        };
        match crate::yaml::edit(t1.as_str(), "appVersion", next_app_rendered.as_str()) {
            Ok(t) => Ok(t),
            Err(e) => Err(ProjectError::Edit { inner: e }),
        }
    }
}

impl NodeProject {
    pub fn new(settings: ProjectSettings, repo_path: String) -> (r: Self)
        ensures
            r.base.settings == settings && r.base.repo_path == repo_path,
    {
        NodeProject { base: BaseProjectFile { settings, repo_path } }
    }

    /// Return the current version and the line number of the version field.
    pub fn version_context(&self, version_file_content: &str) -> (r: Result<
        VersionContext,
        ProjectError,
    >)
        ensures
            version_context_post(
                ProjectType::Node,
                opt_str_view(self.base.settings.selector),
                encode_utf8(version_file_content@),
                version_file_content@,
                r,
            ),
    {
        match crate::yaml::query(version_file_content, "version") {
            Ok(lc) => Ok(VersionContext::from_line_context(lc)),
            Err(e) => Err(ProjectError::Edit { inner: e }),
        }
    }

    /// Rewrite the manifest's `version` key with the released version.
    pub fn update_version(&self, version_file_content: &str, version_context: &VersionContext)
        -> (r: Result<String, ProjectError>)
        ensures
            update_version_post(
                ProjectType::Node,
                opt_str_view(self.base.settings.selector),
                encode_utf8(version_file_content@),
                version_file_content@,
                version_context.next_version,
                r,
            ),
    {
        let rendered = version_context.next_version.render();
        match crate::yaml::edit(version_file_content, "version", rendered.as_str()) {
            Ok(t) => Ok(t),
            Err(e) => Err(ProjectError::Edit { inner: e }),
        }
    }
}

impl RustProject {
    pub fn new(settings: ProjectSettings, repo_path: String) -> (r: Self)
        ensures
            r.base.settings == settings && r.base.repo_path == repo_path,
    {
        RustProject { base: BaseProjectFile { settings, repo_path } }
    }

    /// Return the current version and the line number of the version field:
    /// the value at `package.version`, located in the text by its
    /// `version = "..."` declaration line.
    pub fn version_context(&self, version_file_content: &str) -> (r: Result<
        VersionContext,
        ProjectError,
    >)
        ensures
            version_context_post(
                ProjectType::Rust,
                opt_str_view(self.base.settings.selector),
                encode_utf8(version_file_content@),
                version_file_content@,
                r,
            ),
    {
        let value = match crate::toml::query_value(version_file_content, "package.version") {
            Ok(v) => v,
            Err(e) => {
                return Err(
                    match e {
                        EditError::NotAString { .. } => ProjectError::CargoVersionMissing,
                        EditError::TomlKeyNotFound { .. } => ProjectError::CargoVersionMissing,
                        _ => ProjectError::Edit { inner: e },
                    },
                );
            },
        };
        let version = Version::parse(value.as_str());
        let rendered = version.render();
        let vb = str_to_bytes(rendered.as_str());
        let text = str_to_bytes(version_file_content);
        match rust_find_line(text.as_slice(), vb.as_slice()) {
            Some(line) => Ok(VersionContext::new(version, line)),
            None => Err(ProjectError::CargoVersionLineMissing),
        }
    }

    /// Bump version in Cargo.toml; the structured TOML facility preserves
    /// the formatting of the original file.
    pub fn update_version(&self, version_file_content: &str, version_context: &VersionContext)
        -> (r: Result<String, ProjectError>)
        ensures
            update_version_post(
                ProjectType::Rust,
                opt_str_view(self.base.settings.selector),
                encode_utf8(version_file_content@),
                version_file_content@,
                version_context.next_version,
                r,
            ),
    {
        let rendered = version_context.next_version.render();
        match crate::toml::edit(version_file_content, "package.version", rendered.as_str()) {
            Ok(t) => Ok(t),
            Err(e) => Err(ProjectError::Edit { inner: e }),
        }
    }
}

impl TomlProject {
    pub fn new(settings: ProjectSettings, repo_path: String) -> (r: Self)
        ensures
            r.base.settings == settings && r.base.repo_path == repo_path,
    {
        TomlProject { base: BaseProjectFile { settings, repo_path } }
    }

    /// Return the current version and the line number of the version field,
    /// at the configured selector.
    pub fn version_context(&self, version_file_content: &str) -> (r: Result<
        VersionContext,
        ProjectError,
    >)
        ensures
            version_context_post(
                ProjectType::Toml,
                opt_str_view(self.base.settings.selector),
                encode_utf8(version_file_content@),
                version_file_content@,
                r,
            ),
    {
        let sel = match &self.base.settings.selector {
            Some(s) => s,
            None => {
                return Err(
                    ProjectError::SelectorRequired { project_type: ProjectType::Toml },
                );
            },
        };
        match crate::toml::query(version_file_content, sel.as_str()) {
            Ok(lc) => Ok(VersionContext::from_line_context(lc)),
            Err(e) => Err(ProjectError::Edit { inner: e }),
        }
    }

    /// Rewrite the value at the configured selector with the released
    /// version.
    pub fn update_version(&self, version_file_content: &str, version_context: &VersionContext)
        -> (r: Result<String, ProjectError>)
        ensures
            update_version_post(
                ProjectType::Toml,
                opt_str_view(self.base.settings.selector),
                encode_utf8(version_file_content@),
                version_file_content@,
                version_context.next_version,
                r,
            ),
    {
        let sel = match &self.base.settings.selector {
            Some(s) => s,
            None => {
                return Err(
                    ProjectError::SelectorRequired { project_type: ProjectType::Toml },
                );
            },
        };
        let rendered = version_context.next_version.render();
        match crate::toml::edit(version_file_content, sel.as_str(), rendered.as_str()) {
            Ok(t) => Ok(t),
            Err(e) => Err(ProjectError::Edit { inner: e }),
        }
    }
}

impl VersionfileProject {
    pub fn new(settings: ProjectSettings, repo_path: String) -> (r: Self)
        ensures
            r.base.settings == settings && r.base.repo_path == repo_path,
    {
        VersionfileProject { base: BaseProjectFile { settings, repo_path } }
    }

    /// Return the current version (the file's first line), always at line 1.
    pub fn version_context(&self, version_file_content: &str) -> (r: Result<
        VersionContext,
        ProjectError,
    >)
        ensures
            version_context_post(
                ProjectType::Versionfile,
                opt_str_view(self.base.settings.selector),
                encode_utf8(version_file_content@),
                version_file_content@,
                r,
            ),
    {
        match crate::versionfile::query(version_file_content) {
            Ok(lc) => Ok(VersionContext::from_line_context(lc)),
            Err(e) => Err(ProjectError::Edit { inner: e }),
        }
    }

    /// Replace the whole file content with the released version.
    pub fn update_version(&self, version_file_content: &str, version_context: &VersionContext)
        -> (r: Result<String, ProjectError>)
        ensures
            update_version_post(
                ProjectType::Versionfile,
                opt_str_view(self.base.settings.selector),
                encode_utf8(version_file_content@),
                version_file_content@,
                version_context.next_version,
                r,
            ),
    {
        let rendered = version_context.next_version.render();
        match crate::versionfile::edit(rendered.as_str()) {
            Ok(t) => Ok(t),
            Err(e) => Err(ProjectError::Edit { inner: e }),
        }
    }
}

impl YamlProject {
    pub fn new(settings: ProjectSettings, repo_path: String) -> (r: Self)
        ensures
            r.base.settings == settings && r.base.repo_path == repo_path,
    {
        YamlProject { base: BaseProjectFile { settings, repo_path } }
    }

    /// Return the current version and the line number of the version field,
    /// at the configured selector.
    pub fn version_context(&self, version_file_content: &str) -> (r: Result<
        VersionContext,
        ProjectError,
    >)
        ensures
            version_context_post(
                ProjectType::Yaml,
                opt_str_view(self.base.settings.selector),
                encode_utf8(version_file_content@),
                version_file_content@,
                r,
            ),
    {
        let sel = match &self.base.settings.selector {
            Some(s) => s,
            None => {
                return Err(
                    ProjectError::SelectorRequired { project_type: ProjectType::Yaml },
                );
            },
        };
        match crate::yaml::query(version_file_content, sel.as_str()) {
            Ok(lc) => Ok(VersionContext::from_line_context(lc)),
            Err(e) => Err(ProjectError::Edit { inner: e }),
        }
    }

    /// Rewrite the value at the configured selector with the released
    /// version.
    pub fn update_version(&self, version_file_content: &str, version_context: &VersionContext)
        -> (r: Result<String, ProjectError>)
        ensures
            update_version_post(
                ProjectType::Yaml,
                opt_str_view(self.base.settings.selector),
                encode_utf8(version_file_content@),
                version_file_content@,
                version_context.next_version,
                r,
            ),
    {
        let sel = match &self.base.settings.selector {
            Some(s) => s,
            None => {
                return Err(
                    ProjectError::SelectorRequired { project_type: ProjectType::Yaml },
                );
            },
        };
        let rendered = version_context.next_version.render();
        match crate::yaml::edit(version_file_content, sel.as_str(), rendered.as_str()) {
            Ok(t) => Ok(t),
            Err(e) => Err(ProjectError::Edit { inner: e }),
        }
    }
}

// ---------------------------------------------------------------------------
// Dispatch
// ---------------------------------------------------------------------------

/// A project of whichever supported type, behind one dispatching handle.
pub enum Project {
    Helm(HelmProject),
    Node(NodeProject),
    Rust(RustProject),
    Toml(TomlProject),
    Versionfile(VersionfileProject),
    Yaml(YamlProject),
}

impl Project {
    pub open spec fn kind(&self) -> ProjectType {
        match self {
            Project::Helm(_) => ProjectType::Helm,
            Project::Node(_) => ProjectType::Node,
            Project::Rust(_) => ProjectType::Rust,
            Project::Toml(_) => ProjectType::Toml,
            Project::Versionfile(_) => ProjectType::Versionfile,
            Project::Yaml(_) => ProjectType::Yaml,
        }
    }

    pub open spec fn settings_spec(&self) -> ProjectSettings {
        match self {
            Project::Helm(p) => p.base.settings,
            Project::Node(p) => p.base.settings,
            Project::Rust(p) => p.base.settings,
            Project::Toml(p) => p.base.settings,
            Project::Versionfile(p) => p.base.settings,
            Project::Yaml(p) => p.base.settings,
        }
    }

    /// Return the current version and the line number of the version field.
    pub fn version_context(&self, version_file_content: &str) -> (r: Result<
        VersionContext,
        ProjectError,
    >)
        ensures
            version_context_post(
                self.kind(),
                opt_str_view(self.settings_spec().selector),
                encode_utf8(version_file_content@),
                version_file_content@,
                r,
            ),
    {
        match self {
            Project::Helm(p) => p.version_context(version_file_content),
            Project::Node(p) => p.version_context(version_file_content),
            Project::Rust(p) => p.version_context(version_file_content),
            Project::Toml(p) => p.version_context(version_file_content),
            Project::Versionfile(p) => p.version_context(version_file_content),
            Project::Yaml(p) => p.version_context(version_file_content),
        }
    }

    /// Rewrite the manifest text so that it carries the next version.
    pub fn update_version(&self, version_file_content: &str, version_context: &VersionContext)
        -> (r: Result<String, ProjectError>)
        ensures
            update_version_post(
                self.kind(),
                opt_str_view(self.settings_spec().selector),
                encode_utf8(version_file_content@),
                version_file_content@,
                version_context.next_version,
                r,
            ),
    {
        match self {
            Project::Helm(p) => p.update_version(version_file_content, version_context),
            Project::Node(p) => p.update_version(version_file_content, version_context),
            Project::Rust(p) => p.update_version(version_file_content, version_context),
            Project::Toml(p) => p.update_version(version_file_content, version_context),
            Project::Versionfile(p) => p.update_version(version_file_content, version_context),
            Project::Yaml(p) => p.update_version(version_file_content, version_context),
        }
    }

    /// Get the path to the manifest file.
    pub fn get_manifest_file_path(&self) -> (r: Result<
        String,
        crate::settings::SettingsError,
    >)
        ensures
            match r {
                Ok(p) => crate::settings::spec_manifest_path(
                    self.settings_spec().project_type,
                    self.settings_spec().project_path@,
                    opt_str_view(self.settings_spec().manifest_path),
                ) == Ok::<_, crate::settings::SpecSettingsError>(p@),
                Err(e) => crate::settings::spec_manifest_path(
                    self.settings_spec().project_type,
                    self.settings_spec().project_path@,
                    opt_str_view(self.settings_spec().manifest_path),
                ) == Err::<Seq<char>, _>(e@),
            },
    {
        match self {
            Project::Helm(p) => p.base.settings.get_manifest_file_path(),
            Project::Node(p) => p.base.settings.get_manifest_file_path(),
            Project::Rust(p) => p.base.settings.get_manifest_file_path(),
            Project::Toml(p) => p.base.settings.get_manifest_file_path(),
            Project::Versionfile(p) => p.base.settings.get_manifest_file_path(),
            Project::Yaml(p) => p.base.settings.get_manifest_file_path(),
        }
    }
}

/// Build the project adapter the settings name.
pub fn get_project_file(settings: ProjectSettings, repo_path: String) -> (r: Project)
    ensures
        r.settings_spec() == settings,
        r.kind() == settings.project_type,
{
    match settings.project_type {
        ProjectType::Helm => Project::Helm(HelmProject::new(settings, repo_path)),
        ProjectType::Node => Project::Node(NodeProject::new(settings, repo_path)),
        ProjectType::Rust => Project::Rust(RustProject::new(settings, repo_path)),
        ProjectType::Toml => Project::Toml(TomlProject::new(settings, repo_path)),
        ProjectType::Versionfile => Project::Versionfile(
            VersionfileProject::new(settings, repo_path),
        ),
        ProjectType::Yaml => Project::Yaml(YamlProject::new(settings, repo_path)),
    }
}

} // verus!
