//! Per-project configuration as the release logic consumes it: the project
//! table, each project's settings and dependents, and the resolution of
//! the manifest path from the project type.

use vstd::prelude::*;
use vstd::string::{StringExecFns, StrSliceExecFns};

use crate::dependents::DependentType;
use crate::projects::ProjectType;

verus! {

/// Settings of one dependent file to propagate a released version into.
#[derive(Debug, Clone)]
pub struct DependentSettings {
    pub dependent_type: DependentType,
    pub dependent_path: String,
    pub selector: Option<String>,
    pub replace: Option<String>,
}

/// Settings of one project.
#[derive(Debug, Clone)]
pub struct ProjectSettings {
    pub project_type: ProjectType,
    pub project_path: String,
    pub manifest_path: Option<String>,
    pub tag_prefix: Option<String>,
    pub selector: Option<String>,
    pub dependents: Option<Vec<DependentSettings>>,
}

/// The settings of every configured project, in configuration order.
#[derive(Debug)]
pub struct Settings {
    pub projects: Vec<(String, ProjectSettings)>,
}

/// What settings resolution can reject.
#[derive(Debug, Clone)]
pub enum SettingsError {
    /// The project type has no default manifest file name.
    ManifestPathRequired { project_type: ProjectType },
    /// No project of this name is configured.
    NoSuchProject { name: String },
}

pub enum SpecSettingsError {
    ManifestPathRequired { project_type: ProjectType },
    NoSuchProject { name: Seq<char> },
}

impl View for SettingsError {
    type V = SpecSettingsError;

    open spec fn view(&self) -> SpecSettingsError {
        match self {
            SettingsError::ManifestPathRequired { project_type } => {
                SpecSettingsError::ManifestPathRequired { project_type: *project_type }
            },
            SettingsError::NoSuchProject { name } => SpecSettingsError::NoSuchProject {
                name: name@,
            },
        }
    }
}

impl SettingsError {
    /// Human-readable description; presentation only.
    pub fn message(&self) -> String {
        match self {
            SettingsError::ManifestPathRequired { project_type } => match project_type {
                ProjectType::Toml => String::from_str("TOML project requires a manifest path"),
                ProjectType::Yaml => String::from_str("YAML project requires a manifest path"),
                _ => String::from_str("Versionfile project requires a manifest path"),
            },
            SettingsError::NoSuchProject { name } => String::from_str(
                "No project found with name: ",
            ).concat(name.as_str()),
        }
    }
}

/// Base and name joined with `/`, as a path join behaves on plain relative
/// paths.
pub open spec fn spec_join_path(base: Seq<char>, name: Seq<char>) -> Seq<char> {
    if base.len() == 0 {
        name
    } else if base.last() == '/' {
        base + name
    } else {
        base + seq!['/'] + name
    }
}

/// A leading `./` stripped, once.
pub open spec fn spec_strip_dot_slash(p: Seq<char>) -> Seq<char> {
    if p.len() >= 2 && p[0] == '.' && p[1] == '/' {
        p.skip(2)
    } else {
        p
    }
}

/// Strip a leading `./` from a path, as the change detector needs it.
pub fn strip_dot_slash(p: &str) -> (r: String)
    ensures
        r@ == spec_strip_dot_slash(p@),
{
    let n = p.unicode_len();
    if n >= 2 && p.get_char(0) == '.' && p.get_char(1) == '/' {
        let s = p.substring_char(2, n);
        proof {
            assert(p@.subrange(2, p@.len() as int) =~= p@.skip(2));
        }
        String::from_str(s)
    } else {
        String::from_str(p)
    }
}

pub fn join_path(base: &str, name: &str) -> (r: String)
    ensures
        r@ == spec_join_path(base@, name@),
{
    let n = base.unicode_len();
    if n == 0 {
        String::from_str(name)
    } else if base.get_char(n - 1) == '/' {
        String::from_str(base).concat(name)
    } else {
        proof {
            reveal_strlit("/");
            assert("/"@ =~= seq!['/']);
        }
        String::from_str(base).concat("/").concat(name)
    }
}

/// The manifest path a project resolves to: the explicit override if
/// configured, else the per-type default file name under the project
/// path; either way a leading `./` is stripped from the resolved path, as
/// the change detector's path matching needs it; project types without a
/// default require an explicit path.
pub open spec fn spec_manifest_path(
    pt: ProjectType,
    project_path: Seq<char>,
    manifest_path: Option<Seq<char>>,
) -> Result<Seq<char>, SpecSettingsError> {
    match manifest_path {
        Some(m) => Ok(spec_strip_dot_slash(m)),
        None => match pt {
            ProjectType::Helm => Ok(
                spec_strip_dot_slash(spec_join_path(project_path, "Chart.yaml"@)),
            ),
            ProjectType::Node => Ok(
                spec_strip_dot_slash(spec_join_path(project_path, "package.json"@)),
            ),
            ProjectType::Rust => Ok(
                spec_strip_dot_slash(spec_join_path(project_path, "Cargo.toml"@)),
            ),
            _ => Err(SpecSettingsError::ManifestPathRequired { project_type: pt }),
        },
    }
}

impl ProjectSettings {
    /// Return the path to the version file for the project type.
    ///
    /// An explicitly configured manifest path takes the place of the
    /// per-type default under the project path; a leading `./` is
    /// stripped from the resolved path either way, so that the result
    /// works with the version control library's path matching.
    pub fn get_manifest_file_path(&self) -> (r: Result<String, SettingsError>)
        ensures
            match r {
                Ok(p) => spec_manifest_path(
                    self.project_type,
                    self.project_path@,
                    match self.manifest_path {
                        Some(m) => Some(m@),
                        None => None,
                    },
                ) == Ok::<_, SpecSettingsError>(p@),
                Err(e) => spec_manifest_path(
                    self.project_type,
                    self.project_path@,
                    match self.manifest_path {
                        Some(m) => Some(m@),
                        None => None,
                    },
                ) == Err::<Seq<char>, _>(e@),
            },
    {
        match &self.manifest_path {
            Some(m) => Ok(strip_dot_slash(m.as_str())),
            None => {
                let name = match self.project_type {
                    ProjectType::Helm => "Chart.yaml",
                    ProjectType::Node => "package.json",
                    ProjectType::Rust => "Cargo.toml",
                    _ => {
                        return Err(
                            SettingsError::ManifestPathRequired {
                                project_type: self.project_type,
                            },
                        );
                    },
                };
                let joined = join_path(self.project_path.as_str(), name);
                Ok(strip_dot_slash(joined.as_str()))
            },
        }
    }
}

/// The first configured project of this name.
pub open spec fn spec_find_project(
    entries: Seq<(String, ProjectSettings)>,
    name: Seq<char>,
) -> Option<ProjectSettings>
    decreases entries.len(),
{
    if entries.len() == 0 {
        None
    } else if entries[0].0@ == name {
        Some(entries[0].1)
    } else {
        spec_find_project(entries.drop_first(), name)
    }
}

impl Settings {
    /// The settings of the named project, or an error naming it.
    pub fn project_settings<'a>(&'a self, project_name: &str) -> (r: Result<
        &'a ProjectSettings,
        SettingsError,
    >)
        ensures
            match r {
                Ok(ps) => spec_find_project(self.projects@, project_name@) == Some(*ps),
                Err(e) => spec_find_project(self.projects@, project_name@) is None && e@
                    == (SpecSettingsError::NoSuchProject { name: project_name@ }),
            },
    {
        proof {
            assert(self.projects@.skip(0) =~= self.projects@);
        }
        self.find_from(project_name, 0)
    }

    fn find_from<'a>(&'a self, project_name: &str, i: usize) -> (r: Result<
        &'a ProjectSettings,
        SettingsError,
    >)
        requires
            i <= self.projects.len(),
        ensures
            match r {
                Ok(ps) => spec_find_project(self.projects@.skip(i as int), project_name@)
                    == Some(*ps),
                Err(e) => spec_find_project(self.projects@.skip(i as int), project_name@)
                    is None && e@ == (SpecSettingsError::NoSuchProject { name: project_name@ }),
            },
        decreases self.projects.len() - i,
    {
        if i == self.projects.len() {
            proof {
                assert(self.projects@.skip(i as int) =~= Seq::<
                    (String, ProjectSettings),
                >::empty());
            }
            return Err(SettingsError::NoSuchProject { name: String::from_str(project_name) });
        }
        proof {
            assert(self.projects@.skip(i as int)[0] == self.projects@[i as int]);
            assert(self.projects@.skip(i as int).drop_first() =~= self.projects@.skip(
                i as int + 1,
            ));
        }
        let entry = &self.projects[i];
        if crate::strutil::str_eq(entry.0.as_str(), project_name) {
            Ok(&entry.1)
        } else {
            self.find_from(project_name, i + 1)
        }
    }
}

} // verus!
