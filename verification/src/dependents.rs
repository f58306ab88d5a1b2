//! Dependent adapters: files whose version-bearing field must mirror a
//! project's newly released version.  Each adapter turns a file's text and
//! the released version into the file's new text; reading and writing the
//! files, and the chart dependency-lock subprocess, happen outside.

use vstd::prelude::*;
use vstd::string::StringExecFns;
use vstd::utf8::encode_utf8;

use crate::bytes::{replace_all_bytes, spec_replace_all};
use crate::edit::{EditError, SpecEditError};
use crate::settings::DependentSettings;
use crate::strutil::{bytes_to_string, str_to_bytes};
use crate::toml::spec_toml_edit_check;
use crate::version::{spec_version_bytes, Version};
use crate::yaml::spec_yaml_edit;

verus! {

/// The kinds of dependent files.
#[derive(Debug, Clone, Copy, PartialEq, Eq, Structural)]
pub enum DependentType {
    Helm,
    Regex,
    Toml,
    Yaml,
}

/// Options a dependent update may honour; the chart adapters use the
/// dependency-lock flag, which the caller acts on after the edit.
#[derive(Debug, Clone, Copy)]
pub struct DependentUpdateOptions {
    pub helm_dependency_update: bool,
}

impl Default for DependentUpdateOptions {
    fn default() -> (r: Self)
        ensures
            !r.helm_dependency_update,
    {
        DependentUpdateOptions { helm_dependency_update: false }
    }
}

/// What a dependent update can reject.
#[derive(Debug, Clone)]
pub enum DependentError {
    Edit { inner: EditError },
    SelectorRequired { dependent_type: DependentType },
    RegexBuild { detail: String },
}

pub enum SpecDependentError {
    Edit { inner: SpecEditError },
    SelectorRequired { dependent_type: DependentType },
    RegexBuild,
}

impl View for DependentError {
    type V = SpecDependentError;

    open spec fn view(&self) -> SpecDependentError {
        match self {
            DependentError::Edit { inner } => SpecDependentError::Edit { inner: inner@ },
            DependentError::SelectorRequired { dependent_type } => {
                SpecDependentError::SelectorRequired { dependent_type: *dependent_type }
            },
            DependentError::RegexBuild { .. } => SpecDependentError::RegexBuild,
        }
    }
}

impl DependentError {
    /// Human-readable description; presentation only.
    pub fn message(&self) -> String {
        match self {
            DependentError::Edit { inner } => inner.message(),
            DependentError::SelectorRequired { dependent_type } => match dependent_type {
                DependentType::Helm => String::from_str("Selector is required for Helm dependent"),
                DependentType::Regex => String::from_str(
                    "Selector is required for regex dependent",
                ),
                DependentType::Toml => String::from_str("Selector is required for TOML dependent"),
                DependentType::Yaml => String::from_str("Selector is required for YAML dependent"),
            },
            DependentError::RegexBuild { detail } => String::from_str(
                "Failed to build regex pattern: ",
            ).concat(detail.as_str()),
        }
    }
}

/// What an adapter promises of its output: the exact bytes, or — where
/// the structured TOML facility renders — the exact rendered text together
/// with the tree that text parses back to.
pub enum EngineOutcome {
    Exact { bytes: Seq<u8> },
    Parsed { rendered: Seq<char>, tree: crate::toml::TomlNode },
}

/// What a `regex` replacement returns: the first match of the pattern in
/// the text (in multi-line mode) replaced by the replacement (given here
/// by its UTF-8 bytes); a function of the three arguments alone.
pub uninterp spec fn regex_replace_first_of(
    pattern: Seq<char>,
    text: Seq<char>,
    rep: Seq<u8>,
) -> Seq<char>;

/// Whether a pattern compiles: a function of the pattern alone.
pub uninterp spec fn regex_pattern_ok(pattern: Seq<char>) -> bool;

/// Relies on `regex::RegexBuilder::build` (with `multi_line(true)`) and
/// `regex::Regex::replace`: compiling fails exactly on an invalid pattern,
/// and the replacement of the first match — with the replacement string
/// undergoing the crate's `$`-group expansion — is a function of the
/// pattern, text and replacement alone.
#[verifier::external_body]
fn regex_replace_first(pattern: &str, text: &str, rep: &str) -> (r: Result<String, String>)
    ensures
        r matches Ok(s) ==> s@ == regex_replace_first_of(pattern@, text@, encode_utf8(rep@)),
        r is Ok <==> regex_pattern_ok(pattern@),
{
    match regex::RegexBuilder::new(pattern).multi_line(true).build() {
        Ok(re) => Ok(re.replace(text, rep).into_owned()),
        Err(e) => Err(format!("{}", e)),
    }
}

/// The bytes of the `{{version}}` placeholder.
pub open spec fn spec_version_token() -> Seq<u8> {
    seq![123u8, 123u8, 118u8, 101u8, 114u8, 115u8, 105u8, 111u8, 110u8, 125u8, 125u8]
}

/// The replacement text a regex dependent writes: the configured template
/// (or the bare version), with every `{{version}}` placeholder replaced by
/// the rendered version.
pub open spec fn spec_regex_replacement(replace: Option<Seq<char>>, v: Version) -> Seq<u8> {
    let base = match replace {
        Some(t) => encode_utf8(t),
        None => spec_version_bytes(v),
    };
    spec_replace_all(base, spec_version_token(), spec_version_bytes(v))
}

/// A dependent adapter: new file text from old file text and the released
/// version.
pub trait Dependent {
    /// The modelled outcome of the update on this adapter.
    spec fn spec_update(&self, text: Seq<u8>, textc: Seq<char>, v: Version) -> Result<
        EngineOutcome,
        SpecDependentError,
    >;

    /// Update the dependent file's text to carry `version`.
    fn update_version(&self, file_content: &str, version: &Version) -> (r: Result<
        String,
        DependentError,
    >)
        ensures
            r matches Ok(s) ==> (self.spec_update(
                encode_utf8(file_content@),
                file_content@,
                *version,
            ) matches Ok(o) && (o matches EngineOutcome::Exact { bytes } ==> encode_utf8(s@)
                == bytes) && (o matches EngineOutcome::Parsed { rendered, tree } ==> s@
                == rendered && crate::toml::toml_doc_of(s@) == Some(tree))),
            r matches Err(e) ==> self.spec_update(
                encode_utf8(file_content@),
                file_content@,
                *version,
            ) == Err::<EngineOutcome, _>(e@),
            r is Ok <==> self.spec_update(encode_utf8(file_content@), file_content@, *version)
                is Ok,
    ;
}

/// The chart-manifest dependent: edits the chart's own `version` field at
/// the configured selector.  Running the dependency-lock subprocess and
/// collecting its artifacts is the caller's business.
#[derive(Debug)]
pub struct HelmDependent {
    pub settings: DependentSettings,
    pub repo_path: String,
}

/// The regex dependent: replaces the first match of the configured pattern
/// with the literal version or the configured template.
#[derive(Debug)]
pub struct RegexDependent {
    pub settings: DependentSettings,
    pub repo_path: String,
}

/// General dependent for TOML files.
#[derive(Debug)]
pub struct TomlDependent {
    pub settings: DependentSettings,
    pub repo_path: String,
}

/// General dependent for YAML files.
#[derive(Debug)]
pub struct YamlDepedent {
    pub settings: DependentSettings,
    pub repo_path: String,
}

impl Dependent for YamlDepedent {
    open spec fn spec_update(&self, text: Seq<u8>, textc: Seq<char>, v: Version) -> Result<
        EngineOutcome,
        SpecDependentError,
    > {
        match self.settings.selector {
            None => Err(
                SpecDependentError::SelectorRequired { dependent_type: DependentType::Yaml },
            ),
            Some(sel) => match spec_yaml_edit(text, encode_utf8(sel@), spec_version_bytes(v)) {
                Ok(b) => Ok(EngineOutcome::Exact { bytes: b }),
                Err(e) => Err(SpecDependentError::Edit { inner: e }),
            },
        }
    }

    fn update_version(&self, file_content: &str, version: &Version) -> (r: Result<
        String,
        DependentError,
    >) {
        let sel = match &self.settings.selector {
            Some(s) => s,
            None => {
                return Err(
                    DependentError::SelectorRequired { dependent_type: DependentType::Yaml },
                );
            },
        };
        let rendered = version.render();
        match crate::yaml::edit(file_content, sel.as_str(), rendered.as_str()) {
            Ok(s) => Ok(s),
            Err(e) => Err(DependentError::Edit { inner: e }),
        }
    }
}

impl Dependent for HelmDependent {
    open spec fn spec_update(&self, text: Seq<u8>, textc: Seq<char>, v: Version) -> Result<
        EngineOutcome,
        SpecDependentError,
    > {
        match self.settings.selector {
            None => Err(
                SpecDependentError::SelectorRequired { dependent_type: DependentType::Helm },
            ),
            Some(sel) => match spec_yaml_edit(text, encode_utf8(sel@), spec_version_bytes(v)) {
                Ok(b) => Ok(EngineOutcome::Exact { bytes: b }),
                Err(e) => Err(SpecDependentError::Edit { inner: e }),
            },
        }
    }

    fn update_version(&self, file_content: &str, version: &Version) -> (r: Result<
        String,
        DependentError,
    >) {
        let sel = match &self.settings.selector {
            Some(s) => s,
            None => {
                return Err(
                    DependentError::SelectorRequired { dependent_type: DependentType::Helm },
                );
            },
        };
        let rendered = version.render();
        match crate::yaml::edit(file_content, sel.as_str(), rendered.as_str()) {
            Ok(s) => Ok(s),
            Err(e) => Err(DependentError::Edit { inner: e }),
        }
    }
}

impl Dependent for TomlDependent {
    open spec fn spec_update(&self, text: Seq<u8>, textc: Seq<char>, v: Version) -> Result<
        EngineOutcome,
        SpecDependentError,
    > {
        match self.settings.selector {
            None => Err(
                SpecDependentError::SelectorRequired { dependent_type: DependentType::Toml },
            ),
            Some(sel) => match spec_toml_edit_check(textc, sel@) {
                Ok(_) => Ok(
                    EngineOutcome::Parsed {
                        rendered: crate::toml::toml_assigned_render(
                            textc,
                            crate::toml::spec_sel_keys(sel@),
                            spec_version_bytes(v),
                        ),
                        tree: crate::toml::spec_assign(
                            crate::toml::toml_doc_of(textc)->Some_0,
                            crate::toml::spec_sel_keys(sel@),
                            spec_version_bytes(v),
                        ),
                    },
                ),
                Err(e) => Err(SpecDependentError::Edit { inner: e }),
            },
        }
    }

    fn update_version(&self, file_content: &str, version: &Version) -> (r: Result<
        String,
        DependentError,
    >) {
        let sel = match &self.settings.selector {
            Some(s) => s,
            None => {
                return Err(
                    DependentError::SelectorRequired { dependent_type: DependentType::Toml },
                );
            },
        };
        let rendered = version.render();
        match crate::toml::edit(file_content, sel.as_str(), rendered.as_str()) {
            Ok(s) => Ok(s),
            Err(e) => Err(DependentError::Edit { inner: e }),
        }
    }
}

impl Dependent for RegexDependent {
    open spec fn spec_update(&self, text: Seq<u8>, textc: Seq<char>, v: Version) -> Result<
        EngineOutcome,
        SpecDependentError,
    > {
        match self.settings.selector {
            None => Err(
                SpecDependentError::SelectorRequired { dependent_type: DependentType::Regex },
            ),
            Some(pat) => {
                if regex_pattern_ok(pat@) {
                    Ok(
                        EngineOutcome::Exact {
                            bytes: encode_utf8(
                                regex_replace_first_of(
                                    pat@,
                                    textc,
                                    spec_regex_replacement(
                                        match self.settings.replace {
                                            Some(t) => Some(t@),
                                            None => None,
                                        },
                                        v,
                                    ),
                                ),
                            ),
                        },
                    )
                } else {
                    Err(SpecDependentError::RegexBuild)
                }
            },
        }
    }

    fn update_version(&self, file_content: &str, version: &Version) -> (r: Result<
        String,
        DependentError,
    >) {
        let sel = match &self.settings.selector {
            Some(s) => s,
            None => {
                return Err(
                    DependentError::SelectorRequired { dependent_type: DependentType::Regex },
                );
            },
        };
        let rep = self.regex_replacement(version);
        match regex_replace_first(sel.as_str(), file_content, rep.as_str()) {
            Ok(s) => Ok(s),
            Err(detail) => Err(DependentError::RegexBuild { detail }),
        }
    }
}

impl RegexDependent {
    /// The replacement text: template or bare version, `{{version}}`
    /// placeholders substituted.  Always valid UTF-8: an ASCII token is
    /// replaced by ASCII version bytes inside a valid template.
    fn regex_replacement(&self, version: &Version) -> (r: String)
        ensures
            encode_utf8(r@) == spec_regex_replacement(
                match self.settings.replace {
                    Some(t) => Some(t@),
                    None => None,
                },
                *version,
            ),
    {
        let rendered = version.render();
        let base = match &self.settings.replace {
            Some(t) => str_to_bytes(t.as_str()),
            None => str_to_bytes(rendered.as_str()),
        };
        let mut needle: Vec<u8> = Vec::new();
        needle.push(123);
        needle.push(123);
        needle.push(118);
        needle.push(101);
        needle.push(114);
        needle.push(115);
        needle.push(105);
        needle.push(111);
        needle.push(110);
        needle.push(125);
        needle.push(125);
        proof {
            assert(needle@ =~= spec_version_token());
        }
        let vb = str_to_bytes(rendered.as_str());
        let out = replace_all_bytes(base.as_slice(), needle.as_slice(), vb.as_slice());
        proof {
            match &self.settings.replace {
                Some(t) => {
                    vstd::utf8::encode_utf8_valid_utf8(t@);
                },
                None => {
                    vstd::utf8::encode_utf8_valid_utf8(rendered@);
                },
            }
            vstd::utf8::encode_utf8_valid_utf8(rendered@);
            assert(crate::strutil::all_ascii(spec_version_token())) by {
                assert forall|i: int|
                    0 <= i < spec_version_token().len() implies #[trigger] spec_version_token()[i]
                    < 128 by {
                    if i == 0 || i == 1 || i == 9 || i == 10 {
                    } else if i == 2 || i == 3 || i == 4 || i == 5 {
                    } else {
                    }
                }
            }
            crate::strutil::lemma_replace_all_valid(base@, spec_version_token(), vb@);
        }
        match bytes_to_string(out) {
            Some(s) => s,
            None => {
                proof {
                    assert(false);
                }
                String::new()
            },
        }
    }
}

/// The dependents a project can declare, behind one dispatching handle.
#[derive(Debug)]
pub enum DependentHandle {
    Helm(HelmDependent),
    Regex(RegexDependent),
    Toml(TomlDependent),
    Yaml(YamlDepedent),
}

/// Build the dependent adapter a settings entry names.
pub fn get_dependent(dependent_settings: DependentSettings, repo_path: String) -> (r: Result<
    DependentHandle,
    DependentError,
>)
    ensures
        r is Ok,
        r matches Ok(h) ==> match h {
            DependentHandle::Helm(d) => d.settings == dependent_settings && d.repo_path
                == repo_path && dependent_settings.dependent_type == DependentType::Helm,
            DependentHandle::Regex(d) => d.settings == dependent_settings && d.repo_path
                == repo_path && dependent_settings.dependent_type == DependentType::Regex,
            DependentHandle::Toml(d) => d.settings == dependent_settings && d.repo_path
                == repo_path && dependent_settings.dependent_type == DependentType::Toml,
            DependentHandle::Yaml(d) => d.settings == dependent_settings && d.repo_path
                == repo_path && dependent_settings.dependent_type == DependentType::Yaml,
        },
{
    let settings = dependent_settings;
    match settings.dependent_type {
        DependentType::Helm => Ok(DependentHandle::Helm(HelmDependent { settings, repo_path })),
        DependentType::Regex => Ok(
            DependentHandle::Regex(RegexDependent { settings, repo_path }),
        ),
        DependentType::Toml => Ok(DependentHandle::Toml(TomlDependent { settings, repo_path })),
        DependentType::Yaml => Ok(DependentHandle::Yaml(YamlDepedent { settings, repo_path })),
    }
}

/// A copy of a string, character for character.
pub fn clone_string(s: &String) -> (r: String)
    ensures
        r@ == s@,
{
    String::from_str(s.as_str())
}

impl DependentHandle {
    /// The modelled outcome of the update for whichever adapter this is.
    pub open spec fn spec_update(&self, text: Seq<u8>, textc: Seq<char>, v: Version) -> Result<
        EngineOutcome,
        SpecDependentError,
    > {
        match self {
            DependentHandle::Helm(d) => d.spec_update(text, textc, v),
            DependentHandle::Regex(d) => d.spec_update(text, textc, v),
            DependentHandle::Toml(d) => d.spec_update(text, textc, v),
            DependentHandle::Yaml(d) => d.spec_update(text, textc, v),
        }
    }

    /// The dependent file path this adapter edits: the chart dependent
    /// edits `Chart.yaml` under its configured directory, the others the
    /// configured path itself.
    pub fn get_file_path(&self) -> (r: String)
        ensures
            r@ == match self {
                DependentHandle::Helm(d) => crate::settings::spec_join_path(
                    d.settings.dependent_path@,
                    "Chart.yaml"@,
                ),
                DependentHandle::Regex(d) => d.settings.dependent_path@,
                DependentHandle::Toml(d) => d.settings.dependent_path@,
                DependentHandle::Yaml(d) => d.settings.dependent_path@,
            },
    {
        match self {
            DependentHandle::Helm(d) => crate::settings::join_path(
                d.settings.dependent_path.as_str(),
                "Chart.yaml",
            ),
            DependentHandle::Regex(d) => clone_string(&d.settings.dependent_path),
            DependentHandle::Toml(d) => clone_string(&d.settings.dependent_path),
            DependentHandle::Yaml(d) => clone_string(&d.settings.dependent_path),
        }
    }

    /// Update the dependent file's text to carry `version`.
    pub fn update_version(&self, file_content: &str, version: &Version) -> (r: Result<
        String,
        DependentError,
    >)
        ensures
            r matches Ok(s) ==> (self.spec_update(
                encode_utf8(file_content@),
                file_content@,
                *version,
            ) matches Ok(o) && (o matches EngineOutcome::Exact { bytes } ==> encode_utf8(s@)
                == bytes) && (o matches EngineOutcome::Parsed { rendered, tree } ==> s@
                == rendered && crate::toml::toml_doc_of(s@) == Some(tree))),
            r matches Err(e) ==> self.spec_update(
                encode_utf8(file_content@),
                file_content@,
                *version,
            ) == Err::<EngineOutcome, _>(e@),
            r is Ok <==> self.spec_update(encode_utf8(file_content@), file_content@, *version)
                is Ok,
    {
        match self {
            DependentHandle::Helm(d) => d.update_version(file_content, version),
            DependentHandle::Regex(d) => d.update_version(file_content, version),
            DependentHandle::Toml(d) => d.update_version(file_content, version),
            DependentHandle::Yaml(d) => d.update_version(file_content, version),
        }
    }
}

} // verus!
