//! Shared types of the document editors: the result of a query and the
//! errors that a query or an edit can report.

use vstd::prelude::*;
use vstd::string::StringExecFns;

verus! {

/// A scalar value found in a document, with the 1-based line it sits on.
#[derive(Debug)]
pub struct LineContext {
    pub value: String,
    pub line_number: usize,
}

/// Everything that can go wrong while parsing a selector or querying or
/// editing a document.  The payloads carry the selector segment or the
/// dotted prefix of segments processed so far, as raw bytes of the
/// selector text.
#[derive(Debug, Clone)]
pub enum EditError {
    /// A selector segment is empty after trimming.
    EmptySegment,
    /// A segment contains `[` but does not end with `]`.
    MissingClosingBracket { segment: Vec<u8> },
    /// A segment starts with `[`, leaving no key.
    MissingKey { segment: Vec<u8> },
    /// A `key=value` filter has an empty value.
    EmptyFilterValue { segment: Vec<u8> },
    /// A `key=value` filter has an empty key.
    EmptyFilterKey { segment: Vec<u8> },
    /// An index filter is not a well-formed nonnegative integer.
    InvalidIndex { segment: Vec<u8> },
    /// The document has no root node.
    NoRootNode,
    /// A segment was applied to a node that is not a mapping.
    NotAMapping { prefix: Vec<u8> },
    /// A key was absent, or a sequence filter matched no item.
    KeyNotFound { prefix: Vec<u8> },
    /// An index or key filter was applied to a node that is not a sequence.
    NotASequence { prefix: Vec<u8> },
    /// The selector resolved to a node that is not a scalar.
    NotAScalar { prefix: Vec<u8> },
    /// The document text could not be parsed at all.
    ParseFailure { detail: String },
    /// A node's recorded byte span does not fit inside the document text.
    InvalidSpan,
    /// A TOML selector ran into an array of tables.
    ArrayOfTables,
    /// A TOML selector resolved to a non-string value.
    NotAString { selector: String },
    /// A TOML selector named a key that the document does not have.
    TomlKeyNotFound { selector: String },
    /// The line of an edited TOML value could not be located.
    LineNumberNotFound,
    /// A plain-text version file has no first line.
    EmptyFile,
}

/// The ghost mirror of [`EditError`]: payloads as byte or character
/// sequences, so that contracts can state exactly which error comes back.
pub enum SpecEditError {
    EmptySegment,
    MissingClosingBracket { segment: Seq<u8> },
    MissingKey { segment: Seq<u8> },
    EmptyFilterValue { segment: Seq<u8> },
    EmptyFilterKey { segment: Seq<u8> },
    InvalidIndex { segment: Seq<u8> },
    NoRootNode,
    NotAMapping { prefix: Seq<u8> },
    KeyNotFound { prefix: Seq<u8> },
    NotASequence { prefix: Seq<u8> },
    NotAScalar { prefix: Seq<u8> },
    ParseFailure,
    InvalidSpan,
    ArrayOfTables,
    NotAString { selector: Seq<char> },
    TomlKeyNotFound { selector: Seq<char> },
    LineNumberNotFound,
    EmptyFile,
}

impl View for EditError {
    type V = SpecEditError;

    open spec fn view(&self) -> SpecEditError {
        match self {
            EditError::EmptySegment => SpecEditError::EmptySegment,
            EditError::MissingClosingBracket { segment } => SpecEditError::MissingClosingBracket {
                segment: segment@,
            },
            EditError::MissingKey { segment } => SpecEditError::MissingKey { segment: segment@ },
            EditError::EmptyFilterValue { segment } => SpecEditError::EmptyFilterValue {
                segment: segment@,
            },
            EditError::EmptyFilterKey { segment } => SpecEditError::EmptyFilterKey {
                segment: segment@,
            },
            EditError::InvalidIndex { segment } => SpecEditError::InvalidIndex {
                segment: segment@,
            },
            EditError::NoRootNode => SpecEditError::NoRootNode,
            EditError::NotAMapping { prefix } => SpecEditError::NotAMapping { prefix: prefix@ },
            EditError::KeyNotFound { prefix } => SpecEditError::KeyNotFound { prefix: prefix@ },
            EditError::NotASequence { prefix } => SpecEditError::NotASequence { prefix: prefix@ },
            EditError::NotAScalar { prefix } => SpecEditError::NotAScalar { prefix: prefix@ },
            EditError::ParseFailure { .. } => SpecEditError::ParseFailure,
            EditError::InvalidSpan => SpecEditError::InvalidSpan,
            EditError::ArrayOfTables => SpecEditError::ArrayOfTables,
            EditError::NotAString { selector } => SpecEditError::NotAString {
                selector: selector@,
            },
            EditError::TomlKeyNotFound { selector } => SpecEditError::TomlKeyNotFound {
                selector: selector@,
            },
            EditError::LineNumberNotFound => SpecEditError::LineNumberNotFound,
            EditError::EmptyFile => SpecEditError::EmptyFile,
        }
    }
}

/// Best-effort decoding of selector bytes for an error message.
fn payload_string(v: &Vec<u8>) -> String {
    let copy = vstd::slice::slice_to_vec(v.as_slice());
    match crate::strutil::bytes_to_string(copy) {
        Some(s) => s,
        None => String::new(),
    }
}

impl EditError {
    /// Human-readable description, matching the wording the tool reports.
    /// Presentation only: contracts speak of the variants, not of this text.
    pub fn message(&self) -> String {
        match self {
            EditError::EmptySegment => String::from_str("Selector contains an empty segment"),
            EditError::MissingClosingBracket { segment } => String::from_str(
                "Selector segment '",
            ).concat(payload_string(segment).as_str()).concat("' is missing ']'"),
            EditError::MissingKey { segment } => String::from_str("Selector segment '").concat(
                payload_string(segment).as_str(),
            ).concat("' is missing a key"),
            EditError::EmptyFilterValue { segment } => String::from_str(
                "Selector segment '",
            ).concat(payload_string(segment).as_str()).concat("' has an empty filter value"),
            EditError::EmptyFilterKey { segment } => String::from_str(
                "Selector segment '",
            ).concat(payload_string(segment).as_str()).concat("' has an empty filter key"),
            EditError::InvalidIndex { segment } => String::from_str(
                "Selector segment '",
            ).concat(payload_string(segment).as_str()).concat("' has an invalid index"),
            EditError::NoRootNode => String::from_str(
                "YAML document does not contain a root node",
            ),
            EditError::NotAMapping { prefix } => String::from_str("Value for '").concat(
                payload_string(prefix).as_str(),
            ).concat("' is not a mapping"),
            EditError::KeyNotFound { prefix } => String::from_str("Key '").concat(
                payload_string(prefix).as_str(),
            ).concat("' not found or not scalar"),
            EditError::NotASequence { prefix } => String::from_str("Value for '").concat(
                payload_string(prefix).as_str(),
            ).concat("' is not a sequence"),
            EditError::NotAScalar { prefix } => String::from_str("Value for '").concat(
                payload_string(prefix).as_str(),
            ).concat("' is not a scalar"),
            EditError::ParseFailure { detail } => String::from_str(
                "Failed to parse document: ",
            ).concat(detail.as_str()),
            EditError::InvalidSpan => String::from_str(
                "Document node spans do not fit the document text",
            ),
            EditError::ArrayOfTables => String::from_str(
                "Array of tables not supported for TOML dependent",
            ),
            EditError::NotAString { selector } => String::from_str(
                "Failed to parse value from TOML file for selector: ",
            ).concat(selector.as_str()),
            EditError::TomlKeyNotFound { selector } => String::from_str(
                "Key not found in TOML file for selector: ",
            ).concat(selector.as_str()),
            EditError::LineNumberNotFound => String::from_str(
                "Failed to get line number in TOML file",
            ),
            EditError::EmptyFile => String::from_str(
                "Failed to get value from plain text file",
            ),
        }
    }
}

} // verus!
