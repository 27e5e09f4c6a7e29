//! Errors found in definitions.

use vstd::prelude::*;
use crate::compiler::json::int_text;

verus! {

/// A definition validation error.
#[derive(Debug)]
pub enum DefinitionError {
    YamlError { message: String, filename: String },
    UndefinedReference { kind: String, name: String, referenced_by: String, filename: String },
    TypeMismatch {
        expected: String,
        actual: String,
        name: String,
        referenced_by: String,
        filename: String,
    },
    MissingRequiredField {
        definition_kind: String,
        definition_name: String,
        field: String,
        filename: String,
    },
    DuplicateName { kind: String, name: String, filename: String },
    InvalidSchemaVersion { version: i64, filename: String },
}

pub enum DefinitionErrorView {
    YamlError { message: Seq<char>, filename: Seq<char> },
    UndefinedReference {
        kind: Seq<char>,
        name: Seq<char>,
        referenced_by: Seq<char>,
        filename: Seq<char>,
    },
    TypeMismatch {
        expected: Seq<char>,
        actual: Seq<char>,
        name: Seq<char>,
        referenced_by: Seq<char>,
        filename: Seq<char>,
    },
    MissingRequiredField {
        definition_kind: Seq<char>,
        definition_name: Seq<char>,
        field: Seq<char>,
        filename: Seq<char>,
    },
    DuplicateName { kind: Seq<char>, name: Seq<char>, filename: Seq<char> },
    InvalidSchemaVersion { version: i64, filename: Seq<char> },
}

impl View for DefinitionError {
    type V = DefinitionErrorView;

    open spec fn view(&self) -> DefinitionErrorView {
        match self {
            DefinitionError::YamlError { message, filename } => DefinitionErrorView::YamlError {
                message: message@,
                filename: filename@,
            },
            DefinitionError::UndefinedReference { kind, name, referenced_by, filename } =>
                DefinitionErrorView::UndefinedReference {
                kind: kind@,
                name: name@,
                referenced_by: referenced_by@,
                filename: filename@,
            },
            DefinitionError::TypeMismatch { expected, actual, name, referenced_by, filename } =>
                DefinitionErrorView::TypeMismatch {
                expected: expected@,
                actual: actual@,
                name: name@,
                referenced_by: referenced_by@,
                filename: filename@,
            },
            DefinitionError::MissingRequiredField {
                definition_kind,
                definition_name,
                field,
                filename,
            } => DefinitionErrorView::MissingRequiredField {
                definition_kind: definition_kind@,
                definition_name: definition_name@,
                field: field@,
                filename: filename@,
            },
            DefinitionError::DuplicateName { kind, name, filename } => DefinitionErrorView::DuplicateName {
                kind: kind@,
                name: name@,
                filename: filename@,
            },
            DefinitionError::InvalidSchemaVersion { version, filename } =>
                DefinitionErrorView::InvalidSchemaVersion { version: *version, filename: filename@ },
        }
    }
}

/// Every definition error counts as an error.
pub open spec fn definition_error_is_error(e: DefinitionErrorView) -> bool {
    true
}

/// How an error reads.
pub open spec fn definition_error_text(e: DefinitionErrorView) -> Seq<char> {
    match e {
        DefinitionErrorView::YamlError { message, filename } => "YAML error in "@ + filename + ": "@
            + message,
        DefinitionErrorView::UndefinedReference { kind, name, referenced_by, filename } => "ERROR in "@
            + filename + ": Undefined "@ + kind + " '"@ + name + "' referenced by "@ + referenced_by,
        DefinitionErrorView::TypeMismatch { expected, actual, name, referenced_by, filename } =>
            "ERROR in "@ + filename + ": Type mismatch for '"@ + name + "': expected "@ + expected
            + " but got "@ + actual + ", referenced by "@ + referenced_by,
        DefinitionErrorView::MissingRequiredField {
            definition_kind,
            definition_name,
            field,
            filename,
        } => "ERROR in "@ + filename + ": "@ + definition_kind + " '"@ + definition_name
            + "' missing required field '"@ + field + "'"@,
        DefinitionErrorView::DuplicateName { kind, name, filename } => "ERROR in "@ + filename
            + ": Duplicate "@ + kind + " name '"@ + name + "'"@,
        DefinitionErrorView::InvalidSchemaVersion { version, filename } => "ERROR in "@ + filename
            + ": Invalid schema version "@ + int_text(version as int) + " (expected 1)"@,
    }
}

/// Appends `t` to `s`.
fn append(s: &mut String, t: &str)
    ensures
        final(s)@ == old(s)@ + t@,
{
    s.append(t);
}

impl DefinitionError {
    pub fn is_error(&self) -> (r: bool)
        ensures
            r == definition_error_is_error(self@),
    {
        true
    }

    /// The message, as shown to users.
    pub fn to_display_string(&self) -> (r: String)
        ensures
            r@ == definition_error_text(self@),
    {
        let mut s = String::new();
        match self {
            DefinitionError::YamlError { message, filename } => {
                append(&mut s, "YAML error in ");
                append(&mut s, filename.as_str());
                append(&mut s, ": ");
                append(&mut s, message.as_str());
            },
            DefinitionError::UndefinedReference { kind, name, referenced_by, filename } => {
                append(&mut s, "ERROR in ");
                append(&mut s, filename.as_str());
                append(&mut s, ": Undefined ");
                append(&mut s, kind.as_str());
                append(&mut s, " '");
                append(&mut s, name.as_str());
                append(&mut s, "' referenced by ");
                append(&mut s, referenced_by.as_str());
            },
            DefinitionError::TypeMismatch { expected, actual, name, referenced_by, filename } => {
                append(&mut s, "ERROR in ");
                append(&mut s, filename.as_str());
                append(&mut s, ": Type mismatch for '");
                append(&mut s, name.as_str());
                append(&mut s, "': expected ");
                append(&mut s, expected.as_str());
                append(&mut s, " but got ");
                append(&mut s, actual.as_str());
                append(&mut s, ", referenced by ");
                append(&mut s, referenced_by.as_str());
            },
            DefinitionError::MissingRequiredField {
                definition_kind,
                definition_name,
                field,
                filename,
            } => {
                append(&mut s, "ERROR in ");
                append(&mut s, filename.as_str());
                append(&mut s, ": ");
                append(&mut s, definition_kind.as_str());
                append(&mut s, " '");
                append(&mut s, definition_name.as_str());
                append(&mut s, "' missing required field '");
                append(&mut s, field.as_str());
                append(&mut s, "'");
            },
            DefinitionError::DuplicateName { kind, name, filename } => {
                append(&mut s, "ERROR in ");
                append(&mut s, filename.as_str());
                append(&mut s, ": Duplicate ");
                append(&mut s, kind.as_str());
                append(&mut s, " name '");
                append(&mut s, name.as_str());
                append(&mut s, "'");
            },
            DefinitionError::InvalidSchemaVersion { version, filename } => {
                append(&mut s, "ERROR in ");
                append(&mut s, filename.as_str());
                append(&mut s, ": Invalid schema version ");
                crate::compiler::json::push_int(&mut s, *version);
                append(&mut s, " (expected 1)");
            },
        }
        assert(s@ =~= definition_error_text(self@));
        s
    }
}

} // verus!
