//! Definitions for `.inkdef.yaml` files: their types, their errors and
//! their validation.

pub mod types;
pub mod error;
pub mod validate;

use vstd::prelude::*;
use crate::def_parser::error::{DefinitionError, DefinitionErrorView, definition_error_is_error};
use crate::def_parser::types::{Definitions, DefinitionsView, distinct_definitions, distinct_defs, law_distinct_definitions_wf};
use crate::def_parser::validate::{errors_view, validate, validate_spec};

verus! {

/// The definitions that a file yields, given what reading its YAML gave
/// (the definitions, or the reader's message): a YAML error for an
/// unreadable file; else, with each kind held as a map (a later entry under
/// a name replaces the earlier one), the validation errors when there are
/// any, else the definitions.
pub open spec fn parse_definitions_spec(
    parsed: Result<DefinitionsView, Seq<char>>,
    filename: Seq<char>,
) -> Result<DefinitionsView, Seq<DefinitionErrorView>> {
    match parsed {
        Err(message) => Err(seq![DefinitionErrorView::YamlError { message, filename }]),
        Ok(read) => {
            let d = distinct_definitions(read);
            let errors = validate_spec(d, filename);
            if exists|i: int| 0 <= i < errors.len() && definition_error_is_error(#[trigger] errors[i]) {
                Err(errors)
            } else {
                Ok(d)
            }
        },
    }
}

/// The view of a result of reading definitions.
pub open spec fn defs_result_view(r: Result<Definitions, Vec<DefinitionError>>) -> Result<
    DefinitionsView,
    Seq<DefinitionErrorView>,
> {
    match r {
        Ok(d) => Ok(d@),
        Err(e) => Err(errors_view(e@)),
    }
}

/// The view of what reading YAML gave.
pub open spec fn parsed_view(p: Result<Definitions, String>) -> Result<DefinitionsView, Seq<char>> {
    match p {
        Ok(d) => Ok(d@),
        Err(m) => Err(m@),
    }
}

/// Validate definitions read from `filename`, given what reading its YAML
/// gave. Returns the definitions, each kind held as a map, or the errors.
pub fn parse_definitions(parsed: Result<Definitions, String>, filename: &str) -> (r: Result<
    Definitions,
    Vec<DefinitionError>,
>)
    ensures
        defs_result_view(r) == parse_definitions_spec(parsed_view(parsed), filename@),
{
    let ghost pv = parsed_view(parsed);
    match parsed {
        Err(message) => {
            let e = DefinitionError::YamlError { message, filename: String::from_str(filename) };
            let mut errors: Vec<DefinitionError> = Vec::new();
            errors.push(e);
            assert(errors_view(errors@) =~= seq![e@]);
            Err(errors)
        },
        Ok(read) => {
            let defs = distinct_defs(read);
            let errors = validate(&defs, filename);
            let mut i: usize = 0;
            while i < errors.len()
                invariant
                    i <= errors@.len(),
                    pv == parsed_view(parsed),
                    pv == Ok::<DefinitionsView, Seq<char>>(read@),
                    defs@ == distinct_definitions(read@),
                    errors_view(errors@) == validate_spec(defs@, filename@),
                    forall|j: int| 0 <= j < i ==> !definition_error_is_error(#[trigger] errors_view(errors@)[j]),
                decreases errors.len() - i,
            {
                if errors[i].is_error() {
                    assert(definition_error_is_error(errors_view(errors@)[i as int]));
                    return Err(errors);
                }
                i = i + 1;
            }
            Ok(defs)
        },
    }
}

/// What reading YAML gave, each kind held as a map (a later entry under a
/// name replaces the earlier one), with an unreadable file as a YAML error.
pub fn parse_definitions_unvalidated(parsed: Result<Definitions, String>, filename: &str) -> (r: Result<
    Definitions,
    DefinitionError,
>)
    ensures
        match (parsed, r) {
            (Ok(d), Ok(e)) => e@ == distinct_definitions(d@),
            (Err(m), Err(e)) => e@ == (DefinitionErrorView::YamlError { message: m@, filename: filename@ }),
            _ => false,
        },
{
    match parsed {
        Ok(defs) => Ok(distinct_defs(defs)),
        Err(message) => Err(DefinitionError::YamlError { message, filename: String::from_str(filename) }),
    }
}


/// Definitions that read are accepted exactly when validation finds
/// nothing wrong with them (held as maps); what is accepted is them, held
/// as maps, with each name once per kind.
pub proof fn law_definitions_accepted_iff_valid(d: DefinitionsView, filename: Seq<char>)
    ensures
        (parse_definitions_spec(Ok(d), filename) is Ok) <==> validate_spec(distinct_definitions(d), filename).len()
            == 0,
        parse_definitions_spec(Ok(d), filename) is Ok ==> parse_definitions_spec(Ok(d), filename)
            == Ok::<DefinitionsView, Seq<DefinitionErrorView>>(distinct_definitions(d)),
        parse_definitions_spec(Ok(d), filename) is Ok ==> parse_definitions_spec(Ok(d), filename)->Ok_0.wf(),
{
    let errors = validate_spec(distinct_definitions(d), filename);
    if errors.len() > 0 {
        assert(definition_error_is_error(errors[0]));
    }
    law_distinct_definitions_wf(d);
}

/// A file whose YAML does not read is reported as one YAML error.
pub proof fn law_unreadable_definitions(message: Seq<char>, filename: Seq<char>)
    ensures
        parse_definitions_spec(Err(message), filename) == Err::<DefinitionsView, Seq<DefinitionErrorView>>(
            seq![DefinitionErrorView::YamlError { message, filename }],
        ),
{
}

} // verus!
