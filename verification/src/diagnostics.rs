//! Editor diagnostics: the parse errors of a document as ranges, severities
//! and messages.

use vstd::prelude::*;
use crate::ink_parser::ir::{ErrorType, InkError, InkErrorView};
use crate::ink_parser::{parse_story, parse_story_spec};

verus! {

/// One diagnostic: a range of zero-based lines and characters, whether it
/// is an error (else a warning), and the message.
#[derive(Debug)]
pub struct DiagnosticData {
    pub start_line: u32,
    pub start_character: u32,
    pub end_line: u32,
    pub end_character: u32,
    pub is_error: bool,
    pub message: String,
}

pub struct DiagnosticView {
    pub start_line: u32,
    pub start_character: u32,
    pub end_line: u32,
    pub end_character: u32,
    pub is_error: bool,
    pub message: Seq<char>,
}

impl View for DiagnosticData {
    type V = DiagnosticView;

    open spec fn view(&self) -> DiagnosticView {
        DiagnosticView {
            start_line: self.start_line,
            start_character: self.start_character,
            end_line: self.end_line,
            end_character: self.end_character,
            is_error: self.is_error,
            message: self.message@,
        }
    }
}

/// One less, wrapping around below zero.
pub open spec fn minus_one(x: u32) -> u32 {
    if x == 0 {
        u32::MAX
    } else {
        (x - 1) as u32
    }
}

fn minus_one_exec(x: u32) -> (r: u32)
    ensures
        r == minus_one(x),
{
    if x == 0 {
        u32::MAX
    } else {
        x - 1
    }
}

/// The diagnostic of an error: the one character at its (one-based) line
/// and column, as zero-based positions.
pub open spec fn diagnostic_of(e: InkErrorView) -> DiagnosticView {
    let line = minus_one(e.location.line as u32);
    DiagnosticView {
        start_line: line,
        start_character: minus_one(e.location.column as u32),
        end_line: line,
        end_character: e.location.column as u32,
        is_error: e.error_type == ErrorType::Error,
        message: e.message,
    }
}

/// The diagnostics of a document's parse errors, in order. (The outer
/// `Option` is that of `parse_story_spec`, which always has a result.)
pub open spec fn diagnostics_spec(path: Seq<char>, source: Seq<char>) -> Option<Seq<DiagnosticView>> {
    match parse_story_spec(source, path) {
        Some(ps) => Some(ps.errors.map_values(|e: InkErrorView| diagnostic_of(e))),
        None => None,
    }
}

fn diagnostic(err: &InkError) -> (r: DiagnosticData)
    ensures
        r@ == diagnostic_of(err@),
{
    let line = minus_one_exec(err.location.line as u32);
    DiagnosticData {
        start_line: line,
        start_character: minus_one_exec(err.location.column as u32),
        end_line: line,
        end_character: err.location.column as u32,
        is_error: err.is_error(),
        message: String::from_str(err.message.as_str()),
    }
}

/// The diagnostics of a document at `path` with the text `source`.
pub fn get_diagnostics(path: &str, source: &str) -> (r: Vec<DiagnosticData>)
    requires
        source@.len() < usize::MAX,
    ensures
        diagnostics_spec(path@, source@) == Some(r@.map_values(|d: DiagnosticData| d@)),
{
    let story = parse_story(source, path);
    let mut out: Vec<DiagnosticData> = Vec::new();
    let mut i: usize = 0;
    while i < story.errors.len()
        invariant
            i <= story.errors@.len(),
            out@.map_values(|d: DiagnosticData| d@) == story@.errors.take(i as int).map_values(
                |e: InkErrorView| diagnostic_of(e),
            ),
        decreases story.errors.len() - i,
    {
        let d = diagnostic(&story.errors[i]);
        let ghost before = out@;
        out.push(d);
        assert(story@.errors[i as int] == story.errors@[i as int]@);
        assert(story@.errors.take(i + 1) =~= story@.errors.take(i as int).push(story.errors@[i as int]@));
        assert(out@ =~= before.push(d));
        assert(out@.map_values(|d: DiagnosticData| d@) =~= before.map_values(|d: DiagnosticData| d@).push(
            diagnostic_of(story@.errors[i as int]),
        ));
        assert(story@.errors.take(i + 1).map_values(|e: InkErrorView| diagnostic_of(e)) =~= story@.errors.take(
            i as int,
        ).map_values(|e: InkErrorView| diagnostic_of(e)).push(diagnostic_of(story@.errors[i as int])));
        assert(out@.map_values(|d: DiagnosticData| d@) =~= story@.errors.take(i + 1).map_values(
            |e: InkErrorView| diagnostic_of(e),
        ));
        i = i + 1;
    }
    assert(story@.errors.take(i as int) =~= story@.errors);
    out
}

} // verus!
