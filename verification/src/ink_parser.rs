//! The ink parser: from source text to a parsed story.

pub mod ir;
pub mod parser;
pub mod whitespace;
pub mod tags;
pub mod directives;
pub mod includes;
pub mod content;
pub mod divert;
pub mod choices;
pub mod logic;
pub mod lists;
pub mod sequences;
pub mod conditionals;
pub mod knot;
pub mod statements;

use vstd::prelude::*;
use crate::ink_parser::ir::{ParsedStory, ParsedStoryView, seq_view};
use crate::ink_parser::parser::{Parser, ParserView};
use crate::ink_parser::statements::{StatementLevel, parse_statements_at_level, statements_spec};

verus! {

/// A parser at the start of `source`, with no errors and no open rules.
pub open spec fn start_view(source: Seq<char>, filename: Seq<char>) -> ParserView {
    ParserView { input: source, filename, pos: 0, errors: Seq::empty(), rules: Seq::empty() }
}

/// The story that `source` parses to: its top-level statements and every
/// error reported on the way. There is a result for every source (see
/// `law_parsing_finishes`).
pub open spec fn parse_story_spec(source: Seq<char>, filename: Seq<char>) -> Option<ParsedStoryView> {
    match statements_spec(start_view(source, filename), StatementLevel::Top) {
        None => None,
        Some((p, content)) => Some(
            ParsedStoryView {
                content,
                global_variables: Seq::empty(),
                list_declarations: Seq::empty(),
                external_declarations: Seq::empty(),
                errors: p.errors,
                is_include: false,
            },
        ),
    }
}

/// Parse an ink source string into a ParsedStory.
pub fn parse_story(source: &str, filename: &str) -> (r: ParsedStory)
    requires
        source@.len() < usize::MAX,
    ensures
        parse_story_spec(source@, filename@) == Some(r@),
{
    proof {
        crate::ink_parser::statements::lemma_statements_total(start_view(source@, filename@), StatementLevel::Top);
    }
    let mut p = Parser::new(source, filename);
    let content = parse_statements_at_level(&mut p, StatementLevel::Top);
    let errors = p.take_errors();
    let story = ParsedStory {
        content,
        global_variables: Vec::new(),
        list_declarations: Vec::new(),
        external_declarations: Vec::new(),
        errors,
        is_include: false,
    };
    proof {
        assert(seq_view(story.global_variables@) =~= Seq::empty());
        assert(seq_view(story.list_declarations@) =~= Seq::empty());
        assert(seq_view(story.external_declarations@) =~= Seq::empty());
    }
    story
}

/// Parsing always comes to an end: every source, in every file, parses to a
/// story.
pub proof fn law_parsing_finishes(source: Seq<char>, filename: Seq<char>)
    ensures
        parse_story_spec(source, filename) is Some,
{
    crate::ink_parser::statements::lemma_statements_total(start_view(source, filename), StatementLevel::Top);
}

} // verus!
