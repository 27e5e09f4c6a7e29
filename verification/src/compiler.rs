//! The compiler: from a parsed story to the runtime story and its JSON.

pub mod runtime_types;
pub mod codegen;
pub mod json;
pub mod json_output;
pub mod directives_manifest;
pub mod schema_output;

use vstd::prelude::*;
use crate::compiler::codegen::{compile, compile_spec};
use crate::compiler::directives_manifest::{generate_manifest, manifest_json};
use crate::compiler::json::{json_output_text, to_pretty_text};
use crate::compiler::json_output::{story_json, story_to_json};
use crate::compiler::runtime_types::find_key;
use crate::compiler::schema_output::{generate_schema, schema_json};
use crate::def_parser::error::{DefinitionError, DefinitionErrorView, definition_error_text};
use crate::def_parser::types::{Definitions, DefinitionsView, ParamDefView, find_entry, key_seq, lemma_find_key_keys, lookup};
use crate::def_parser::{parse_definitions, parse_definitions_spec, parsed_view};
use crate::ink_parser::ir::{ConditionalBranch, Directive, DirectiveType, DirectiveView, InkError, InkErrorView, ParsedStory, ParsedStoryView, StoryNode, StoryNodeView, branches_view, error_text, has_error, nodes_view};
use crate::ink_parser::{parse_story, parse_story_spec};
use crate::text::{decimal, push_decimal, str_equal, trim_str, trimmed};

verus! {

// ---------------------------------------------------------------------------
// Directives against definitions
// ---------------------------------------------------------------------------

/// ` at <file>:<line>`, where a directive stands.
pub open spec fn at_text(filename: Seq<char>, line: nat) -> Seq<char> {
    " at "@ + filename + ":"@ + decimal(line)
}

/// Whether a kind of definition has an entry under `key`.
pub open spec fn defines<V>(m: Seq<(Seq<char>, V)>, key: Seq<char>) -> bool {
    find_key(m, key) is Some
}

/// The required parameters of an action that the directive leaves out: a
/// parameter is given by an argument at its position, or by an argument
/// that names it.
pub open spec fn missing_params(
    params: Seq<ParamDefView>,
    provided: Seq<Seq<char>>,
    action: Seq<char>,
    at: Seq<char>,
) -> Seq<Seq<char>>
    decreases params.len(),
{
    if params.len() == 0 {
        Seq::empty()
    } else {
        let p = params.last();
        missing_params(params.drop_last(), provided, action, at) + if p.required && provided.len()
            < params.len() && !provided.contains(p.name) {
            seq!["Missing required param '"@ + p.name + "' on action '"@ + action + "'"@ + at]
        } else {
            Seq::empty()
        }
    }
}

/// The position of the first `=` in `s`, if any.
pub open spec fn first_eq(s: Seq<char>) -> Option<int>
    decreases s.len(),
{
    if s.len() == 0 {
        None
    } else {
        match first_eq(s.drop_last()) {
            Some(i) => Some(i),
            None => if s.last() == '=' {
                Some(s.len() - 1)
            } else {
                None
            },
        }
    }
}

/// Undefined asset arguments.
pub open spec fn asset_arg_errors(
    values: Seq<Seq<char>>,
    d: DefinitionsView,
    at: Seq<char>,
) -> Seq<Seq<char>>
    decreases values.len(),
{
    if values.len() == 0 {
        Seq::empty()
    } else {
        asset_arg_errors(values.drop_last(), d, at) + if !defines(d.assets, values.last()) {
            seq!["Undefined asset '"@ + values.last() + "'"@ + at]
        } else {
            Seq::empty()
        }
    }
}

/// What is wrong with one directive: an action, scene, character or event
/// that is not defined (or an action's missing required parameters); for
/// a state assignment `var = ...`, a variable that is not defined; for an
/// asset directive, each argument that is not an asset (or, without
/// arguments, the name).
pub open spec fn directive_errors(dir: DirectiveView, d: DefinitionsView, filename: Seq<char>) -> Seq<
    Seq<char>,
> {
    let at = at_text(filename, dir.location.line);
    let values = dir.args.map_values(|a: crate::ink_parser::ir::DirectiveArgView| a.value);
    match dir.directive_type {
        DirectiveType::Action => match lookup(d.actions, dir.name) {
            None => seq!["Undefined action '"@ + dir.name + "'"@ + at],
            Some(action) => missing_params(action.params, values, dir.name, at),
        },
        DirectiveType::Scene => if !defines(d.scenes, dir.name) {
            seq!["Undefined scene '"@ + dir.name + "'"@ + at]
        } else {
            Seq::empty()
        },
        DirectiveType::Character => if !defines(d.characters, dir.name) {
            seq!["Undefined character '"@ + dir.name + "'"@ + at]
        } else {
            Seq::empty()
        },
        DirectiveType::State => match first_eq(dir.name) {
            Some(k) => {
                let var = trimmed(dir.name.take(k));
                if !defines(d.state, var) {
                    seq!["Undefined state variable '"@ + var + "'"@ + at]
                } else {
                    Seq::empty()
                }
            },
            None => Seq::empty(),
        },
        DirectiveType::Event => if !defines(d.events, dir.name) {
            seq!["Undefined event '"@ + dir.name + "'"@ + at]
        } else {
            Seq::empty()
        },
        DirectiveType::Asset => asset_arg_errors(values, d, at) + if dir.args.len() == 0 && !defines(
            d.assets,
            dir.name,
        ) {
            seq!["Undefined asset '"@ + dir.name + "'"@ + at]
        } else {
            Seq::empty()
        },
    }
}

/// The directive errors of nodes in order, looking into knots, logic
/// blocks and conditional branches.
pub open spec fn nodes_directive_errors(
    nodes: Seq<StoryNodeView>,
    d: DefinitionsView,
    filename: Seq<char>,
) -> Seq<Seq<char>>
    decreases nodes,
{
    if nodes.len() == 0 {
        Seq::empty()
    } else {
        nodes_directive_errors(nodes.drop_last(), d, filename) + match nodes.last() {
            StoryNodeView::Directive(dir) => directive_errors(dir, d, filename),
            StoryNodeView::Knot(k) => nodes_directive_errors(k.content, d, filename),
            StoryNodeView::Logic(l) => nodes_directive_errors(l.content, d, filename),
            StoryNodeView::Conditional(c) => branches_directive_errors(c.branches, d, filename),
            _ => Seq::empty(),
        }
    }
}

pub open spec fn branches_directive_errors(
    bs: Seq<crate::ink_parser::ir::ConditionalBranchView>,
    d: DefinitionsView,
    filename: Seq<char>,
) -> Seq<Seq<char>>
    decreases bs,
{
    if bs.len() == 0 {
        Seq::empty()
    } else {
        branches_directive_errors(bs.drop_last(), d, filename) + nodes_directive_errors(
            bs.last().content,
            d,
            filename,
        )
    }
}

/// The view of a list of messages.
pub open spec fn messages_view(v: Seq<String>) -> Seq<Seq<char>> {
    v.map_values(|s: String| s@)
}

fn push_message(errors: &mut Vec<String>, m: String)
    ensures
        messages_view(final(errors)@) == messages_view(old(errors)@).push(m@),
{
    errors.push(m);
    assert(messages_view(errors@) =~= messages_view(old(errors)@).push(m@));
}

fn push_messages(errors: &mut Vec<String>, ms: Vec<String>)
    ensures
        messages_view(final(errors)@) == messages_view(old(errors)@) + messages_view(ms@),
{
    let mut i: usize = 0;
    while i < ms.len()
        invariant
            i <= ms@.len(),
            messages_view(errors@) == messages_view(old(errors)@) + messages_view(ms@.take(i as int)),
        decreases ms.len() - i,
    {
        push_message(errors, String::from_str(ms[i].as_str()));
        assert(messages_view(ms@.take(i + 1)) =~= messages_view(ms@.take(i as int)).push(ms@[i as int]@));
        assert(messages_view(errors@) =~= messages_view(old(errors)@) + messages_view(ms@.take(i + 1)));
        i = i + 1;
    }
    assert(ms@.take(i as int) =~= ms@);
}

/// `<prefix><name>'<at>`.
fn undefined_message(prefix: &str, name: &str, at: &str) -> (r: String)
    ensures
        r@ == prefix@ + name@ + "'"@ + at@,
{
    let mut s = String::from_str(prefix);
    s.append(name);
    s.append("'");
    s.append(at);
    assert(s@ =~= prefix@ + name@ + "'"@ + at@);
    s
}

fn first_eq_exec(s: &str) -> (r: Option<usize>)
    ensures
        match r {
            Some(i) => first_eq(s@) == Some(i as int) && i < s@.len(),
            None => first_eq(s@) is None,
        },
{
    let v = crate::text::chars_of(s);
    let mut i: usize = 0;
    assert(s@.take(0) =~= Seq::<char>::empty());
    while i < v.len()
        invariant
            v@ == s@,
            i <= v.len(),
            first_eq(s@.take(i as int)) is None,
        decreases v.len() - i,
    {
        assert(s@.take(i + 1).drop_last() =~= s@.take(i as int));
        if v[i] == '=' {
            proof {
                lemma_first_eq_prefix(s@, i as int);
            }
            return Some(i);
        }
        i = i + 1;
    }
    assert(s@.take(i as int) =~= s@);
    None
}

/// The first `=` at position `i`, with none in the prefix before it, is the
/// first `=` of the whole text.
pub proof fn lemma_first_eq_prefix(s: Seq<char>, i: int)
    requires
        0 <= i < s.len(),
        s[i] == '=',
        first_eq(s.take(i)) is None,
    ensures
        first_eq(s) == Some(i),
    decreases s.len(),
{
    if i == s.len() - 1 {
        assert(s.drop_last() =~= s.take(i));
    } else {
        assert(s.drop_last().take(i) =~= s.take(i));
        lemma_first_eq_prefix(s.drop_last(), i);
    }
}

fn validate_directive(dir: &Directive, defs: &Definitions, filename: &str, errors: &mut Vec<String>)
    ensures
        messages_view(final(errors)@) == messages_view(old(errors)@) + directive_errors(dir@, defs@, filename@),
{
    let mut at = String::from_str(" at ");
    at.append(filename);
    at.append(":");
    push_decimal(&mut at, dir.location.line);
    assert(at@ =~= at_text(filename@, dir@.location.line));
    let ghost values = dir@.args.map_values(|a: crate::ink_parser::ir::DirectiveArgView| a.value);
    let ghost expected = directive_errors(dir@, defs@, filename@);
    let mut out: Vec<String> = Vec::new();
    assert(messages_view(out@) =~= Seq::<Seq<char>>::empty());
    match dir.directive_type {
        DirectiveType::Action => {
            let found = find_entry(&defs.actions, dir.name.as_str());
            proof {
                lemma_find_key_keys(defs@.actions, key_seq(defs.actions@), dir.name@);
            }
            match found {
                None => {
                    push_message(&mut out, undefined_message("Undefined action '", dir.name.as_str(), at.as_str()));
                },
                Some(k) => {
                    // Check required params
                    let action = &defs.actions[k].1;
                    let ghost pv = action@.params;
                    let mut i: usize = 0;
                    assert(messages_view(out@) =~= missing_params(pv.take(0), values, dir@.name, at@));
                    while i < action.params.len()
                        invariant
                            i <= action.params@.len(),
                            pv == action@.params,
                            values == dir@.args.map_values(|a: crate::ink_parser::ir::DirectiveArgView| a.value),
                            messages_view(out@) == missing_params(pv.take(i as int), values, dir@.name, at@),
                        decreases action.params.len() - i,
                    {
                        let param = &action.params[i];
                        let mut provided = false;
                        let mut j: usize = 0;
                        while j < dir.args.len()
                            invariant
                                j <= dir.args@.len(),
                                values == dir@.args.map_values(|a: crate::ink_parser::ir::DirectiveArgView| a.value),
                                provided == values.take(j as int).contains(param.name@),
                            decreases dir.args.len() - j,
                        {
                            if str_equal(dir.args[j].value.as_str(), param.name.as_str()) {
                                provided = true;
                            }
                            proof {
                                assert(values.take(j + 1) =~= values.take(j as int).push(values[j as int]));
                                assert(values.take(j + 1).contains(param.name@) <==> (values.take(j as int).contains(param.name@) || values[j as int] == param.name@)) by {
                                    if values.take(j + 1).contains(param.name@) {
                                        let w = choose|w: int| 0 <= w < values.take(j + 1).len() && #[trigger] values.take(j + 1)[w] == param.name@;
                                        if w < j {
                                            assert(values.take(j as int)[w] == param.name@);
                                        }
                                    }
                                    if values.take(j as int).contains(param.name@) {
                                        let w = choose|w: int| 0 <= w < values.take(j as int).len() && #[trigger] values.take(j as int)[w] == param.name@;
                                        assert(values.take(j + 1)[w] == param.name@);
                                    }
                                    if values[j as int] == param.name@ {
                                        assert(values.take(j + 1)[j as int] == param.name@);
                                    }
                                }
                            }
                            j = j + 1;
                        }
                        assert(values.take(j as int) =~= values);
                        if param.required && dir.args.len() <= i && !provided {
                            let mut m = String::from_str("Missing required param '");
                            m.append(param.name.as_str());
                            m.append("' on action '");
                            m.append(dir.name.as_str());
                            m.append("'");
                            m.append(at.as_str());
                            push_message(&mut out, m);
                        }
                        proof {
                            assert(pv.take(i + 1).drop_last() =~= pv.take(i as int));
                            assert(pv.take(i + 1).last() == param@);
                            assert(messages_view(out@) =~= missing_params(pv.take(i + 1), values, dir@.name, at@));
                        }
                        i = i + 1;
                    }
                    assert(pv.take(i as int) =~= pv);
                },
            }
        },
        DirectiveType::Scene => {
            let found = find_entry(&defs.scenes, dir.name.as_str());
            proof {
                lemma_find_key_keys(defs@.scenes, key_seq(defs.scenes@), dir.name@);
            }
            if found.is_none() {
                push_message(&mut out, undefined_message("Undefined scene '", dir.name.as_str(), at.as_str()));
            }
        },
        DirectiveType::Character => {
            let found = find_entry(&defs.characters, dir.name.as_str());
            proof {
                lemma_find_key_keys(defs@.characters, key_seq(defs.characters@), dir.name@);
            }
            if found.is_none() {
                push_message(&mut out, undefined_message("Undefined character '", dir.name.as_str(), at.as_str()));
            }
        },
        DirectiveType::State => {
            // State assignments: extract variable name from "var = ..."
            if let Some(eq_pos) = first_eq_exec(dir.name.as_str()) {
                let head = dir.name.as_str().substring_char(0, eq_pos);
                let var_name = trim_str(head);
                assert(dir@.name.subrange(0, eq_pos as int) =~= dir@.name.take(eq_pos as int));
                let found = find_entry(&defs.state, var_name.as_str());
                proof {
                    lemma_find_key_keys(defs@.state, key_seq(defs.state@), var_name@);
                }
                if found.is_none() {
                    push_message(
                        &mut out,
                        undefined_message("Undefined state variable '", var_name.as_str(), at.as_str()),
                    );
                }
            }
        },
        DirectiveType::Event => {
            let found = find_entry(&defs.events, dir.name.as_str());
            proof {
                lemma_find_key_keys(defs@.events, key_seq(defs.events@), dir.name@);
            }
            if found.is_none() {
                push_message(&mut out, undefined_message("Undefined event '", dir.name.as_str(), at.as_str()));
            }
        },
        DirectiveType::Asset => {
            let mut i: usize = 0;
            assert(messages_view(out@) =~= asset_arg_errors(values.take(0), defs@, at@));
            while i < dir.args.len()
                invariant
                    i <= dir.args@.len(),
                    values == dir@.args.map_values(|a: crate::ink_parser::ir::DirectiveArgView| a.value),
                    messages_view(out@) == asset_arg_errors(values.take(i as int), defs@, at@),
                decreases dir.args.len() - i,
            {
                let arg = &dir.args[i];
                let found = find_entry(&defs.assets, arg.value.as_str());
                proof {
                    lemma_find_key_keys(defs@.assets, key_seq(defs.assets@), arg.value@);
                }
                if found.is_none() {
                    push_message(&mut out, undefined_message("Undefined asset '", arg.value.as_str(), at.as_str()));
                }
                proof {
                    assert(values.take(i + 1).drop_last() =~= values.take(i as int));
                    assert(values.take(i + 1).last() == arg.value@);
                }
                i = i + 1;
            }
            assert(values.take(i as int) =~= values);
            if dir.args.len() == 0 {
                let found = find_entry(&defs.assets, dir.name.as_str());
                proof {
                    lemma_find_key_keys(defs@.assets, key_seq(defs.assets@), dir.name@);
                }
                if found.is_none() {
                    push_message(&mut out, undefined_message("Undefined asset '", dir.name.as_str(), at.as_str()));
                }
            }
        },
    }
    assert(messages_view(out@) =~= expected);
    push_messages(errors, out);
}

fn validate_directives_in_nodes(
    nodes: &Vec<StoryNode>,
    defs: &Definitions,
    filename: &str,
    errors: &mut Vec<String>,
)
    ensures
        messages_view(final(errors)@) == messages_view(old(errors)@) + nodes_directive_errors(
            nodes_view(nodes@),
            defs@,
            filename@,
        ),
    decreases nodes,
{
    let mut i: usize = 0;
    assert(messages_view(errors@) =~= messages_view(old(errors)@) + nodes_directive_errors(
        nodes_view(nodes@.take(0)),
        defs@,
        filename@,
    )) by {
        assert(nodes@.take(0) =~= Seq::<StoryNode>::empty());
    }
    while i < nodes.len()
        invariant
            i <= nodes@.len(),
            messages_view(errors@) == messages_view(old(errors)@) + nodes_directive_errors(
                nodes_view(nodes@.take(i as int)),
                defs@,
                filename@,
            ),
        decreases nodes.len() - i,
    {
        let ghost before = messages_view(errors@);
        match &nodes[i] {
            StoryNode::Directive(dir) => {
                validate_directive(dir, defs, filename, errors);
            },
            StoryNode::Knot(k) => {
                validate_directives_in_nodes(&k.content, defs, filename, errors);
            },
            StoryNode::Logic(l) => {
                validate_directives_in_nodes(&l.content, defs, filename, errors);
            },
            StoryNode::Conditional(c) => {
                validate_directives_in_branches(&c.branches, defs, filename, errors);
            },
            _ => {},
        }
        proof {
            assert(nodes@.take(i + 1) =~= nodes@.take(i as int).push(nodes@[i as int]));
            crate::ink_parser::ir::lemma_nodes_view_push(nodes@.take(i as int), nodes@[i as int]);
            let v = nodes_view(nodes@.take(i + 1));
            assert(v.drop_last() =~= nodes_view(nodes@.take(i as int)));
            assert(messages_view(errors@) =~= messages_view(old(errors)@) + nodes_directive_errors(
                v,
                defs@,
                filename@,
            ));
        }
        i = i + 1;
    }
    assert(nodes@.take(i as int) =~= nodes@);
}

fn validate_directives_in_branches(
    branches: &Vec<ConditionalBranch>,
    defs: &Definitions,
    filename: &str,
    errors: &mut Vec<String>,
)
    ensures
        messages_view(final(errors)@) == messages_view(old(errors)@) + branches_directive_errors(
            branches_view(branches@),
            defs@,
            filename@,
        ),
    decreases branches,
{
    let mut b: usize = 0;
    assert(messages_view(errors@) =~= messages_view(old(errors)@) + branches_directive_errors(
        branches_view(branches@.take(0)),
        defs@,
        filename@,
    )) by {
        assert(branches@.take(0) =~= Seq::<ConditionalBranch>::empty());
    }
    while b < branches.len()
        invariant
            b <= branches@.len(),
            messages_view(errors@) == messages_view(old(errors)@) + branches_directive_errors(
                branches_view(branches@.take(b as int)),
                defs@,
                filename@,
            ),
        decreases branches.len() - b,
    {
        validate_directives_in_nodes(&branches[b].content, defs, filename, errors);
        proof {
            let t = branches@.take(b + 1);
            assert(t =~= branches@.take(b as int).push(branches@[b as int]));
            crate::ink_parser::ir::lemma_branches_view_push(branches@.take(b as int), branches@[b as int]);
            assert(branches_view(t).drop_last() =~= branches_view(branches@.take(b as int)));
            assert(messages_view(errors@) =~= messages_view(old(errors)@) + branches_directive_errors(
                branches_view(t),
                defs@,
                filename@,
            ));
        }
        b = b + 1;
    }
    assert(branches@.take(b as int) =~= branches@);
}

/// Validate @ directives in the parsed story against definitions.
pub fn validate_directives(story: &ParsedStory, defs: &Definitions, filename: &str) -> (r: Vec<String>)
    ensures
        messages_view(r@) == nodes_directive_errors(story@.content, defs@, filename@),
{
    let mut errors: Vec<String> = Vec::new();
    assert(messages_view(errors@) =~= Seq::<Seq<char>>::empty());
    validate_directives_in_nodes(&story.content, defs, filename, &mut errors);
    assert(messages_view(errors@) =~= nodes_directive_errors(story@.content, defs@, filename@));
    errors
}

// ---------------------------------------------------------------------------
// The pipelines
// ---------------------------------------------------------------------------

fn parse_error_messages(errors: &Vec<InkError>) -> (r: Vec<String>)
    ensures
        messages_view(r@) == errors@.map_values(|e: InkError| error_text(e@)),
{
    let mut out: Vec<String> = Vec::new();
    let mut i: usize = 0;
    while i < errors.len()
        invariant
            i <= errors@.len(),
            messages_view(out@) == errors@.take(i as int).map_values(|e: InkError| error_text(e@)),
        decreases errors.len() - i,
    {
        push_message(&mut out, errors[i].to_display_string());
        assert(errors@.take(i + 1).map_values(|e: InkError| error_text(e@)) =~= errors@.take(
            i as int,
        ).map_values(|e: InkError| error_text(e@)).push(error_text(errors@[i as int]@)));
        i = i + 1;
    }
    assert(errors@.take(i as int) =~= errors@);
    out
}

/// The messages of a parsed story's errors.
pub open spec fn story_error_messages(ps: ParsedStoryView) -> Seq<Seq<char>> {
    ps.errors.map_values(|e: InkErrorView| error_text(e))
}

/// The result of compiling ink source: the errors' messages when parsing
/// reports an error, else the story's JSON. (The outer `Option` is that of
/// `parse_story_spec`, which always has a result.)
pub open spec fn compile_ink_spec(source: Seq<char>, filename: Seq<char>) -> Option<
    Result<Seq<char>, Seq<Seq<char>>>,
> {
    match parse_story_spec(source, filename) {
        None => None,
        Some(ps) => Some(
            if has_error(ps.errors) {
                Err(story_error_messages(ps))
            } else {
                Ok(json_output_text(story_json(compile_spec(ps))))
            },
        ),
    }
}

/// The view of a compilation result.
pub open spec fn compile_result_view(r: Result<String, Vec<String>>) -> Result<Seq<char>, Seq<Seq<char>>> {
    match r {
        Ok(s) => Ok(s@),
        Err(e) => Err(messages_view(e@)),
    }
}

/// Compile ink source to JSON (standard ink JSON, directives stripped).
pub fn compile_ink(source: &str, filename: &str) -> (r: Result<String, Vec<String>>)
    requires
        source@.len() < usize::MAX,
    ensures
        compile_ink_spec(source@, filename@) == Some(compile_result_view(r)),
{
    let parsed = parse_story(source, filename);
    if parsed.has_errors() {
        let errors = parse_error_messages(&parsed.errors);
        assert(parsed.errors@.map_values(|e: InkError| error_text(e@)) =~= story_error_messages(parsed@));
        return Err(errors);
    }
    let story = compile(&parsed);
    let json = story_to_json(&story);
    Ok(json)
}

/// The three compiled output artifacts.
#[derive(Debug)]
pub struct CompilationOutput {
    pub ink_json: String,
    pub directives_manifest: String,
    pub definitions_schema: String,
}

pub struct CompilationOutputView {
    pub ink_json: Seq<char>,
    pub directives_manifest: Seq<char>,
    pub definitions_schema: Seq<char>,
}

impl View for CompilationOutput {
    type V = CompilationOutputView;

    open spec fn view(&self) -> CompilationOutputView {
        CompilationOutputView {
            ink_json: self.ink_json@,
            directives_manifest: self.directives_manifest@,
            definitions_schema: self.definitions_schema@,
        }
    }
}

/// Full compilation with definitions: the ink's parse errors, else the
/// definitions' errors, else the directives' errors, else the story's
/// JSON, the directives manifest and the definitions schema. (The outer
/// `Option` is that of `parse_story_spec`, which always has a result.)
pub open spec fn compile_full_spec(
    ink_source: Seq<char>,
    ink_filename: Seq<char>,
    definitions: Result<DefinitionsView, Seq<char>>,
    definitions_filename: Seq<char>,
) -> Option<Result<CompilationOutputView, Seq<Seq<char>>>> {
    match parse_story_spec(ink_source, ink_filename) {
        None => None,
        Some(ps) => Some(
            if has_error(ps.errors) {
                Err(story_error_messages(ps))
            } else {
                match parse_definitions_spec(definitions, definitions_filename) {
                    Err(es) => Err(es.map_values(|e: DefinitionErrorView| definition_error_text(e))),
                    Ok(d) => {
                        let ve = nodes_directive_errors(ps.content, d, ink_filename);
                        if ve.len() > 0 {
                            Err(ve)
                        } else {
                            Ok(
                                CompilationOutputView {
                                    ink_json: json_output_text(story_json(compile_spec(ps))),
                                    directives_manifest: json_output_text(manifest_json(ps, ink_filename)),
                                    definitions_schema: json_output_text(schema_json(d)),
                                },
                            )
                        }
                    },
                }
            },
        ),
    }
}

/// The view of a full compilation result.
pub open spec fn full_result_view(r: Result<CompilationOutput, Vec<String>>) -> Result<
    CompilationOutputView,
    Seq<Seq<char>>,
> {
    match r {
        Ok(o) => Ok(o@),
        Err(e) => Err(messages_view(e@)),
    }
}

/// Full compilation with definitions: produces all three outputs. The
/// definitions come as what reading their YAML gave.
pub fn compile_full(
    ink_source: &str,
    ink_filename: &str,
    definitions: Result<Definitions, String>,
    definitions_filename: &str,
) -> (r: Result<CompilationOutput, Vec<String>>)
    requires
        ink_source@.len() < usize::MAX,
    ensures
        compile_full_spec(ink_source@, ink_filename@, parsed_view(definitions), definitions_filename@)
            == Some(full_result_view(r)),
{
    // Parse ink
    let parsed = parse_story(ink_source, ink_filename);
    if parsed.has_errors() {
        let errors = parse_error_messages(&parsed.errors);
        assert(parsed.errors@.map_values(|e: InkError| error_text(e@)) =~= story_error_messages(parsed@));
        return Err(errors);
    }
    // Parse and validate definitions

    let defs = match parse_definitions(definitions, definitions_filename) {
        Ok(d) => d,
        Err(errors) => {
            let mut out: Vec<String> = Vec::new();
            let mut i: usize = 0;
            while i < errors.len()
                invariant
                    i <= errors@.len(),
                    messages_view(out@) == errors@.take(i as int).map_values(
                        |e: DefinitionError| definition_error_text(e@),
                    ),
                decreases errors.len() - i,
            {
                push_message(&mut out, errors[i].to_display_string());
                assert(errors@.take(i + 1).map_values(|e: DefinitionError| definition_error_text(e@))
                    =~= errors@.take(i as int).map_values(|e: DefinitionError| definition_error_text(e@)).push(
                    definition_error_text(errors@[i as int]@),
                ));
                i = i + 1;
            }
            assert(errors@.take(i as int) =~= errors@);
            assert(errors@.map_values(|e: DefinitionError| definition_error_text(e@))
                =~= crate::def_parser::validate::errors_view(errors@).map_values(
                |e: DefinitionErrorView| definition_error_text(e),
            ));
            return Err(out);
        },
    };

    // Validate directives against definitions
    let validation_errors = validate_directives(&parsed, &defs, ink_filename);
    if validation_errors.len() > 0 {
        return Err(validation_errors);
    }
    // Generate ink JSON (directives stripped)

    let runtime_story = compile(&parsed);
    let ink_json = story_to_json(&runtime_story);

    // Generate directives manifest
    let manifest = generate_manifest(&parsed, ink_filename);

    // Generate definitions schema
    let schema = generate_schema(&defs);

    Ok(
        CompilationOutput {
            ink_json,
            directives_manifest: to_pretty_text(&manifest),
            definitions_schema: to_pretty_text(&schema),
        },
    )
}

// ---------------------------------------------------------------------------
// Directives name what the definitions define
// ---------------------------------------------------------------------------

/// A character, scene, event or action directive whose name has no entry
/// of its kind in the definitions is reported, with where it stands, as
/// `Undefined <kind> '<name>' at <file>:<line>` and nothing else; a
/// character, scene or event directive whose name has an entry is not
/// reported at all.
pub proof fn law_undefined_directive_targets(dir: DirectiveView, d: DefinitionsView, filename: Seq<char>)
    ensures
        ({
            let at = " at "@ + filename + ":"@ + decimal(dir.location.line);
            let errors = directive_errors(dir, d, filename);
            &&& dir.directive_type == DirectiveType::Character ==> errors == if find_key(
                d.characters,
                dir.name,
            ) is None {
                seq!["Undefined character '"@ + dir.name + "'"@ + at]
            } else {
                Seq::empty()
            }
            &&& dir.directive_type == DirectiveType::Scene ==> errors == if find_key(d.scenes, dir.name) is None {
                seq!["Undefined scene '"@ + dir.name + "'"@ + at]
            } else {
                Seq::empty()
            }
            &&& dir.directive_type == DirectiveType::Event ==> errors == if find_key(d.events, dir.name) is None {
                seq!["Undefined event '"@ + dir.name + "'"@ + at]
            } else {
                Seq::empty()
            }
            &&& (dir.directive_type == DirectiveType::Action && find_key(d.actions, dir.name) is None)
                ==> errors == seq!["Undefined action '"@ + dir.name + "'"@ + at]
        }),
{
}

proof fn lemma_no_errors_in_nodes(nodes: Seq<StoryNodeView>, d: DefinitionsView, filename: Seq<char>)
    requires
        nodes_directive_errors(nodes, d, filename).len() == 0,
    ensures
        forall|i: int|
            0 <= i < nodes.len() ==> match #[trigger] nodes[i] {
                StoryNodeView::Directive(dir) => directive_errors(dir, d, filename).len() == 0,
                StoryNodeView::Knot(k) => nodes_directive_errors(k.content, d, filename).len() == 0,
                _ => true,
            },
    decreases nodes.len(),
{
    if nodes.len() > 0 {
        let a = nodes_directive_errors(nodes.drop_last(), d, filename);
        let b = match nodes.last() {
            StoryNodeView::Directive(dir) => directive_errors(dir, d, filename),
            StoryNodeView::Knot(k) => nodes_directive_errors(k.content, d, filename),
            StoryNodeView::Logic(l) => nodes_directive_errors(l.content, d, filename),
            StoryNodeView::Conditional(c) => branches_directive_errors(c.branches, d, filename),
            _ => Seq::empty(),
        };
        assert(nodes_directive_errors(nodes, d, filename) == a + b);
        assert(a.len() == 0 && b.len() == 0);
        lemma_no_errors_in_nodes(nodes.drop_last(), d, filename);
        assert forall|i: int| 0 <= i < nodes.len() implies match #[trigger] nodes[i] {
            StoryNodeView::Directive(dir) => directive_errors(dir, d, filename).len() == 0,
            StoryNodeView::Knot(k) => nodes_directive_errors(k.content, d, filename).len() == 0,
            _ => true,
        } by {
            if i < nodes.len() - 1 {
                assert(nodes[i] == nodes.drop_last()[i]);
            } else {
                assert(nodes[i] == nodes.last());
            }
        }
    }
}

/// A story compiles with definitions only if each of its directives, at
/// the top level and in its knots, names an entry of its kind in the
/// definitions that were accepted: every character, scene, event and
/// action directive.
pub proof fn law_compiled_directives_are_defined(
    source: Seq<char>,
    filename: Seq<char>,
    definitions: Result<DefinitionsView, Seq<char>>,
    definitions_filename: Seq<char>,
    i: int,
    j: int,
)
    requires
        compile_full_spec(source, filename, definitions, definitions_filename) matches Some(Ok(_)),
    ensures
        ({
            let ps = parse_story_spec(source, filename)->Some_0;
            let d = parse_definitions_spec(definitions, definitions_filename)->Ok_0;
            let defined = |dir: DirectiveView|
                {
                    &&& dir.directive_type == DirectiveType::Character ==> find_key(d.characters, dir.name) is Some
                    &&& dir.directive_type == DirectiveType::Scene ==> find_key(d.scenes, dir.name) is Some
                    &&& dir.directive_type == DirectiveType::Event ==> find_key(d.events, dir.name) is Some
                    &&& dir.directive_type == DirectiveType::Action ==> find_key(d.actions, dir.name) is Some
                };
            &&& (0 <= i < ps.content.len() && ps.content[i] is Directive) ==> defined(ps.content[i]->Directive_0)
            &&& (0 <= i < ps.content.len() && ps.content[i] is Knot && 0 <= j < ps.content[i]->Knot_0.content.len()
                && ps.content[i]->Knot_0.content[j] is Directive) ==> defined(
                ps.content[i]->Knot_0.content[j]->Directive_0,
            )
        }),
{
    let ps = parse_story_spec(source, filename)->Some_0;
    let d = parse_definitions_spec(definitions, definitions_filename)->Ok_0;
    lemma_no_errors_in_nodes(ps.content, d, filename);
    if 0 <= i < ps.content.len() {
        let n = ps.content[i];
        match n {
            StoryNodeView::Directive(dir) => {
                law_undefined_directive_targets(dir, d, filename);
            },
            StoryNodeView::Knot(k) => {
                lemma_no_errors_in_nodes(k.content, d, filename);
                if 0 <= j < k.content.len() {
                    match k.content[j] {
                        StoryNodeView::Directive(dir) => {
                            law_undefined_directive_targets(dir, d, filename);
                        },
                        _ => {},
                    }
                }
            },
            _ => {},
        }
    }
}

} // verus!
