//! Statements at a nesting level: the top of a story, a knot, a stitch or an
//! inner block, and the dispatch of one statement to the construct it
//! starts.

use vstd::prelude::*;
use crate::ink_parser::choices::{parse_choice_full, parse_choice_spec, parse_gather, parse_gather_spec};
use crate::ink_parser::conditionals::{lemma_conditional_total, parse_conditional, parse_conditional_spec};
use crate::ink_parser::content::{parse_text_line, parse_text_line_spec};
use crate::ink_parser::directives::{parse_directive, parse_directive_spec};
use crate::ink_parser::divert::{parse_multi_divert, parse_multi_divert_spec};
use crate::ink_parser::includes::{parse_include, parse_include_spec};
use crate::ink_parser::ir::{StoryNode, StoryNodeView, lemma_nodes_view_push, nodes_view, opt_node_view};
use crate::ink_parser::knot::{
    at_knot_declaration, knot_definition_spec, lemma_declarations_total, parse_knot_declaration_spec,
    parse_knot_definition, parse_stitch_declaration_spec, parse_stitch_definition, stitch_definition_spec,
};
use crate::ink_parser::lists::{lemma_list_declaration_total, parse_list_declaration, parse_list_declaration_spec};
use crate::ink_parser::logic::{
    lemma_external_declaration_total, parse_const_declaration, parse_const_declaration_spec,
    parse_external_declaration,
    parse_external_declaration_spec, parse_logic_line, parse_logic_line_spec,
    parse_var_declaration, parse_var_declaration_spec,
};
use crate::ink_parser::parser::{Parser, ParserView};
use crate::ink_parser::sequences::{parse_sequence, parse_sequence_spec};
use crate::ink_parser::tags::{parse_tag, parse_tag_spec};
use crate::ink_parser::whitespace::{
    multiline_whitespace_loop, parse_author_warning, parse_author_warning_spec,
    parse_multiline_whitespace,
};
use crate::text::{all_whitespace, concat_strs, prefix_within_bytes, prefix_within_bytes_spec, trims_to_empty};

verus! {

/// Statement level context
#[derive(Debug, Clone, Copy, PartialEq, Eq, Structural, PartialOrd, Ord)]
pub enum StatementLevel {
    InnerBlock,
    Stitch,
    Knot,
    Top,
}

/// The levels in nesting order: an inner block lies deepest, the top of the
/// story outermost.
pub open spec fn level_rank(level: StatementLevel) -> nat {
    match level {
        StatementLevel::InnerBlock => 0,
        StatementLevel::Stitch => 1,
        StatementLevel::Knot => 2,
        StatementLevel::Top => 3,
    }
}

fn rank_of(level: StatementLevel) -> (r: u8)
    ensures
        r as nat == level_rank(level),
{
    match level {
        StatementLevel::InnerBlock => 0,
        StatementLevel::Stitch => 1,
        StatementLevel::Knot => 2,
        StatementLevel::Top => 3,
    }
}

/// The state after an attempt made under a rule that began at `start`: on
/// success the rule is dropped, on failure the cursor goes back to `start`
/// (errors the attempt reported stay).
pub open spec fn rule_outcome<T>(start: ParserView, after: ParserView, r: Option<T>) -> (
    ParserView,
    Option<T>,
) {
    match r {
        Some(x) => (after.succeed_rule(), Some(x)),
        None => (after.fail_rule(start.rules.len()), None),
    }
}

/// A statement attempt that gives nothing leaves the cursor, the input and
/// the open rules as they were before it, keeping only the errors it
/// reported; one that gives a node keeps the cursor where it ended.
pub proof fn law_attempt_outcome<T>(start: ParserView, after: ParserView, r: Option<T>)
    requires
        after.same_source(start.begin_rule().0),
    ensures
        r is None ==> rule_outcome(start, after, r).0 == (ParserView { errors: after.errors, ..start }),
        r is Some ==> rule_outcome(start, after, r).0 == (ParserView {
            pos: after.pos,
            errors: after.errors,
            ..start
        }),
{
    crate::ink_parser::parser::law_fail_rule_restores(start, after);
    crate::ink_parser::parser::law_succeed_rule_keeps_position(start, after);
}

/// `rule_outcome` for an attempt whose spec has an outer `Option`.
pub open spec fn rule_outcome_opt<T>(start: ParserView, res: Option<(ParserView, Option<T>)>) -> Option<
    (ParserView, Option<T>),
> {
    match res {
        None => None,
        Some((after, r)) => Some(rule_outcome(start, after, r)),
    }
}

/// A choice (after `*` or `+`), a divert line (after `->`, then a newline),
/// or a gather (not in an inner block).
#[verifier::opaque]
pub open spec fn statement_marks_spec(pv: ParserView, level: StatementLevel) -> (
    ParserView,
    Option<StoryNodeView>,
) {
    let (a, ra) = if pv.peek() == Some('*') || pv.peek() == Some('+') {
        let (q1, r) = parse_choice_spec(pv.begin_rule().0);
        rule_outcome(pv, q1, r)
    } else {
        (pv, None)
    };
    if ra is Some {
        (a, ra)
    } else {
        let (b, rb) = if a.starts_with("->"@) {
            let (q1, r) = parse_multi_divert_spec(a.begin_rule().0);
            let (q2, r2) = rule_outcome(a, q1, r);
            if r2 is Some {
                (q2.parse_newline().0, r2)
            } else {
                (q2, r2)
            }
        } else {
            (a, None)
        };
        if rb is Some {
            (b, rb)
        } else if level_rank(level) > 0 {
            let (q1, r) = parse_gather_spec(b.begin_rule().0);
            rule_outcome(b, q1, r)
        } else {
            (b, None)
        }
    }
}

/// `VAR`, `CONST`, `EXTERNAL`, `LIST` and `INCLUDE`, each tried in turn.
#[verifier::opaque]
pub open spec fn statement_declaration_spec(pv: ParserView) -> Option<(ParserView, Option<StoryNodeView>)> {
    let (q1, r1) = parse_var_declaration_spec(pv.begin_rule().0);
    let (a, ra) = rule_outcome(pv, q1, r1);
    if ra is Some {
        Some((a, ra))
    } else {
        let (q2, r2) = parse_const_declaration_spec(a.begin_rule().0);
        let (b, rb) = rule_outcome(a, q2, r2);
        if rb is Some {
            Some((b, rb))
        } else {
            match rule_outcome_opt(b, parse_external_declaration_spec(b.begin_rule().0)) {
                None => None,
                Some((c, rc)) => if rc is Some {
                    Some((c, rc))
                } else {
                    match rule_outcome_opt(c, parse_list_declaration_spec(c.begin_rule().0)) {
                        None => None,
                        Some((d, rd)) => if rd is Some {
                            Some((d, rd))
                        } else {
                            let (q5, inc) = parse_include_spec(d.begin_rule().0);
                            let (e, re) = rule_outcome(d, q5, inc);
                            Some(
                                (
                                    e,
                                    match re {
                                        Some(f) => Some(StoryNodeView::Include(f)),
                                        None => None,
                                    },
                                ),
                            )
                        },
                    }
                },
            }
        }
    }
}

/// A logic line (after `~`), or after `{` a sequence, or else (unless the
/// brace begins `{!`, `{~` or `{&`) a conditional followed by a newline.
#[verifier::opaque]
pub open spec fn statement_block_spec(pv: ParserView) -> Option<(ParserView, Option<StoryNodeView>)> {
    let (a, ra) = if pv.peek() == Some('~') {
        let (q1, r) = parse_logic_line_spec(pv.begin_rule().0);
        rule_outcome(pv, q1, r)
    } else {
        (pv, None)
    };
    if ra is Some {
        Some((a, ra))
    } else if a.peek() == Some('{') {
        let (q1, r) = parse_sequence_spec(a.begin_rule().0);
        let (b, rb) = rule_outcome(a, q1, r);
        if rb is Some {
            Some((b, rb))
        } else if a.starts_with("{!"@) || a.starts_with("{~"@) || a.starts_with("{&"@) {
            Some((b, None))
        } else {
            match rule_outcome_opt(b, parse_conditional_spec(b.begin_rule().0)) {
                None => None,
                Some((c, rc)) => if rc is Some {
                    Some((c.parse_newline().0, rc))
                } else {
                    Some((c, rc))
                },
            }
        }
    } else {
        Some((a, None))
    }
}

/// An author warning (then a newline), a tag after `#` or a directive after
/// `@` (each then a newline), or else a line of text.
#[verifier::opaque]
pub open spec fn statement_markup_spec(pv: ParserView) -> (ParserView, Option<StoryNodeView>) {
    let (a, w) = parse_author_warning_spec(pv);
    match w {
        Some(msg) => (a.parse_newline().0, Some(StoryNodeView::AuthorWarning(msg))),
        None => {
            let (b, rb) = if a.peek() == Some('#') {
                let (q1, t) = parse_tag_spec(a.begin_rule().0);
                let (q2, r2) = rule_outcome(a, q1, t);
                match r2 {
                    Some(tag) => (q2.parse_newline().0, Some(StoryNodeView::Tag(tag))),
                    None => (q2, None),
                }
            } else {
                (a, None)
            };
            if rb is Some {
                (b, rb)
            } else {
                let (c, rc) = if b.peek() == Some('@') {
                    let (q1, d) = parse_directive_spec(b.begin_rule().0);
                    let (q2, r2) = rule_outcome(b, q1, d);
                    match r2 {
                        Some(dir) => (q2.parse_newline().0, Some(StoryNodeView::Directive(dir))),
                        None => (q2, None),
                    }
                } else {
                    (b, None)
                };
                if rc is Some {
                    (c, rc)
                } else {
                    parse_text_line_spec(c)
                }
            }
        },
    }
}

/// Every statement other than knots and stitches, in the order tried.
pub open spec fn statement_rest_spec(pv: ParserView, level: StatementLevel) -> Option<
    (ParserView, Option<StoryNodeView>),
> {
    let (a, ra) = statement_marks_spec(pv, level);
    if ra is Some {
        Some((a, ra))
    } else {
        match statement_declaration_spec(a) {
            None => None,
            Some((b, rb)) => if rb is Some {
                Some((b, rb))
            } else {
                match statement_block_spec(b) {
                    None => None,
                    Some((c, rc)) => if rc is Some {
                        Some((c, rc))
                    } else {
                        Some(statement_markup_spec(c))
                    },
                }
            },
        }
    }
}

/// One statement: a knot (at the top, where `==` begins), a stitch (at knot
/// level and above), or any other statement.
pub open spec fn statement_spec(pv: ParserView, level: StatementLevel) -> Option<
    (ParserView, Option<StoryNodeView>),
>
    decreases pv.rem(), 2nat,
{
    if level_rank(level) >= 3 && pv.starts_with("=="@) {
        knot_definition_spec(pv)
    } else {
        let s = if level_rank(level) >= 2 {
            let q0 = pv.begin_rule().0;
            match stitch_definition_spec(q0) {
                None => None,
                Some((q1, r)) => Some(rule_outcome(pv, q1, r)),
            }
        } else {
            Some((pv, None))
        };
        match s {
            None => None,
            Some((q, Some(n))) => Some((q, Some(n))),
            Some((q, None)) => statement_rest_spec(q, level),
        }
    }
}

/// Whether the statements of `level` end here: at the end of the input, at
/// `===` (knot level and below), at a single `=` (stitch level and below),
/// or at `}` (in an inner block).
pub open spec fn should_break_spec(pv: ParserView, level: StatementLevel) -> bool {
    ||| pv.at_end()
    ||| (level_rank(level) <= 2 && pv.starts_with("==="@))
    ||| (level_rank(level) <= 1 && pv.peek() == Some('=') && !pv.starts_with("=="@))
    ||| (level_rank(level) == 0 && pv.peek() == Some('}'))
}

/// The error for a line that no statement accepts: at most its first 50
/// bytes.
pub open spec fn unexpected_content_spec(line: Seq<char>) -> Seq<char> {
    "Unexpected content: "@ + prefix_within_bytes_spec(line, 50)
}

/// Statements until the level ends: blank lines and comments are skipped;
/// a line that nothing accepts is skipped and reported unless blank. Where
/// a round reads nothing (such as at a lone `\r`), the statements end there
/// with the error `Unexpected content`.
pub open spec fn statements_loop(pv: ParserView, level: StatementLevel, acc: Seq<StoryNodeView>) -> Option<
    (ParserView, Seq<StoryNodeView>),
>
    decreases pv.rem(), 3nat,
{
    let (p1, _) = pv.parse_whitespace();
    if p1.at_end() {
        Some((p1, acc))
    } else {
        let (p2, blank) = multiline_whitespace_loop(p1, false);
        if blank {
            if p2.rem() < pv.rem() {
                statements_loop(p2, level, acc)
            } else {
                Some((p2.error("Unexpected content"@), acc))
            }
        } else if p2.at_end() {
            Some((p2, acc))
        } else if p2.rem() <= pv.rem() {
            match statement_spec(p2, level) {
                None => None,
                Some((p3, Some(n))) => if p3.rem() < pv.rem() {
                    statements_loop(p3, level, acc.push(n))
                } else {
                    Some((p3.error("Unexpected content"@), acc.push(n)))
                },
                Some((p3, None)) => if should_break_spec(p3, level) {
                    Some((p3, acc))
                } else {
                    let p4 = if p3.pos == p1.pos {
                        let (q1, bad) = p3.parse_until_newline();
                        let (q2, _) = q1.parse_newline();
                        if all_whitespace(bad) {
                            q2
                        } else {
                            q2.error(unexpected_content_spec(bad))
                        }
                    } else {
                        p3
                    };
                    if p4.rem() < pv.rem() {
                        statements_loop(p4, level, acc)
                    } else {
                        Some((p4.error("Unexpected content"@), acc))
                    }
                },
            }
        } else {
            Some((p2, acc))
        }
    }
}

/// The statements of `level` read from `pv`.
pub open spec fn statements_spec(pv: ParserView, level: StatementLevel) -> Option<
    (ParserView, Seq<StoryNodeView>),
>
    decreases pv.rem(), 4nat,
{
    statements_loop(pv, level, Seq::empty())
}

/// Parse statements at a given level
pub fn parse_statements_at_level(p: &mut Parser, level: StatementLevel) -> (r: Vec<StoryNode>)
    requires
        old(p).wf(),
    ensures
        final(p).wf(),
        final(p)@.same_source(old(p)@),
        statements_spec(old(p)@, level) == Some((final(p)@, nodes_view(r@))),
    decreases old(p)@.rem(), 4nat,
{
    proof {
        lemma_statements_total(old(p)@, level);
    }
    let mut content: Vec<StoryNode> = Vec::new();
    assert(nodes_view(content@) =~= Seq::<StoryNodeView>::empty());
    loop
        invariant_except_break
            statements_loop(p@, level, nodes_view(content@)) == statements_loop(
                old(p)@,
                level,
                Seq::empty(),
            ),
            p@.rem() <= old(p)@.rem(),
        invariant
            p.wf(),
            p@.same_source(old(p)@),
            statements_loop(old(p)@, level, Seq::empty()) is Some,
            statements_spec(old(p)@, level) == statements_loop(old(p)@, level, Seq::empty()),
        ensures
            statements_loop(old(p)@, level, Seq::empty()) == Some((p@, nodes_view(content@))),
        decreases p@.rem(),
    {
        let ghost start = p@;
        let ghost acc = nodes_view(content@);
        proof {
            p.lemma_wf();
        }
        let start_pos = p.cursor();
        p.parse_whitespace();
        proof {
            p.lemma_wf();
        }
        if p.is_end() {
            break;
        }
        let before_pos = p.cursor();

        // Skip blank lines and comments
        if parse_multiline_whitespace(p) {
            proof {
                p.lemma_wf();
            }
            if p.cursor() <= start_pos {
                p.error("Unexpected content");
                break;
            }
            continue;
        }
        if p.is_end() {
            break;
        }
        assert(p@.rem() <= start.rem());

        // Try to parse a statement at this level
        let ghost p2 = p@;
        let parsed = parse_statement_at_level(p, level);
        if let Some(node) = parsed {
            let ghost before = content@;
            content.push(node);
            proof {
                assert(content@ =~= before.push(content@.last()));
                lemma_nodes_view_push(before, content@.last());
                p.lemma_wf();
            }
            if p.cursor() <= start_pos {
                p.error("Unexpected content");
                break;
            }
            continue;
        }
        // Check if we should break for a higher-level construct

        if should_break_for_level(p, level) {
            break;
        }
        // No progress — skip this line and report error

        if p.cursor() == before_pos {
            let bad_line = p.parse_until_newline();
            p.parse_newline();
            if !trims_to_empty(&bad_line) {
                let shown = prefix_within_bytes(bad_line.as_str(), 50);
                let message = concat_strs("Unexpected content: ", shown.as_str());
                p.error(message.as_str());
            }
        }
        proof {
            p.lemma_wf();
        }
        if p.cursor() <= start_pos {
            // Nothing was read: the statements end here.
            p.error("Unexpected content");
            break;
        }
    }
    content
}

fn parse_statement_at_level(p: &mut Parser, level: StatementLevel) -> (r: Option<StoryNode>)
    requires
        old(p).wf(),
        statement_spec(old(p)@, level) is Some,
    ensures
        final(p).wf(),
        final(p)@.same_source(old(p)@),
        Some((final(p)@, opt_node_view(r))) == statement_spec(old(p)@, level),
    decreases old(p)@.rem(), 2nat,
{
    let rank = rank_of(level);
    // Knot definition (only at top level)
    if rank >= 3 && at_knot_declaration(p) {
        return parse_knot_definition(p);
    }
    // Stitch definition (at knot level and above)

    if rank >= 2 {
        let rule_id = p.begin_rule();
        let stitch = parse_stitch_definition(p);
        if let Some(node) = stitch {
            p.succeed_rule(rule_id);
            assert(p@.rules =~= old(p)@.rules);
            return Some(node);
        }
        p.fail_rule(rule_id);
        assert(p@.rules =~= old(p)@.rules);
    }
    parse_statement_rest(p, level)
}

fn parse_statement_rest(p: &mut Parser, level: StatementLevel) -> (r: Option<StoryNode>)
    requires
        old(p).wf(),
        statement_rest_spec(old(p)@, level) is Some,
    ensures
        final(p).wf(),
        final(p)@.same_source(old(p)@),
        Some((final(p)@, opt_node_view(r))) == statement_rest_spec(old(p)@, level),
{
    if let Some(node) = parse_statement_marks(p, level) {
        return Some(node);
    }
    if let Some(node) = parse_statement_declaration(p) {
        return Some(node);
    }
    if let Some(node) = parse_statement_block(p) {
        return Some(node);
    }
    parse_statement_markup(p)
}

fn parse_statement_marks(p: &mut Parser, level: StatementLevel) -> (r: Option<StoryNode>)
    requires
        old(p).wf(),
    ensures
        final(p).wf(),
        final(p)@.same_source(old(p)@),
        (final(p)@, opt_node_view(r)) == statement_marks_spec(old(p)@, level),
{
    proof {
        reveal(statement_marks_spec);
    }
    // Choice (* or + bullets)
    if p.peek() == Some('*') || p.peek() == Some('+') {
        let rule_id = p.begin_rule();
        let choice = parse_choice_full(p);
        if let Some(node) = choice {
            p.succeed_rule(rule_id);
            assert(p@.rules =~= old(p)@.rules);
            return Some(node);
        }
        p.fail_rule(rule_id);
        assert(p@.rules =~= old(p)@.rules);
    }
    // Divert (-> target) — standalone divert line

    let ghost a = p@;
    if p.peek_str("->") {
        let rule_id = p.begin_rule();
        let divert = parse_multi_divert(p);
        if let Some(node) = divert {
            p.succeed_rule(rule_id);
            assert(p@.rules =~= old(p)@.rules);
            p.parse_newline();
            return Some(node);
        }
        p.fail_rule(rule_id);
        assert(p@.rules =~= old(p)@.rules);
    }
    // Gather (dashes, not in inner blocks)

    if rank_of(level) > 0 {
        let rule_id = p.begin_rule();
        let gather = parse_gather(p);
        if let Some(node) = gather {
            p.succeed_rule(rule_id);
            assert(p@.rules =~= old(p)@.rules);
            return Some(node);
        }
        p.fail_rule(rule_id);
        assert(p@.rules =~= old(p)@.rules);
    }
    None
}

fn parse_statement_declaration(p: &mut Parser) -> (r: Option<StoryNode>)
    requires
        old(p).wf(),
        statement_declaration_spec(old(p)@) is Some,
    ensures
        final(p).wf(),
        final(p)@.same_source(old(p)@),
        Some((final(p)@, opt_node_view(r))) == statement_declaration_spec(old(p)@),
{
    proof {
        reveal(statement_declaration_spec);
    }
    // VAR global declaration
    let rule_id = p.begin_rule();
    let var = parse_var_declaration(p);
    if let Some(node) = var {
        p.succeed_rule(rule_id);
        assert(p@.rules =~= old(p)@.rules);
        return Some(node);
    }
    p.fail_rule(rule_id);
    assert(p@.rules =~= old(p)@.rules);

    // CONST declaration
    let rule_id = p.begin_rule();
    let cst = parse_const_declaration(p);
    if let Some(node) = cst {
        p.succeed_rule(rule_id);
        assert(p@.rules =~= old(p)@.rules);
        return Some(node);
    }
    p.fail_rule(rule_id);
    assert(p@.rules =~= old(p)@.rules);

    // EXTERNAL declaration
    let rule_id = p.begin_rule();
    let ext = parse_external_declaration(p);
    if let Some(node) = ext {
        p.succeed_rule(rule_id);
        assert(p@.rules =~= old(p)@.rules);
        return Some(node);
    }
    p.fail_rule(rule_id);
    assert(p@.rules =~= old(p)@.rules);

    // LIST declaration
    let rule_id = p.begin_rule();
    let list = parse_list_declaration(p);
    if let Some(node) = list {
        p.succeed_rule(rule_id);
        assert(p@.rules =~= old(p)@.rules);
        return Some(node);
    }
    p.fail_rule(rule_id);
    assert(p@.rules =~= old(p)@.rules);

    // INCLUDE statement
    let rule_id = p.begin_rule();
    let inc = parse_include(p);
    if let Some(filename) = inc {
        p.succeed_rule(rule_id);
        assert(p@.rules =~= old(p)@.rules);
        return Some(StoryNode::Include(filename));
    }
    p.fail_rule(rule_id);
    assert(p@.rules =~= old(p)@.rules);
    None
}

fn parse_statement_block(p: &mut Parser) -> (r: Option<StoryNode>)
    requires
        old(p).wf(),
        statement_block_spec(old(p)@) is Some,
    ensures
        final(p).wf(),
        final(p)@.same_source(old(p)@),
        Some((final(p)@, opt_node_view(r))) == statement_block_spec(old(p)@),
{
    proof {
        reveal(statement_block_spec);
    }
    // Logic line (~ ...)
    if p.peek() == Some('~') {
        let rule_id = p.begin_rule();
        let logic = parse_logic_line(p);
        if let Some(node) = logic {
            p.succeed_rule(rule_id);
            assert(p@.rules =~= old(p)@.rules);
            return Some(node);
        }
        p.fail_rule(rule_id);
        assert(p@.rules =~= old(p)@.rules);
    }
    // Sequence ({! | {~ | {& | { }) or Conditional ({ ... })

    if p.peek() == Some('{') {
        let marked = p.peek_str("{!") || p.peek_str("{~") || p.peek_str("{&");
        // Try a sequence first; a plain brace may still be a conditional
        let rule_id = p.begin_rule();
        let seq = parse_sequence(p);
        if let Some(node) = seq {
            p.succeed_rule(rule_id);
            assert(p@.rules =~= old(p)@.rules);
            return Some(node);
        }
        p.fail_rule(rule_id);
        assert(p@.rules =~= old(p)@.rules);
        if !marked {
            // Fall back to conditional
            let rule_id = p.begin_rule();
            let cond = parse_conditional(p);
            if let Some(node) = cond {
                p.succeed_rule(rule_id);
                assert(p@.rules =~= old(p)@.rules);
                p.parse_newline();
                return Some(node);
            }
            p.fail_rule(rule_id);
            assert(p@.rules =~= old(p)@.rules);
        }
    }
    None
}

fn parse_statement_markup(p: &mut Parser) -> (r: Option<StoryNode>)
    requires
        old(p).wf(),
    ensures
        final(p).wf(),
        final(p)@.same_source(old(p)@),
        (final(p)@, opt_node_view(r)) == statement_markup_spec(old(p)@),
{
    proof {
        reveal(statement_markup_spec);
    }
    // Author warning / TODO
    if let Some(msg) = parse_author_warning(p) {
        p.parse_newline();
        return Some(StoryNode::AuthorWarning(msg));
    }
    // Tag (# tag_name)

    if p.peek() == Some('#') {
        let rule_id = p.begin_rule();
        let tag = parse_tag(p);
        if let Some(tag) = tag {
            p.succeed_rule(rule_id);
            assert(p@.rules =~= old(p)@.rules);
            p.parse_newline();
            return Some(StoryNode::Tag(tag));
        }
        p.fail_rule(rule_id);
        assert(p@.rules =~= old(p)@.rules);
    }
    // Directive (@ type: name)

    if p.peek() == Some('@') {
        let rule_id = p.begin_rule();
        let directive = parse_directive(p);
        if let Some(directive) = directive {
            p.succeed_rule(rule_id);
            assert(p@.rules =~= old(p)@.rules);
            p.parse_newline();
            return Some(StoryNode::Directive(directive));
        }
        p.fail_rule(rule_id);
        assert(p@.rules =~= old(p)@.rules);
    }
    // Line of mixed text and logic

    parse_text_line(p)
}

fn should_break_for_level(p: &Parser, level: StatementLevel) -> (r: bool)
    requires
        p.wf(),
    ensures
        r == should_break_spec(p@, level),
{
    if p.is_end() {
        return true;
    }
    let rank = rank_of(level);
    if rank <= 2 {
        if p.peek_str("===") {
            return true;
        }
    }
    if rank <= 1 {
        if p.peek() == Some('=') && !p.peek_str("==") {
            return true;
        }
    }
    if rank == 0 {
        if p.peek() == Some('}') {
            return true;
        }
    }
    false
}


// ---------------------------------------------------------------------------
// Every parse comes to an end
// ---------------------------------------------------------------------------

proof fn lemma_statement_rest_total(pv: ParserView, level: StatementLevel)
    ensures
        statement_rest_spec(pv, level) is Some,
{
    reveal(statement_declaration_spec);
    reveal(statement_block_spec);
    assert forall|q: ParserView| #[trigger] parse_external_declaration_spec(q) is Some by {
        lemma_external_declaration_total(q);
    }
    assert forall|q: ParserView| #[trigger] parse_list_declaration_spec(q) is Some by {
        lemma_list_declaration_total(q);
    }
    assert forall|q: ParserView| #[trigger] parse_conditional_spec(q) is Some by {
        lemma_conditional_total(q);
    }
}

/// Knot and stitch definitions, read from anywhere, come to an end.
pub proof fn lemma_knot_definition_total(pv: ParserView)
    ensures
        knot_definition_spec(pv) is Some,
        stitch_definition_spec(pv) is Some,
    decreases pv.rem(), 1nat,
{
    lemma_declarations_total(pv);
    match parse_knot_declaration_spec(pv) {
        Some((p1, Some(decl))) => {
            let (p2, _) = p1.parse_newline();
            if p2.rem() < pv.rem() {
                lemma_statements_total(p2, StatementLevel::Knot);
            }
        },
        _ => {},
    }
    match parse_stitch_declaration_spec(pv) {
        Some((p1, Some(decl))) => {
            let (p2, _) = p1.parse_newline();
            if p2.rem() < pv.rem() {
                lemma_statements_total(p2, StatementLevel::Stitch);
            }
        },
        _ => {},
    }
}

proof fn lemma_statement_total(pv: ParserView, level: StatementLevel)
    ensures
        statement_spec(pv, level) is Some,
    decreases pv.rem(), 2nat,
{
    assert forall|q: ParserView| #[trigger] statement_rest_spec(q, level) is Some by {
        lemma_statement_rest_total(q, level);
    }
    if level_rank(level) >= 3 && pv.starts_with("=="@) {
        lemma_knot_definition_total(pv);
    } else if level_rank(level) >= 2 {
        lemma_knot_definition_total(pv.begin_rule().0);
    }
}

proof fn lemma_statements_loop_total(pv: ParserView, level: StatementLevel, acc: Seq<StoryNodeView>)
    ensures
        statements_loop(pv, level, acc) is Some,
    decreases pv.rem(), 3nat,
{
    let (p1, _) = pv.parse_whitespace();
    if !p1.at_end() {
        let (p2, blank) = multiline_whitespace_loop(p1, false);
        if blank {
            if p2.rem() < pv.rem() {
                lemma_statements_loop_total(p2, level, acc);
            }
        } else if !p2.at_end() && p2.rem() <= pv.rem() {
            lemma_statement_total(p2, level);
            match statement_spec(p2, level) {
                Some((p3, Some(n))) => {
                    if p3.rem() < pv.rem() {
                        lemma_statements_loop_total(p3, level, acc.push(n));
                    }
                },
                Some((p3, None)) => {
                    if !should_break_spec(p3, level) {
                        let p4 = if p3.pos == p1.pos {
                            let (q1, bad) = p3.parse_until_newline();
                            let (q2, _) = q1.parse_newline();
                            if all_whitespace(bad) {
                                q2
                            } else {
                                q2.error(unexpected_content_spec(bad))
                            }
                        } else {
                            p3
                        };
                        if p4.rem() < pv.rem() {
                            lemma_statements_loop_total(p4, level, acc);
                        }
                    }
                },
                None => {},
            }
        }
    }
}

/// The statements of every level, read from anywhere, come to an end.
pub proof fn lemma_statements_total(pv: ParserView, level: StatementLevel)
    ensures
        statements_spec(pv, level) is Some,
    decreases pv.rem(), 4nat,
{
    lemma_statements_loop_total(pv, level, Seq::empty());
}

} // verus!
