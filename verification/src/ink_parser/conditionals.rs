//! Conditionals: inline `{ cond: a | else_cond: b | : c }` and multiline
//! `{ - a | - b }`.

use vstd::prelude::*;
use crate::ink_parser::content::{content_text_of, items_text, parse_line_of_mixed_text_and_logic, parse_line_spec};
use crate::ink_parser::divert::{parse_single_divert, parse_single_divert_spec};
use crate::ink_parser::ir::{Conditional, ConditionalBranch, ConditionalBranchView, ConditionalView, Expression, ExpressionKind, ExpressionKindView, ExpressionValue, ExpressionValueView, ExpressionView, SourceLocation, SourceLocationView, StoryNode, StoryNodeView, Text, TextView, VariableReference, VariableReferenceView, branches_view, expr_view, nodes_view, opt_node_view, lemma_nodes_view_push, lemma_branches_view_push};
use crate::ink_parser::logic::literal;
use crate::ink_parser::parser::{Parser, ParserView};

verus! {

/// A variable name, `true`, `false` or an integer; anything else reads as
/// `true` without consuming more.
#[verifier::opaque]
pub open spec fn parse_conditional_expression_spec(pv: ParserView) -> (ParserView, ExpressionView) {
    let loc = pv.location();
    let (p1, name) = pv.parse_identifier();
    match name {
        Some(n) => (
            p1,
            ExpressionView {
                kind: ExpressionKindView::VariableRef(
                    VariableReferenceView {
                        name: n,
                        is_divert_target: false,
                        is_read_count: false,
                        read_count_path: None,
                        location: loc,
                    },
                ),
                location: loc,
            },
        ),
        None => {
            let (p2, t) = p1.parse_string("true"@);
            if t {
                (p2, literal(ExpressionValueView::Bool(true), loc))
            } else {
                let (p3, f) = p2.parse_string("false"@);
                if f {
                    (p3, literal(ExpressionValueView::Bool(false), loc))
                } else {
                    let (p4, i) = p3.parse_int();
                    match i {
                        Some(v) => (p4, literal(ExpressionValueView::Int(v as int), loc)),
                        None => (p4, literal(ExpressionValueView::Bool(true), loc)),
                    }
                }
            }
        },
    }
}

/// Lines of a branch up to the end of the line, `|` or `}`: each line's
/// text (unless empty or only a newline) and a plain divert after it.
pub open spec fn branch_content_loop(pv: ParserView, content: Seq<StoryNodeView>) -> (
    ParserView,
    Option<Seq<StoryNodeView>>,
)
    decreases pv.rem(),
{
    if pv.at_end() || pv.peek() == Some('\n') || pv.peek() == Some('\r') || pv.peek() == Some('|')
        || pv.peek() == Some('}') {
        (pv, Some(content))
    } else {
        let (p1, _) = pv.parse_whitespace();
        let (p2, items) = parse_line_spec(p1);
        match items {
            None => (p2, None),
            Some(its) => if its.len() == 0 {
                (p2, Some(content))
            } else {
                let text = items_text(its);
                let c2 = if text.len() != 0 && text != "\n"@ {
                    content.push(StoryNodeView::Text(TextView { text, location: p2.location() }))
                } else {
                    content
                };
                let (p3, c3) = if p2.starts_with("->"@) {
                    let (p3, d) = parse_single_divert_spec(p2);
                    match d {
                        Some(dn) => (p3, c2.push(dn)),
                        None => (p3, c2),
                    }
                } else {
                    (p2, c2)
                };
                if p3.rem() < pv.rem() {
                    branch_content_loop(p3, c3)
                } else {
                    (p3, Some(c3))
                }
            },
        }
    }
}

#[verifier::opaque]
pub open spec fn parse_conditional_content_spec(pv: ParserView) -> (ParserView, Option<Seq<StoryNodeView>>) {
    let (p1, content) = branch_content_loop(pv, Seq::empty());
    match content {
        Some(c) => if c.len() == 0 {
            (p1, None)
        } else {
            (p1, Some(c))
        },
        None => (p1, None),
    }
}

/// Else-if and else branches of an inline conditional: `|` followed by `:`
/// (else, the last branch), `{` (stop), or a condition, `:` and content.
pub open spec fn inline_branches_loop(
    pv: ParserView,
    branches: Seq<ConditionalBranchView>,
    loc: SourceLocationView,
) -> (ParserView, Option<Seq<ConditionalBranchView>>)
    decreases pv.rem(),
{
    let (p1, _) = pv.parse_whitespace();
    if p1.peek() != Some('|') {
        (p1, Some(branches))
    } else {
        let (p3, _) = p1.advance(1).parse_whitespace();
        let (p4, colon) = p3.parse_string(":"@);
        if colon {
            let (p5, _) = p4.parse_whitespace();
            let (p6, content) = parse_conditional_content_spec(p5);
            match content {
                None => (p6, None),
                Some(c) => (
                    p6,
                    Some(
                        branches.push(
                            ConditionalBranchView {
                                condition: None,
                                content: c,
                                is_else: true,
                                location: loc,
                            },
                        ),
                    ),
                ),
            }
        } else if p4.peek() == Some('{') {
            (p4, Some(branches))
        } else {
            let (p5, cond) = parse_conditional_expression_spec(p4);
            let (p6, _) = p5.parse_whitespace();
            let (p7, ok) = p6.expect_string(":"@, "':' for else-if branch"@);
            if !ok {
                (p7, None)
            } else {
                let (p8, _) = p7.parse_whitespace();
                let (p9, content) = parse_conditional_content_spec(p8);
                match content {
                    None => (p9, None),
                    Some(c) => {
                        let b2 = branches.push(
                            ConditionalBranchView {
                                condition: Some(cond),
                                content: c,
                                is_else: false,
                                location: loc,
                            },
                        );
                        if p9.rem() < pv.rem() {
                            inline_branches_loop(p9, b2, loc)
                        } else {
                            (p9, Some(b2))
                        }
                    },
                }
            }
        }
    }
}

/// A condition, `:`, the first branch's content, further branches and the
/// closing `}` (reported when missing).
#[verifier::opaque]
pub open spec fn parse_inline_conditional_spec(pv: ParserView, loc: SourceLocationView) -> (
    ParserView,
    Option<StoryNodeView>,
) {
    let (p1, cond) = parse_conditional_expression_spec(pv);
    let (p2, _) = p1.parse_whitespace();
    let (p3, ok) = p2.expect_string(":"@, "':' for conditional branch"@);
    if !ok {
        (p3, None)
    } else {
        let (p4, _) = p3.parse_whitespace();
        let (p5, content) = parse_conditional_content_spec(p4);
        match content {
            None => (p5, None),
            Some(c) => {
                let first = ConditionalBranchView {
                    condition: Some(cond),
                    content: c,
                    is_else: false,
                    location: loc,
                };
                let (p6, branches) = inline_branches_loop(p5, seq![first], loc);
                match branches {
                    None => (p6, None),
                    Some(bs) => {
                        let (p7, _) = p6.expect_string("}"@, "closing '}' for conditional"@);
                        (
                            p7,
                            Some(
                                StoryNodeView::Conditional(
                                    ConditionalView { branches: bs, location: loc },
                                ),
                            ),
                        )
                    },
                }
            },
        }
    }
}

/// Lines of a multiline branch up to `}` or `|`, each followed by an
/// optional newline; each line's text (unless empty) located after it. A
/// round that reads nothing ends the lines there.
pub open spec fn inner_lines_loop(pv: ParserView, content: Seq<StoryNodeView>) -> Option<
    (ParserView, Seq<StoryNodeView>),
>
    decreases pv.rem(),
{
    let (p1, _) = pv.parse_whitespace();
    if p1.at_end() || p1.peek() == Some('}') || p1.peek() == Some('|') {
        Some((p1, content))
    } else {
        let (p2, items) = parse_line_spec(p1);
        let (p3, c2) = match items {
            Some(its) => {
                let (p3, _) = p2.parse_newline();
                let text = items_text(its);
                if text.len() != 0 {
                    (p3, content.push(StoryNodeView::Text(TextView { text, location: p3.location() })))
                } else {
                    (p3, content)
                }
            },
            None => (p2, content),
        };
        if p3.rem() < pv.rem() {
            inner_lines_loop(p3, c2)
        } else {
            Some((p3, content))
        }
    }
}

#[verifier::opaque]
pub open spec fn parse_inner_statements_spec(pv: ParserView) -> Option<
    (ParserView, Option<Seq<StoryNodeView>>),
> {
    match inner_lines_loop(pv, Seq::empty()) {
        None => None,
        Some((p1, c)) => if c.len() == 0 {
            Some((p1, None))
        } else {
            Some((p1, Some(c)))
        },
    }
}

/// Branches of a multiline conditional after its first `-`: each is content
/// (optionally followed by `| -` and else content), or `| -` and else
/// content; they end at `}`. The inner `None` is a failed branch (no
/// conditional), also where a round reads nothing.
pub open spec fn multiline_branches_loop(
    pv: ParserView,
    branches: Seq<ConditionalBranchView>,
    loc: SourceLocationView,
) -> Option<(ParserView, Option<Seq<ConditionalBranchView>>)>
    decreases pv.rem(),
{
    let (p1, _) = pv.parse_whitespace();
    let (p2, close) = p1.parse_string("}"@);
    if close {
        Some((p2, Some(branches)))
    } else if p2.peek() == Some('|') {
        let (p3, _) = p2.advance(1).parse_whitespace();
        let (p4, dash) = p3.expect_string("-"@, "'-' for else branch"@);
        if !dash {
            Some((p4, None))
        } else {
            let (p5, _) = p4.parse_whitespace();
            match parse_inner_statements_spec(p5) {
                None => None,
                Some((p6, None)) => Some((p6, None)),
                Some((p6, Some(c))) => {
                    let b2 = branches.push(
                        ConditionalBranchView { condition: None, content: c, is_else: true, location: loc },
                    );
                    if p6.rem() < pv.rem() {
                        multiline_branches_loop(p6, b2, loc)
                    } else {
                        Some((p6, None))
                    }
                },
            }
        }
    } else {
        match parse_inner_statements_spec(p2) {
            None => None,
            Some((p3, None)) => Some((p3, None)),
            Some((p3, Some(c))) => {
                let (p4, _) = p3.parse_whitespace();
                let first = ConditionalBranchView {
                    condition: None,
                    content: c,
                    is_else: false,
                    location: loc,
                };
                let step: Option<(ParserView, Option<Seq<ConditionalBranchView>>)> = if p4.peek()
                    == Some('|') {
                    let (p5, _) = p4.advance(1).parse_whitespace();
                    let (p6, dash) = p5.expect_string("-"@, "'-' for else branch"@);
                    if !dash {
                        Some((p6, None))
                    } else {
                        let (p7, _) = p6.parse_whitespace();
                        match parse_inner_statements_spec(p7) {
                            None => None,
                            Some((p8, None)) => Some((p8, None)),
                            Some((p8, Some(ec))) => Some(
                                (
                                    p8,
                                    Some(
                                        branches.push(first).push(
                                            ConditionalBranchView {
                                                condition: None,
                                                content: ec,
                                                is_else: true,
                                                location: loc,
                                            },
                                        ),
                                    ),
                                ),
                            ),
                        }
                    }
                } else {
                    Some((p4, Some(branches.push(first))))
                };
                match step {
                    None => None,
                    Some((q, None)) => Some((q, None)),
                    Some((q, Some(b2))) => {
                        let (q2, close2) = q.parse_string("}"@);
                        if close2 {
                            Some((q2, Some(b2)))
                        } else if q2.rem() < pv.rem() {
                            multiline_branches_loop(q2, b2, loc)
                        } else {
                            Some((q2, None))
                        }
                    },
                }
            },
        }
    }
}

#[verifier::opaque]
pub open spec fn parse_multiline_conditional_spec(pv: ParserView, loc: SourceLocationView) -> Option<
    (ParserView, Option<StoryNodeView>),
> {
    let (p1, _) = pv.parse_string("-"@);
    match multiline_branches_loop(p1, Seq::empty(), loc) {
        None => None,
        Some((p2, None)) => Some((p2, None)),
        Some((p2, Some(bs))) => Some(
            (
                p2,
                Some(StoryNodeView::Conditional(ConditionalView { branches: bs, location: loc })),
            ),
        ),
    }
}

/// `{`, whitespace, then a multiline conditional when a `-` follows, else an
/// inline one. (Always a result: see `lemma_conditional_total`.)
#[verifier::opaque]
pub open spec fn parse_conditional_spec(pv: ParserView) -> Option<(ParserView, Option<StoryNodeView>)> {
    let loc = pv.location();
    let (p1, open) = pv.parse_string("{"@);
    if !open {
        Some((p1, None))
    } else {
        let (p2, _) = p1.parse_whitespace();
        if p2.peek() == Some('-') {
            parse_multiline_conditional_spec(p2, loc)
        } else {
            Some(parse_inline_conditional_spec(p2, loc))
        }
    }
}

/// Parse a conditional block (inline or multiline)
pub fn parse_conditional(p: &mut Parser) -> (r: Option<StoryNode>)
    requires
        old(p).wf(),
    ensures
        final(p).wf(),
        final(p)@.same_source(old(p)@),
        Some((final(p)@, opt_node_view(r))) == parse_conditional_spec(old(p)@),
        old(p)@.pos <= final(p)@.pos,
{
    proof {
        lemma_conditional_total(old(p)@);
    }
    proof {
        reveal(parse_conditional_spec);
    }
    let loc = p.current_source_location();

    // Must start with {
    if p.parse_string("{").is_none() {
        return None;
    }
    p.parse_whitespace();

    // Check if this is multiline (might start with -)
    if p.peek() == Some('-') {
        // Multiline conditional
        return parse_multiline_conditional(p, loc);
    }
    // Inline conditional

    return parse_inline_conditional(p, loc);
}

fn parse_inline_conditional(p: &mut Parser, loc: SourceLocation) -> (r: Option<StoryNode>)
    requires
        old(p).wf(),
    ensures
        final(p).wf(),
        final(p)@.same_source(old(p)@),
        (final(p)@, opt_node_view(r)) == parse_inline_conditional_spec(old(p)@, loc@),
        old(p)@.pos <= final(p)@.pos,
{
    proof {
        reveal(parse_inline_conditional_spec);
    }
    // Parse condition
    let condition = parse_conditional_expression(p);

    p.parse_whitespace();

    // Parse branches
    let mut branches: Vec<ConditionalBranch> = Vec::new();

    // First branch (required)
    if p.expect_string(":", "':' for conditional branch").is_none() {
        return None;
    }
    p.parse_whitespace();

    let first_content = match parse_conditional_content(p) {
        Some(c) => c,
        None => return None,
    };
    let ghost before = branches@;
    branches.push(
        ConditionalBranch {
            condition: Some(condition),
            content: first_content,
            is_else: false,
            location: loc.clone(),
        },
    );
    let ghost p5 = p@;
    let ghost first = branches_view(branches@)[0];
    proof {
        assert(branches@ =~= before.push(branches@.last()));
        lemma_branches_view_push(before, branches@.last());
        assert(branches_view(before) =~= Seq::<ConditionalBranchView>::empty());
        assert(branches_view(branches@) =~= seq![first]);
    }

    // Additional branches (else if, else)
    loop
        invariant_except_break
            inline_branches_loop(p@, branches_view(branches@), loc@) == inline_branches_loop(
                p5,
                seq![first],
                loc@,
            ),
        invariant
            p.wf(),
            p@.same_source(old(p)@),
            old(p)@.pos <= p5.pos <= p@.pos,
            parse_inline_conditional_spec(old(p)@, loc@) == inline_finish(
                inline_branches_loop(p5, seq![first], loc@),
                loc@,
            ),
        ensures
            inline_branches_loop(p5, seq![first], loc@) == (p@, Some(branches_view(branches@))),
        decreases p@.input.len() - p@.pos,
    {
        let ghost start = p@;
        let ghost acc = branches_view(branches@);
        proof {
            p.lemma_wf();
        }
        p.parse_whitespace();

        // Check for else if
        if p.peek() == Some('|') {
            p.advance(1);
            p.parse_whitespace();

            if p.parse_string(":").is_some() {
                // Pure else branch
                p.parse_whitespace();
                let else_content = match parse_conditional_content(p) {
                    Some(c) => c,
                    None => return None,
                };
                let ghost before = branches@;
                branches.push(
                    ConditionalBranch {
                        condition: None,
                        content: else_content,
                        is_else: true,
                        location: loc.clone(),
                    },
                );
                proof {
                    assert(branches@ =~= before.push(branches@.last()));
                    lemma_branches_view_push(before, branches@.last());
                }
                break;
            } else if p.peek() == Some('{') {
                // Nested conditional — stop here (can't backtrack, just break)
                break;
            } else {
                // Else-if with condition
                let else_if_condition = parse_conditional_expression(p);
                p.parse_whitespace();
                if p.expect_string(":", "':' for else-if branch").is_none() {
                    return None;
                }
                p.parse_whitespace();
                let else_if_content = match parse_conditional_content(p) {
                    Some(c) => c,
                    None => return None,
                };
                let ghost before = branches@;
                branches.push(
                    ConditionalBranch {
                        condition: Some(else_if_condition),
                        content: else_if_content,
                        is_else: false,
                        location: loc.clone(),
                    },
                );
                proof {
                    p.lemma_wf();
                    assert(branches@ =~= before.push(branches@.last()));
                    lemma_branches_view_push(before, branches@.last());
                }
            }
        } else {
            break;
        }
    }

    p.expect_string("}", "closing '}' for conditional");

    Some(StoryNode::Conditional(Conditional { branches, location: loc }))
}

/// The inline conditional made from its branches and the closing `}`.
pub open spec fn inline_finish(
    branches: (ParserView, Option<Seq<ConditionalBranchView>>),
    loc: SourceLocationView,
) -> (ParserView, Option<StoryNodeView>) {
    match branches.1 {
        None => (branches.0, None),
        Some(bs) => {
            let (p7, _) = branches.0.expect_string("}"@, "closing '}' for conditional"@);
            (p7, Some(StoryNodeView::Conditional(ConditionalView { branches: bs, location: loc })))
        },
    }
}

fn parse_multiline_conditional(p: &mut Parser, loc: SourceLocation) -> (r: Option<StoryNode>)
    requires
        old(p).wf(),
        parse_multiline_conditional_spec(old(p)@, loc@) is Some,
    ensures
        final(p).wf(),
        final(p)@.same_source(old(p)@),
        Some((final(p)@, opt_node_view(r))) == parse_multiline_conditional_spec(old(p)@, loc@),
        old(p)@.pos <= final(p)@.pos,
{
    proof {
        reveal(parse_multiline_conditional_spec);
    }
    // We're at the - of a multiline conditional
    p.parse_string("-");  // consume the -

    let ghost p1 = p@;
    let mut branches: Vec<ConditionalBranch> = Vec::new();
    assert(branches_view(branches@) =~= Seq::<ConditionalBranchView>::empty());

    loop
        invariant_except_break
            multiline_branches_loop(p@, branches_view(branches@), loc@) == multiline_branches_loop(
                p1,
                Seq::empty(),
                loc@,
            ),
        invariant
            p.wf(),
            p@.same_source(old(p)@),
            old(p)@.pos <= p1.pos <= p@.pos,
            multiline_branches_loop(p1, Seq::empty(), loc@) is Some,
            parse_multiline_conditional_spec(old(p)@, loc@) == multiline_finish(
                multiline_branches_loop(p1, Seq::empty(), loc@),
                loc@,
            ),
        ensures
            multiline_branches_loop(p1, Seq::empty(), loc@) == Some(
                (p@, Some(branches_view(branches@))),
            ),
        decreases p@.input.len() - p@.pos,
    {
        let ghost start = p@;
        let ghost acc = branches_view(branches@);
        proof {
            p.lemma_wf();
        }
        let start_pos = p.cursor();
        p.parse_whitespace();

        // Check for closing }
        if p.parse_string("}").is_some() {
            break;
        }
        // Else branch

        if p.peek() == Some('|') {
            p.advance(1);
            p.parse_whitespace();
            if p.expect_string("-", "'-' for else branch").is_none() {
                return None;
            }
            p.parse_whitespace();
            // Content until next branch or closing
            let content = match parse_statements_at_level_inner(p) {
                Some(c) => c,
                None => return None,
            };
            let ghost before = branches@;
            branches.push(
                ConditionalBranch { condition: None, content, is_else: true, location: loc.clone() },
            );
            proof {
                p.lemma_wf();
                assert(branches@ =~= before.push(branches@.last()));
                lemma_branches_view_push(before, branches@.last());
            }
            if p.cursor() <= start_pos {
                // Nothing was read: no conditional here.
                return None;
            }
            continue;
        }
        // Conditional branch: content, then an optional else marker

        let content = match parse_statements_at_level_inner(p) {
            Some(c) => c,
            None => return None,
        };

        // Check for else marker
        p.parse_whitespace();
        if p.peek() == Some('|') {
            p.advance(1);
            p.parse_whitespace();
            if p.expect_string("-", "'-' for else branch").is_none() {
                return None;
            }
            p.parse_whitespace();
            let else_content = match parse_statements_at_level_inner(p) {
                Some(c) => c,
                None => return None,
            };
            let ghost before = branches@;
            branches.push(
                ConditionalBranch { condition: None, content, is_else: false, location: loc.clone() },
            );
            let ghost mid = branches@;
            proof {
                assert(branches@ =~= before.push(branches@.last()));
                lemma_branches_view_push(before, branches@.last());
            }
            branches.push(
                ConditionalBranch {
                    condition: None,
                    content: else_content,
                    is_else: true,
                    location: loc.clone(),
                },
            );
            proof {
                assert(branches@ =~= mid.push(branches@.last()));
                lemma_branches_view_push(mid, branches@.last());
            }
        } else {
            let ghost before = branches@;
            branches.push(
                ConditionalBranch { condition: None, content, is_else: false, location: loc.clone() },
            );
            proof {
                assert(branches@ =~= before.push(branches@.last()));
                lemma_branches_view_push(before, branches@.last());
            }
        }

        // Check for closing
        if p.parse_string("}").is_some() {
            break;
        }
        proof {
            p.lemma_wf();
        }
        if p.cursor() <= start_pos {
            // Nothing was read: no conditional here.
            return None;
        }
    }

    Some(StoryNode::Conditional(Conditional { branches, location: loc }))
}

/// The multiline conditional made from its branches.
pub open spec fn multiline_finish(
    branches: Option<(ParserView, Option<Seq<ConditionalBranchView>>)>,
    loc: SourceLocationView,
) -> Option<(ParserView, Option<StoryNodeView>)> {
    match branches {
        None => None,
        Some((p2, None)) => Some((p2, None)),
        Some((p2, Some(bs))) => Some(
            (p2, Some(StoryNodeView::Conditional(ConditionalView { branches: bs, location: loc }))),
        ),
    }
}

/// Parse content inside a conditional branch
fn parse_conditional_content(p: &mut Parser) -> (r: Option<Vec<StoryNode>>)
    requires
        old(p).wf(),
    ensures
        final(p).wf(),
        final(p)@.same_source(old(p)@),
        (final(p)@, match r {
            Some(v) => Some(nodes_view(v@)),
            None => None,
        }) == parse_conditional_content_spec(old(p)@),
        old(p)@.pos <= final(p)@.pos,
{
    proof {
        reveal(parse_conditional_content_spec);
    }
    let mut content: Vec<StoryNode> = Vec::new();
    assert(nodes_view(content@) =~= Seq::<StoryNodeView>::empty());

    loop
        invariant_except_break
            branch_content_loop(p@, nodes_view(content@)) == branch_content_loop(
                old(p)@,
                Seq::empty(),
            ),
        invariant
            p.wf(),
            p@.same_source(old(p)@),
            old(p)@.pos <= p@.pos,
            parse_conditional_content_spec(old(p)@) == content_finish(
                branch_content_loop(old(p)@, Seq::empty()),
            ),
        ensures
            branch_content_loop(old(p)@, Seq::empty()) == (p@, Some(nodes_view(content@))),
        decreases p@.input.len() - p@.pos,
    {
        let ghost start = p@;
        let ghost acc = nodes_view(content@);
        proof {
            p.lemma_wf();
            reveal_strlit("->");
        }
        if p.is_end() || p.peek() == Some('\n') || p.peek() == Some('\r') {
            break;
        }
        if p.peek() == Some('|') || p.peek() == Some('}') {
            break;
        }
        p.parse_whitespace();

        // Parse inline content
        let items = match parse_line_of_mixed_text_and_logic(p) {
            Some(items) => items,
            None => return None,
        };
        if items.len() == 0 {
            break;
        }
        let text = content_text_of(&items);

        if !text.as_str().is_empty() && !crate::text::str_equal(text.as_str(), "\n") {
            let ghost before = content@;
            content.push(StoryNode::Text(Text::new(text.as_str(), p.current_source_location())));
            proof {
                assert(content@ =~= before.push(content@.last()));
                lemma_nodes_view_push(before, content@.last());
            }
        }
        let ghost acc2 = nodes_view(content@);
        // Check for inline divert

        if p.peek_str("->") {
            if let Some(divert) = parse_single_divert(p) {
                let ghost before = content@;
                content.push(divert);
                proof {
                    assert(content@ =~= before.push(content@.last()));
                    lemma_nodes_view_push(before, content@.last());
                }
            }
        }
        proof {
            p.lemma_wf();
        }
    }

    if content.len() == 0 {
        None
    } else {
        Some(content)
    }
}

/// The content read, or nothing when it is empty.
pub open spec fn content_finish(r: (ParserView, Option<Seq<StoryNodeView>>)) -> (
    ParserView,
    Option<Seq<StoryNodeView>>,
) {
    match r.1 {
        Some(c) => if c.len() == 0 {
            (r.0, None)
        } else {
            (r.0, Some(c))
        },
        None => (r.0, None),
    }
}

/// Parse the condition expression for a conditional
fn parse_conditional_expression(p: &mut Parser) -> (r: Expression)
    requires
        old(p).wf(),
    ensures
        final(p).wf(),
        final(p)@.same_source(old(p)@),
        (final(p)@, expr_view(r)) == parse_conditional_expression_spec(old(p)@),
        old(p)@.pos <= final(p)@.pos,
{
    proof {
        reveal(parse_conditional_expression_spec);
    }
    let loc = p.current_source_location();

    // Try variable reference
    if let Some(name) = p.parse_identifier() {
        return Expression {
            kind: ExpressionKind::VariableRef(
                VariableReference {
                    name,
                    is_divert_target: false,
                    is_read_count: false,
                    read_count_path: None,
                    location: loc.clone(),
                },
            ),
            location: loc,
        };
    }
    // Try boolean literal

    if p.parse_string("true").is_some() {
        return Expression { kind: ExpressionKind::Literal(ExpressionValue::Bool(true)), location: loc };
    }
    if p.parse_string("false").is_some() {
        return Expression { kind: ExpressionKind::Literal(ExpressionValue::Bool(false)), location: loc };
    }
    // Try integer (for truthy test)

    if let Some(val) = p.parse_int() {
        return Expression { kind: ExpressionKind::Literal(ExpressionValue::Int(val)), location: loc };
    }
    // For now, return a "true" expression as fallback

    Expression { kind: ExpressionKind::Literal(ExpressionValue::Bool(true)), location: loc }
}

/// Parse statements at inner level (for multiline conditionals)
fn parse_statements_at_level_inner(p: &mut Parser) -> (r: Option<Vec<StoryNode>>)
    requires
        old(p).wf(),
        parse_inner_statements_spec(old(p)@) is Some,
    ensures
        final(p).wf(),
        final(p)@.same_source(old(p)@),
        Some(
            (final(p)@, match r {
                Some(v) => Some(nodes_view(v@)),
                None => None,
            }),
        ) == parse_inner_statements_spec(old(p)@),
        old(p)@.pos <= final(p)@.pos,
        r is Some ==> old(p)@.pos < final(p)@.pos,
{
    proof {
        reveal(parse_inner_statements_spec);
    }
    let mut content: Vec<StoryNode> = Vec::new();
    assert(nodes_view(content@) =~= Seq::<StoryNodeView>::empty());

    loop
        invariant_except_break
            inner_lines_loop(p@, nodes_view(content@)) == inner_lines_loop(old(p)@, Seq::empty()),
        invariant
            p.wf(),
            p@.same_source(old(p)@),
            old(p)@.pos <= p@.pos,
            inner_lines_loop(old(p)@, Seq::empty()) is Some,
            content@.len() > 0 ==> old(p)@.pos < p@.pos,
        ensures
            inner_lines_loop(old(p)@, Seq::empty()) == Some((p@, nodes_view(content@))),
            content@.len() > 0 ==> old(p)@.pos < p@.pos,
        decreases p@.input.len() - p@.pos,
    {
        let ghost start = p@;
        let ghost acc = nodes_view(content@);
        proof {
            p.lemma_wf();
        }
        let start_pos = p.cursor();
        p.parse_whitespace();
        if p.is_end() {
            break;
        }
        // Check for closing or branch

        if p.peek() == Some('}') || p.peek() == Some('|') {
            break;
        }
        // Parse line

        if let Some(items) = parse_line_of_mixed_text_and_logic(p) {
            p.parse_newline();

            let text = content_text_of(&items);
            proof {
                p.lemma_wf();
            }
            if p.cursor() <= start_pos {
                // Nothing was read: the lines end here.
                break;
            }
            if !text.as_str().is_empty() {
                let ghost before = content@;
                content.push(StoryNode::Text(Text::new(text.as_str(), p.current_source_location())));
                proof {
                    assert(content@ =~= before.push(content@.last()));
                    lemma_nodes_view_push(before, content@.last());
                }
            }
        }
        proof {
            p.lemma_wf();
        }
        if p.cursor() <= start_pos {
            // Nothing was read: the lines end here.
            break;
        }
    }

    if content.len() == 0 {
        None
    } else {
        Some(content)
    }
}


/// The lines of a multiline branch always come to an end.
pub proof fn lemma_inner_lines_total(pv: ParserView, content: Seq<StoryNodeView>)
    ensures
        inner_lines_loop(pv, content) is Some,
        parse_inner_statements_spec(pv) is Some,
    decreases pv.rem(), 1nat,
{
    reveal(parse_inner_statements_spec);
    let (p1, _) = pv.parse_whitespace();
    if !(p1.at_end() || p1.peek() == Some('}') || p1.peek() == Some('|')) {
        let (p2, items) = parse_line_spec(p1);
        let (p3, c2) = match items {
            Some(its) => {
                let (p3, _) = p2.parse_newline();
                let text = items_text(its);
                if text.len() != 0 {
                    (p3, content.push(StoryNodeView::Text(TextView { text, location: p3.location() })))
                } else {
                    (p3, content)
                }
            },
            None => (p2, content),
        };
        if p3.rem() < pv.rem() {
            lemma_inner_lines_total(p3, c2);
            lemma_inner_lines_total(p3, Seq::empty());
        }
        lemma_inner_lines_empty_total(pv);
    }
}

proof fn lemma_inner_lines_empty_total(pv: ParserView)
    ensures
        inner_lines_loop(pv, Seq::empty()) is Some,
    decreases pv.rem(), 0nat,
{
    let (p1, _) = pv.parse_whitespace();
    if !(p1.at_end() || p1.peek() == Some('}') || p1.peek() == Some('|')) {
        let (p2, items) = parse_line_spec(p1);
        let content = Seq::<StoryNodeView>::empty();
        let (p3, c2) = match items {
            Some(its) => {
                let (p3, _) = p2.parse_newline();
                let text = items_text(its);
                if text.len() != 0 {
                    (p3, content.push(StoryNodeView::Text(TextView { text, location: p3.location() })))
                } else {
                    (p3, content)
                }
            },
            None => (p2, content),
        };
        if p3.rem() < pv.rem() {
            lemma_inner_lines_total(p3, c2);
        }
    }
}

/// The branches of a multiline conditional always come to an end.
pub proof fn lemma_multiline_branches_total(
    pv: ParserView,
    branches: Seq<ConditionalBranchView>,
    loc: SourceLocationView,
)
    ensures
        multiline_branches_loop(pv, branches, loc) is Some,
    decreases pv.rem(),
{
    reveal(parse_inner_statements_spec);
    assert forall|q: ParserView| #[trigger] parse_inner_statements_spec(q) is Some by {
        lemma_inner_lines_total(q, Seq::empty());
    }
    let (p1, _) = pv.parse_whitespace();
    let (p2, close) = p1.parse_string("}"@);
    if close {
    } else if p2.peek() == Some('|') {
        let (p3, _) = p2.advance(1).parse_whitespace();
        let (p4, dash) = p3.expect_string("-"@, "'-' for else branch"@);
        if dash {
            let (p5, _) = p4.parse_whitespace();
            match parse_inner_statements_spec(p5) {
                Some((p6, Some(c))) => {
                    let b2 = branches.push(
                        ConditionalBranchView { condition: None, content: c, is_else: true, location: loc },
                    );
                    if p6.rem() < pv.rem() {
                        lemma_multiline_branches_total(p6, b2, loc);
                    }
                },
                _ => {},
            }
        }
    } else {
        match parse_inner_statements_spec(p2) {
            Some((p3, Some(c))) => {
                let (p4, _) = p3.parse_whitespace();
                let first = ConditionalBranchView {
                    condition: None,
                    content: c,
                    is_else: false,
                    location: loc,
                };
                let step: Option<(ParserView, Option<Seq<ConditionalBranchView>>)> = if p4.peek()
                    == Some('|') {
                    let (p5, _) = p4.advance(1).parse_whitespace();
                    let (p6, dash) = p5.expect_string("-"@, "'-' for else branch"@);
                    if !dash {
                        Some((p6, None))
                    } else {
                        let (p7, _) = p6.parse_whitespace();
                        match parse_inner_statements_spec(p7) {
                            None => None,
                            Some((p8, None)) => Some((p8, None)),
                            Some((p8, Some(ec))) => Some(
                                (
                                    p8,
                                    Some(
                                        branches.push(first).push(
                                            ConditionalBranchView {
                                                condition: None,
                                                content: ec,
                                                is_else: true,
                                                location: loc,
                                            },
                                        ),
                                    ),
                                ),
                            ),
                        }
                    }
                } else {
                    Some((p4, Some(branches.push(first))))
                };
                match step {
                    Some((q, Some(b2))) => {
                        let (q2, close2) = q.parse_string("}"@);
                        if !close2 && q2.rem() < pv.rem() {
                            lemma_multiline_branches_total(q2, b2, loc);
                        }
                    },
                    _ => {},
                }
            },
            _ => {},
        }
    }
}

/// A conditional always comes to an end.
pub proof fn lemma_conditional_total(pv: ParserView)
    ensures
        parse_conditional_spec(pv) is Some,
{
    reveal(parse_conditional_spec);
    reveal(parse_multiline_conditional_spec);
    assert forall|q: ParserView, loc: SourceLocationView| #[trigger] multiline_branches_loop(q, Seq::empty(), loc) is Some by {
        lemma_multiline_branches_total(q, Seq::empty(), loc);
    }
}

} // verus!
