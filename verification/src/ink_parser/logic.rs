//! Logic lines (`~`), `VAR`, `CONST` and `EXTERNAL` declarations, and
//! literal and variable expressions.

use vstd::prelude::*;
use crate::ink_parser::ir::{ConstDeclaration, ConstDeclarationView, Expression, ExpressionKind, ExpressionKindView, ExpressionValue, ExpressionValueView, ExpressionView, Identifier, IdentifierView, LogicBlock, LogicBlockView, SourceLocationView, StoryNode, StoryNodeView, VariableAssignment, VariableAssignmentView, VariableReference, VariableReferenceView, expr_view, nodes_view, opt_expr_view, opt_node_view, seq_view};
use crate::ink_parser::parser::{Parser, ParserView};

verus! {

/// The expression holding a literal value.
pub open spec fn literal(v: ExpressionValueView, loc: SourceLocationView) -> ExpressionView {
    ExpressionView { kind: ExpressionKindView::Literal(v), location: loc }
}

/// The characters of a string literal after its opening quote, up to and
/// including the closing quote; `\` takes the next character literally. At
/// the end of the input the error `Unclosed string literal` is reported.
pub open spec fn string_body(pv: ParserView, acc: Seq<char>) -> (ParserView, Seq<char>)
    decreases pv.rem(),
{
    if pv.at_end() {
        (pv.error("Unclosed string literal"@), acc)
    } else if pv.peek() == Some('"') {
        (pv.advance(1), acc)
    } else {
        let p0 = if pv.peek() == Some('\\') {
            pv.advance(1)
        } else {
            pv
        };
        let (p1, c) = p0.parse_single_character();
        let acc2 = match c {
            Some(ch) => acc.push(ch),
            None => acc,
        };
        if p1.rem() < pv.rem() {
            string_body(p1, acc2)
        } else {
            (p1, acc2)
        }
    }
}

#[verifier::opaque]
pub open spec fn parse_string_literal_spec(pv: ParserView) -> (ParserView, Option<ExpressionView>) {
    let loc = pv.location();
    let (p1, ok) = pv.parse_string("\""@);
    if !ok {
        (p1, None)
    } else {
        let (p2, s) = string_body(p1, Seq::empty());
        (p2, Some(literal(ExpressionValueView::Str(s), loc)))
    }
}

/// An integer, a float, a string literal, `true`, `false`, or a variable
/// name, tried in that order.
#[verifier::opaque]
pub open spec fn parse_expression_spec(pv: ParserView) -> (ParserView, Option<ExpressionView>) {
    let loc = pv.location();
    let (p1, i) = pv.parse_int();
    if i is Some {
        (p1, Some(literal(ExpressionValueView::Int(i->0 as int), loc)))
    } else {
        let (p2, f) = p1.parse_float();
        if f is Some {
            (p2, Some(literal(ExpressionValueView::Float(f->0), loc)))
        } else if p2.peek() == Some('"') {
            parse_string_literal_spec(p2)
        } else {
            let (p3, r1) = p2.begin_rule();
            let (p4, t) = p3.parse_string("true"@);
            if t {
                (p4.succeed_rule(), Some(literal(ExpressionValueView::Bool(true), loc)))
            } else {
                let p5 = p4.fail_rule(r1);
                let (p6, r2) = p5.begin_rule();
                let (p7, f2) = p6.parse_string("false"@);
                if f2 {
                    (p7.succeed_rule(), Some(literal(ExpressionValueView::Bool(false), loc)))
                } else {
                    let p8 = p7.fail_rule(r2);
                    let (p9, name) = p8.parse_identifier();
                    match name {
                        Some(n) => (
                            p9,
                            Some(
                                ExpressionView {
                                    kind: ExpressionKindView::VariableRef(
                                        VariableReferenceView {
                                            name: n,
                                            is_divert_target: false,
                                            is_read_count: false,
                                            read_count_path: None,
                                            location: loc,
                                        },
                                    ),
                                    location: loc,
                                },
                            ),
                        ),
                        None => (p9, None),
                    }
                }
            }
        }
    }
}

/// `~`, then `temp name [= expression]`, `name++`, `name--`,
/// `name = expression`, or a name alone (an empty logic block).
#[verifier::opaque]
pub open spec fn parse_logic_line_spec(pv: ParserView) -> (ParserView, Option<StoryNodeView>) {
    let (p1, _) = pv.parse_whitespace();
    let (p2, tilde) = p1.parse_string("~"@);
    if !tilde {
        (p2, None)
    } else {
        let (p3, _) = p2.parse_whitespace();
        let loc = p3.location();
        let (p4, temp) = p3.parse_string("temp"@);
        if temp {
            let (p5, _) = p4.parse_whitespace();
            let (p6, name) = p5.parse_identifier();
            match name {
                None => (p6, None),
                Some(n) => {
                    let identifier = IdentifierView { name: n, location: p6.location() };
                    let (p7, _) = p6.parse_whitespace();
                    let (p8, eq) = p7.parse_string("="@);
                    if eq {
                        let (p9, _) = p8.parse_whitespace();
                        let (p10, value) = parse_expression_spec(p9);
                        match value {
                            None => (p10, None),
                            Some(v) => (
                                p10.parse_newline().0,
                                Some(
                                    StoryNodeView::VariableAssignment(
                                        VariableAssignmentView {
                                            identifier,
                                            value: Some(v),
                                            is_new_declaration: true,
                                            is_global: false,
                                            location: loc,
                                        },
                                    ),
                                ),
                            ),
                        }
                    } else {
                        (
                            p8.parse_newline().0,
                            Some(
                                StoryNodeView::VariableAssignment(
                                    VariableAssignmentView {
                                        identifier,
                                        value: None,
                                        is_new_declaration: true,
                                        is_global: false,
                                        location: loc,
                                    },
                                ),
                            ),
                        )
                    }
                },
            }
        } else {
            let (p5, name) = p4.parse_identifier();
            match name {
                None => (p5, None),
                Some(n) => {
                    let identifier = IdentifierView { name: n, location: p5.location() };
                    let (p6, _) = p5.parse_whitespace();
                    let (p7, inc) = p6.parse_string("++"@);
                    let (p8, dec) = if inc {
                        (p7, false)
                    } else {
                        p7.parse_string("--"@)
                    };
                    if inc || dec {
                        (
                            p8.parse_newline().0,
                            Some(
                                StoryNodeView::VariableAssignment(
                                    VariableAssignmentView {
                                        identifier,
                                        value: None,
                                        is_new_declaration: false,
                                        is_global: false,
                                        location: loc,
                                    },
                                ),
                            ),
                        )
                    } else {
                        let (p9, eq) = p8.parse_string("="@);
                        if eq {
                            let (p10, _) = p9.parse_whitespace();
                            let (p11, value) = parse_expression_spec(p10);
                            match value {
                                None => (p11, None),
                                Some(v) => (
                                    p11.parse_newline().0,
                                    Some(
                                        StoryNodeView::VariableAssignment(
                                            VariableAssignmentView {
                                                identifier,
                                                value: Some(v),
                                                is_new_declaration: false,
                                                is_global: false,
                                                location: loc,
                                            },
                                        ),
                                    ),
                                ),
                            }
                        } else {
                            (
                                p9.parse_newline().0,
                                Some(
                                    StoryNodeView::Logic(
                                        LogicBlockView { content: Seq::empty(), location: loc },
                                    ),
                                ),
                            )
                        }
                    }
                },
            }
        }
    }
}

/// `VAR name = expression`: a new global, located at its name.
#[verifier::opaque]
pub open spec fn parse_var_declaration_spec(pv: ParserView) -> (ParserView, Option<StoryNodeView>) {
    let (p1, _) = pv.parse_whitespace();
    let (p2, ok) = p1.parse_string("VAR"@);
    if !ok {
        (p2, None)
    } else {
        let (p3, _) = p2.parse_whitespace();
        let (p4, name) = p3.parse_identifier();
        match name {
            None => (p4, None),
            Some(n) => {
                let identifier = IdentifierView { name: n, location: p4.location() };
                let (p5, _) = p4.parse_whitespace();
                let (p6, eq) = p5.expect_string("="@, "= for variable assignment"@);
                if !eq {
                    (p6, None)
                } else {
                    let (p7, _) = p6.parse_whitespace();
                    let (p8, value) = parse_expression_spec(p7);
                    match value {
                        None => (p8, None),
                        Some(v) => (
                            p8.parse_newline().0,
                            Some(
                                StoryNodeView::VariableAssignment(
                                    VariableAssignmentView {
                                        identifier,
                                        value: Some(v),
                                        is_new_declaration: true,
                                        is_global: true,
                                        location: identifier.location,
                                    },
                                ),
                            ),
                        ),
                    }
                }
            },
        }
    }
}

/// `CONST name = literal`: the literal's value, located after the line.
#[verifier::opaque]
pub open spec fn parse_const_declaration_spec(pv: ParserView) -> (ParserView, Option<StoryNodeView>) {
    let (p1, _) = pv.parse_whitespace();
    let (p2, ok) = p1.parse_string("CONST"@);
    if !ok {
        (p2, None)
    } else {
        let (p3, _) = p2.parse_whitespace();
        let (p4, name) = p3.parse_identifier();
        match name {
            None => (p4, None),
            Some(n) => {
                let identifier = IdentifierView { name: n, location: p4.location() };
                let (p5, _) = p4.parse_whitespace();
                let (p6, eq) = p5.expect_string("="@, "= for constant assignment"@);
                if !eq {
                    (p6, None)
                } else {
                    let (p7, _) = p6.parse_whitespace();
                    let (p8, value) = parse_expression_spec(p7);
                    match value {
                        Some(ExpressionView { kind: ExpressionKindView::Literal(v), location: _ }) => {
                            let p9 = p8.parse_newline().0;
                            (
                                p9,
                                Some(
                                    StoryNodeView::ConstDeclaration(
                                        ConstDeclarationView {
                                            identifier,
                                            value: v,
                                            location: p9.location(),
                                        },
                                    ),
                                ),
                            )
                        },
                        _ => (p8, None),
                    }
                }
            },
        }
    }
}

/// The argument names of an `EXTERNAL` declaration after its `(`: names
/// separated by `,` up to `)`. Where a round reads nothing (the end of the
/// input, or a character that is no name), the list stops there with the
/// error `Expected ')'`.
pub open spec fn external_args_loop(pv: ParserView, args: Seq<Seq<char>>) -> Option<
    (ParserView, Seq<Seq<char>>),
>
    decreases pv.rem(),
{
    let (p1, _) = pv.parse_whitespace();
    let (p2, close) = p1.parse_string(")"@);
    if close {
        Some((p2, args))
    } else {
        let p4 = if args.len() > 0 {
            p2.expect_string(","@, "',' between arguments"@).0.parse_whitespace().0
        } else {
            p2
        };
        let (p5, name) = p4.parse_identifier();
        let args2 = match name {
            Some(n) => args.push(n),
            None => args,
        };
        if p5.rem() < pv.rem() {
            external_args_loop(p5, args2)
        } else {
            Some((p5.error("Expected ')'"@), args2))
        }
    }
}

/// `names` joined by `sep`.
pub open spec fn join(names: Seq<Seq<char>>, sep: Seq<char>) -> Seq<char>
    decreases names.len(),
{
    if names.len() == 0 {
        Seq::empty()
    } else if names.len() == 1 {
        names[0]
    } else {
        join(names.drop_last(), sep) + sep + names.last()
    }
}

/// `EXTERNAL name(args)`: carried as a constant whose value is the text
/// `EXTERNAL(arg,arg,...)`, located after the line. (Always a result: see
/// `lemma_external_declaration_total`.)
#[verifier::opaque]
pub open spec fn parse_external_declaration_spec(pv: ParserView) -> Option<
    (ParserView, Option<StoryNodeView>),
> {
    let (p1, _) = pv.parse_whitespace();
    let (p2, first) = p1.parse_identifier();
    match first {
        None => Some((p2, None)),
        Some(f) => if f != "EXTERNAL"@ {
            Some((p2, None))
        } else {
            let (p3, _) = p2.parse_whitespace();
            let (p4, name) = p3.parse_identifier();
            match name {
                None => Some((p4, None)),
                Some(n) => {
                    let identifier = IdentifierView { name: n, location: p4.location() };
                    let (p5, _) = p4.parse_whitespace();
                    let (p6, open) = p5.parse_string("("@);
                    let args = if open {
                        external_args_loop(p6, Seq::empty())
                    } else {
                        Some((p6, Seq::empty()))
                    };
                    match args {
                        None => None,
                        Some((p7, names)) => {
                            let p8 = p7.parse_newline().0;
                            Some(
                                (
                                    p8,
                                    Some(
                                        StoryNodeView::ConstDeclaration(
                                            ConstDeclarationView {
                                                identifier,
                                                value: ExpressionValueView::Str(
                                                    "EXTERNAL("@ + join(names, ","@) + ")"@,
                                                ),
                                                location: p8.location(),
                                            },
                                        ),
                                    ),
                                ),
                            )
                        },
                    }
                }
            }
        },
    }
}

/// Parse a logic line starting with ~
pub fn parse_logic_line(p: &mut Parser) -> (r: Option<StoryNode>)
    requires
        old(p).wf(),
    ensures
        final(p).wf(),
        final(p)@.same_source(old(p)@),
        (final(p)@, opt_node_view(r)) == parse_logic_line_spec(old(p)@),
        r is Some ==> old(p)@.pos < final(p)@.pos,
{
    proof {
        reveal(parse_logic_line_spec);
        reveal_strlit("~");
    }
    p.parse_whitespace();
    if p.parse_string("~").is_none() {
        return None;
    }
    p.parse_whitespace();

    let loc = p.current_source_location();

    // Try variable declaration/assignment
    // ~ temp x = 5
    // ~ x = 10
    // ~ x++
    // ~ x--
    // ~ function_call()

    // Try TEMP declaration
    if p.parse_string("temp").is_some() {
        p.parse_whitespace();
        let name = match p.parse_identifier() {
            Some(n) => n,
            None => return None,
        };
        let identifier = Identifier::new(name.as_str(), p.current_source_location());
        p.parse_whitespace();

        let value = if p.parse_string("=").is_some() {
            p.parse_whitespace();
            match parse_expression(p) {
                Some(v) => Some(v),
                None => return None,
            }
        } else {
            None
        };

        p.parse_newline();
        return Some(
            StoryNode::VariableAssignment(
                VariableAssignment {
                    identifier,
                    value,
                    is_new_declaration: true,
                    is_global: false,
                    location: loc,
                },
            ),
        );
    }
    // Try variable assignment or increment

    let name = match p.parse_identifier() {
        Some(n) => n,
        None => return None,
    };
    let identifier = Identifier::new(name.as_str(), p.current_source_location());
    p.parse_whitespace();

    // Increment/decrement
    if p.parse_string("++").is_some() {
        p.parse_newline();
        return Some(
            StoryNode::VariableAssignment(
                VariableAssignment {
                    identifier,
                    value: None,  // increment is special-cased in codegen
                    is_new_declaration: false,
                    is_global: false,
                    location: loc,
                },
            ),
        );
    }
    if p.parse_string("--").is_some() {
        p.parse_newline();
        return Some(
            StoryNode::VariableAssignment(
                VariableAssignment {
                    identifier,
                    value: None,  // decrement is special-cased in codegen
                    is_new_declaration: false,
                    is_global: false,
                    location: loc,
                },
            ),
        );
    }
    // Assignment

    if p.parse_string("=").is_some() {
        p.parse_whitespace();
        let value = match parse_expression(p) {
            Some(v) => v,
            None => return None,
        };
        p.parse_newline();
        return Some(
            StoryNode::VariableAssignment(
                VariableAssignment {
                    identifier,
                    value: Some(value),
                    is_new_declaration: false,
                    is_global: false,
                    location: loc,
                },
            ),
        );
    }
    // Function call on logic line

    p.parse_newline();
    let block = LogicBlock { content: Vec::new(), location: loc };
    assert(nodes_view(block.content@) =~= Seq::empty());
    Some(StoryNode::Logic(block))
}

/// Parse a VAR global declaration
pub fn parse_var_declaration(p: &mut Parser) -> (r: Option<StoryNode>)
    requires
        old(p).wf(),
    ensures
        final(p).wf(),
        final(p)@.same_source(old(p)@),
        (final(p)@, opt_node_view(r)) == parse_var_declaration_spec(old(p)@),
        r is Some ==> old(p)@.pos < final(p)@.pos,
{
    proof {
        reveal(parse_var_declaration_spec);
        reveal_strlit("VAR");
    }
    p.parse_whitespace();
    if p.parse_string("VAR").is_none() {
        return None;
    }
    p.parse_whitespace();

    let name = match p.parse_identifier() {
        Some(n) => n,
        None => return None,
    };
    let identifier = Identifier::new(name.as_str(), p.current_source_location());
    let id_loc = identifier.location.clone();
    p.parse_whitespace();

    if p.expect_string("=", "= for variable assignment").is_none() {
        return None;
    }
    p.parse_whitespace();

    let value = match parse_expression(p) {
        Some(v) => v,
        None => return None,
    };
    p.parse_newline();

    Some(
        StoryNode::VariableAssignment(
            VariableAssignment {
                identifier,
                value: Some(value),
                is_new_declaration: true,
                is_global: true,
                location: id_loc,
            },
        ),
    )
}

/// Parse a CONST declaration
pub fn parse_const_declaration(p: &mut Parser) -> (r: Option<StoryNode>)
    requires
        old(p).wf(),
    ensures
        final(p).wf(),
        final(p)@.same_source(old(p)@),
        (final(p)@, opt_node_view(r)) == parse_const_declaration_spec(old(p)@),
        r is Some ==> old(p)@.pos < final(p)@.pos,
{
    proof {
        reveal(parse_const_declaration_spec);
        reveal_strlit("CONST");
    }
    p.parse_whitespace();
    if p.parse_string("CONST").is_none() {
        return None;
    }
    p.parse_whitespace();

    let name = match p.parse_identifier() {
        Some(n) => n,
        None => return None,
    };
    let identifier = Identifier::new(name.as_str(), p.current_source_location());
    p.parse_whitespace();

    if p.expect_string("=", "= for constant assignment").is_none() {
        return None;
    }
    p.parse_whitespace();

    let expr = match parse_expression(p) {
        Some(e) => e,
        None => return None,
    };
    let value = match extract_expression_value(expr) {
        Some(v) => v,
        None => return None,
    };

    p.parse_newline();

    Some(
        StoryNode::ConstDeclaration(
            ConstDeclaration { identifier, value, location: p.current_source_location() },
        ),
    )
}

/// Parse an EXTERNAL declaration
pub fn parse_external_declaration(p: &mut Parser) -> (r: Option<StoryNode>)
    requires
        old(p).wf(),
    ensures
        final(p).wf(),
        final(p)@.same_source(old(p)@),
        Some((final(p)@, opt_node_view(r))) == parse_external_declaration_spec(old(p)@),
        r is Some ==> old(p)@.pos < final(p)@.pos,
{
    proof {
        lemma_external_declaration_total(old(p)@);
    }
    proof {
        reveal(parse_external_declaration_spec);
        reveal_strlit("(");
    }
    p.parse_whitespace();
    let first = match p.parse_identifier() {
        Some(f) => f,
        None => return None,
    };
    if !crate::text::str_equal(first.as_str(), "EXTERNAL") {
        return None;
    }
    p.parse_whitespace();

    let name = match p.parse_identifier() {
        Some(n) => n,
        None => return None,
    };
    let identifier = Identifier::new(name.as_str(), p.current_source_location());
    p.parse_whitespace();

    // Parse argument list
    let mut arg_names: Vec<String> = Vec::new();
    let ghost p6 = p@;
    if p.parse_string("(").is_some() {
        let ghost p_open = p@;
        assert(seq_view(arg_names@) =~= Seq::<Seq<char>>::empty());
        loop
            invariant_except_break
                external_args_loop(p@, seq_view(arg_names@)) == external_args_loop(
                    p_open,
                    Seq::empty(),
                ),
            invariant
                p.wf(),
                p@.same_source(old(p)@),
                external_args_loop(p_open, Seq::empty()) is Some,
                old(p)@.pos < p_open.pos <= p@.pos,
                p@.pos <= p@.input.len(),
            ensures
                Some((p@, seq_view(arg_names@))) == external_args_loop(p_open, Seq::empty()),
            decreases p@.input.len() - p@.pos,
        {
            let ghost start = p@;
            let ghost acc = seq_view(arg_names@);
            proof {
                p.lemma_wf();
                reveal_strlit(")");
            }
            let start_pos = p.cursor();
            p.parse_whitespace();
            if p.parse_string(")").is_some() {
                break;
            }
            if arg_names.len() > 0 {
                p.expect_string(",", "',' between arguments");
                p.parse_whitespace();
            }
            if let Some(arg) = p.parse_identifier() {
                arg_names.push(arg);
                proof {
                    assert(seq_view(arg_names@) =~= acc.push(arg_names@.last()@));
                }
            }
            proof {
                p.lemma_wf();
            }
            if p.cursor() <= start_pos {
                // Nothing was read: the list ends here.
                p.error("Expected ')'");
                break;
            }
        }
    } else {
        assert(seq_view(arg_names@) =~= Seq::<Seq<char>>::empty());
    }

    p.parse_newline();

    let mut text = String::from_str("EXTERNAL(");
    let joined = join_strings(&arg_names, ",");
    text.append(joined.as_str());
    text.append(")");
    Some(
        StoryNode::ConstDeclaration(
            ConstDeclaration {
                // Use ConstDeclaration as a carrier — EXTERNALs are special
                identifier,
                value: ExpressionValue::String(text),
                location: p.current_source_location(),
            },
        ),
    )
}

/// `names` joined by `sep`.
pub fn join_strings(names: &Vec<String>, sep: &str) -> (r: String)
    ensures
        r@ == join(seq_view(names@), sep@),
{
    let mut s = String::new();
    let mut i: usize = 0;
    assert(seq_view(names@).take(0) =~= Seq::<Seq<char>>::empty());
    while i < names.len()
        invariant
            i <= names.len(),
            s@ == join(seq_view(names@).take(i as int), sep@),
        decreases names.len() - i,
    {
        proof {
            assert(seq_view(names@).take(i + 1).drop_last() =~= seq_view(names@).take(i as int));
        }
        if i > 0 {
            s.append(sep);
        }
        s.append(names[i].as_str());
        i = i + 1;
        proof {
            if i == 1 {
                assert(seq_view(names@).take(1) =~= seq![names@[0]@]);
            }
            assert(s@ =~= join(seq_view(names@).take(i as int), sep@));
        }
    }
    assert(seq_view(names@).take(i as int) =~= seq_view(names@));
    s
}

fn extract_expression_value(expr: Expression) -> (r: Option<ExpressionValue>)
    ensures
        match expr_view(expr).kind {
            ExpressionKindView::Literal(v) => r is Some && r->0@ == v,
            _ => r is None,
        },
{
    match expr.kind {
        ExpressionKind::Literal(v) => Some(v),
        _ => None,
    }
}

/// Parse an expression (simplified for now — full expression parsing is complex)
pub fn parse_expression(p: &mut Parser) -> (r: Option<Expression>)
    requires
        old(p).wf(),
    ensures
        final(p).wf(),
        final(p)@.same_source(old(p)@),
        (final(p)@, opt_expr_view(r)) == parse_expression_spec(old(p)@),
        old(p)@.pos <= final(p)@.pos,
{
    proof {
        reveal(parse_expression_spec);
    }
    let loc = p.current_source_location();

    // Try number literal
    if let Some(val) = p.parse_int() {
        return Some(Expression { kind: ExpressionKind::Literal(ExpressionValue::Int(val)), location: loc });
    }
    // Try float literal

    if let Some(val) = p.parse_float() {
        return Some(Expression { kind: ExpressionKind::Literal(ExpressionValue::Float(val)), location: loc });
    }
    // Try string literal

    if p.peek() == Some('"') {
        return parse_string_literal(p);
    }
    // Try boolean
    {
        let rule_id = p.begin_rule();
        if p.parse_string("true").is_some() {
            p.succeed_rule(rule_id);
            assert(p@.rules =~= old(p)@.rules);
            return Some(
                Expression {
                    kind: ExpressionKind::Literal(ExpressionValue::Bool(true)),
                    location: loc,
                },
            );
        }
        p.fail_rule(rule_id);
        assert(p@.rules =~= old(p)@.rules);
    }
    {
        let rule_id = p.begin_rule();
        if p.parse_string("false").is_some() {
            p.succeed_rule(rule_id);
            assert(p@.rules =~= old(p)@.rules);
            return Some(
                Expression {
                    kind: ExpressionKind::Literal(ExpressionValue::Bool(false)),
                    location: loc,
                },
            );
        }
        p.fail_rule(rule_id);
        assert(p@.rules =~= old(p)@.rules);
    }

    // Try variable reference
    if let Some(name) = p.parse_identifier() {
        let loc2 = loc.clone();
        return Some(
            Expression {
                kind: ExpressionKind::VariableRef(
                    VariableReference {
                        name,
                        is_divert_target: false,
                        is_read_count: false,
                        read_count_path: None,
                        location: loc2,
                    },
                ),
                location: loc,
            },
        );
    }
    None
}

fn parse_string_literal(p: &mut Parser) -> (r: Option<Expression>)
    requires
        old(p).wf(),
    ensures
        final(p).wf(),
        final(p)@.same_source(old(p)@),
        (final(p)@, opt_expr_view(r)) == parse_string_literal_spec(old(p)@),
        old(p)@.pos <= final(p)@.pos,
{
    proof {
        reveal(parse_string_literal_spec);
    }
    let loc = p.current_source_location();
    if p.parse_string("\"").is_none() {
        return None;
    }
    let ghost p1 = p@;

    let mut result = String::new();
    assert(result@ =~= Seq::<char>::empty());
    loop
        invariant_except_break
            string_body(p@, result@) == string_body(p1, Seq::empty()),
        invariant
            p.wf(),
            p@.same_source(old(p)@),
            old(p)@.pos <= p1.pos <= p@.pos,
        ensures
            (p@, result@) == string_body(p1, Seq::empty()),
            old(p)@.pos <= p@.pos,
        decreases p@.input.len() - p@.pos,
    {
        let ghost start = p@;
        proof {
            p.lemma_wf();
        }
        if p.is_end() {
            p.error("Unclosed string literal");
            break;
        }
        if p.peek() == Some('"') {
            p.advance(1);
            break;
        }
        if p.peek() == Some('\\') {
            p.advance(1);
            if let Some(ch) = p.parse_single_character() {
                result.push(ch);
            }
        } else if let Some(ch) = p.parse_single_character() {
            result.push(ch);
        }
        proof {
            p.lemma_wf();
        }
    }

    Some(Expression { kind: ExpressionKind::Literal(ExpressionValue::String(result)), location: loc })
}


/// The argument list of an `EXTERNAL` declaration always comes to an end.
pub proof fn lemma_external_args_total(pv: ParserView, args: Seq<Seq<char>>)
    ensures
        external_args_loop(pv, args) is Some,
    decreases pv.rem(),
{
    let (p1, _) = pv.parse_whitespace();
    let (p2, close) = p1.parse_string(")"@);
    if !close {
        let p4 = if args.len() > 0 {
            p2.expect_string(","@, "',' between arguments"@).0.parse_whitespace().0
        } else {
            p2
        };
        let (p5, name) = p4.parse_identifier();
        let args2 = match name {
            Some(n) => args.push(n),
            None => args,
        };
        if p5.rem() < pv.rem() {
            lemma_external_args_total(p5, args2);
        }
    }
}

/// An `EXTERNAL` declaration always comes to an end.
pub proof fn lemma_external_declaration_total(pv: ParserView)
    ensures
        parse_external_declaration_spec(pv) is Some,
{
    reveal(parse_external_declaration_spec);
    assert forall|q: ParserView| #[trigger] external_args_loop(q, Seq::empty()) is Some by {
        lemma_external_args_total(q, Seq::empty());
    }
}

} // verus!
