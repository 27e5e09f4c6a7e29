//! Knots (`=== name(args) ===`) and stitches (`= name`), and their
//! parameter lists.

use vstd::prelude::*;
use crate::ink_parser::ir::{FlowArgument, FlowArgumentView, Identifier, IdentifierView, Knot, KnotView, SourceLocation, SourceLocationView, StoryNode, StoryNodeView, nodes_view, opt_node_view, seq_view};
use crate::ink_parser::parser::{Parser, ParserView, chars_in_end, opt_chars};
use crate::ink_parser::statements::{StatementLevel, parse_statements_at_level, statements_spec};
use crate::text::str_equal;

verus! {

/// What a knot or stitch header declares.
pub struct FlowDeclView {
    pub name: IdentifierView,
    pub arguments: Seq<FlowArgumentView>,
    pub is_function: bool,
    pub location: SourceLocationView,
}

struct FlowDecl {
    name: Identifier,
    arguments: Vec<FlowArgument>,
    is_function: bool,
    location: SourceLocation,
}

impl FlowDecl {
    spec fn view(&self) -> FlowDeclView {
        FlowDeclView {
            name: self.name@,
            arguments: seq_view(self.arguments@),
            is_function: self.is_function,
            location: self.location@,
        }
    }
}

spec fn opt_decl(d: Option<FlowDecl>) -> Option<FlowDeclView> {
    match d {
        Some(x) => Some(x.view()),
        None => None,
    }
}

/// The knot (or stitch) that a header and its content make.
pub open spec fn flow_node(decl: FlowDeclView, content: Seq<StoryNodeView>) -> StoryNodeView {
    StoryNodeView::Knot(
        KnotView {
            identifier: decl.name,
            content,
            arguments: decl.arguments,
            is_function: decl.is_function,
            location: decl.location,
        },
    )
}

/// A run of `=`; its length, when there is one.
pub open spec fn parse_equals_spec(pv: ParserView) -> (ParserView, Option<nat>) {
    let e = chars_in_end(pv.input, pv.pos, seq!['=']);
    if e > pv.pos {
        (pv.set_pos(e), Some((e - pv.pos) as nat))
    } else {
        (pv, None)
    }
}

/// The characters of an optional name, or nothing.
pub open spec fn name_or_empty(n: Option<Seq<char>>) -> Seq<char> {
    match n {
        Some(s) => s,
        None => Seq::empty(),
    }
}

/// One parameter: `ref name` (by reference, a divert target when `->`
/// stands between), `-> name` (a divert target), or a plain name.
pub open spec fn flow_argument(
    first: Option<Seq<char>>,
    is_divert: bool,
    second: Option<Seq<char>>,
    loc: SourceLocationView,
) -> FlowArgumentView {
    if first == Some("ref"@) {
        FlowArgumentView {
            identifier: IdentifierView { name: name_or_empty(second), location: loc },
            is_by_reference: true,
            is_divert_target: is_divert,
        }
    } else if is_divert {
        FlowArgumentView {
            identifier: IdentifierView { name: name_or_empty(second), location: loc },
            is_by_reference: false,
            is_divert_target: true,
        }
    } else {
        FlowArgumentView {
            identifier: IdentifierView { name: name_or_empty(first), location: loc },
            is_by_reference: false,
            is_divert_target: false,
        }
    }
}

/// Parameters up to `)`, separated by `,` (a missing comma is reported and
/// the list may still close there). Where a round reads nothing (the end of
/// the input, or a character that starts no parameter), the list stops
/// there with the error `Expected ')'`.
pub open spec fn bracketed_args_loop(pv: ParserView, args: Seq<FlowArgumentView>) -> Option<
    (ParserView, Seq<FlowArgumentView>),
>
    decreases pv.rem(),
{
    let (p1, _) = pv.parse_whitespace();
    let (p2, close) = p1.parse_string(")"@);
    if close {
        Some((p2, args))
    } else {
        let (p3, stop) = if args.len() > 0 {
            let (q1, comma) = p2.parse_string(","@);
            if comma {
                (q1.parse_whitespace().0, false)
            } else {
                let q2 = q1.error("Expected ',' between arguments"@);
                let (q3, _) = q2.parse_whitespace();
                let (q4, close2) = q3.parse_string(")"@);
                if close2 {
                    (q4, true)
                } else {
                    (q4.parse_whitespace().0, false)
                }
            }
        } else {
            (p2, false)
        };
        if stop {
            Some((p3, args))
        } else {
            let (p4, first) = p3.parse_identifier();
            let (p5, _) = p4.parse_whitespace();
            let (p6, is_divert) = p5.parse_string("->"@);
            let (p7, _) = p6.parse_whitespace();
            let (p8, second) = p7.parse_identifier();
            let arg = flow_argument(first, is_divert, second, p8.location());
            if p8.rem() < pv.rem() {
                bracketed_args_loop(p8, args.push(arg))
            } else {
                Some((p8.error("Expected ')'"@), args))
            }
        }
    }
}

/// `(` and the parameters, or nothing without `(`.
#[verifier::opaque]
pub open spec fn parse_bracketed_arguments_spec(pv: ParserView) -> Option<
    (ParserView, Option<Seq<FlowArgumentView>>),
> {
    let (p1, open) = pv.parse_string("("@);
    if !open {
        Some((p1, None))
    } else {
        match bracketed_args_loop(p1, Seq::empty()) {
            None => None,
            Some((p2, args)) => Some((p2, Some(args))),
        }
    }
}

/// The parameters, or none.
pub open spec fn args_or_empty(a: Option<Seq<FlowArgumentView>>) -> Seq<FlowArgumentView> {
    match a {
        Some(s) => s,
        None => Seq::empty(),
    }
}

/// Whitespace, two or more `=`, optionally `function`, the name (reported
/// when missing), optional parameters and optional closing `=`s.
#[verifier::opaque]
pub open spec fn parse_knot_declaration_spec(pv: ParserView) -> Option<
    (ParserView, Option<FlowDeclView>),
> {
    let (p1, _) = pv.parse_whitespace();
    let loc = p1.location();
    let (p2, eq) = parse_equals_spec(p1);
    match eq {
        None => Some((p2, None)),
        Some(n) => if n < 2 {
            Some((p2, None))
        } else {
            let (p3, _) = p2.parse_whitespace();
            let (q0, rule) = p3.begin_rule();
            let (q1, word) = q0.parse_identifier();
            let (p4, is_function) = if word == Some("function"@) {
                (q1.succeed_rule(), true)
            } else {
                (q1.fail_rule(rule), false)
            };
            let p5 = if is_function {
                p4.parse_whitespace().0
            } else {
                p4
            };
            let (p6, name) = p5.parse_identifier();
            match name {
                None => Some((p6.error("Expected the name of the knot"@), None)),
                Some(nm) => {
                    let ident = IdentifierView { name: nm, location: p6.location() };
                    let (p7, _) = p6.parse_whitespace();
                    match parse_bracketed_arguments_spec(p7) {
                        None => None,
                        Some((p8, args)) => {
                            let (p9, _) = p8.parse_whitespace();
                            let (p10, _) = parse_equals_spec(p9);
                            Some(
                                (
                                    p10,
                                    Some(
                                        FlowDeclView {
                                            name: ident,
                                            arguments: args_or_empty(args),
                                            is_function,
                                            location: loc,
                                        },
                                    ),
                                ),
                            )
                        },
                    }
                },
            }
        },
    }
}

/// Whitespace, a single `=` (not `==`), optionally `function` (reported:
/// stitches cannot be functions), the name and optional parameters.
#[verifier::opaque]
pub open spec fn parse_stitch_declaration_spec(pv: ParserView) -> Option<
    (ParserView, Option<FlowDeclView>),
> {
    let (p1, _) = pv.parse_whitespace();
    let loc = p1.location();
    let (p2, eq) = p1.parse_string("="@);
    if !eq || p2.peek() == Some('=') {
        Some((p2, None))
    } else {
        let (p3, _) = p2.parse_whitespace();
        let (p4, is_function) = p3.parse_string("function"@);
        let p5 = if is_function {
            p4.parse_whitespace().0.error("Stitches cannot be functions"@)
        } else {
            p4
        };
        let (p6, name) = p5.parse_identifier();
        match name {
            None => Some((p6, None)),
            Some(nm) => {
                let ident = IdentifierView { name: nm, location: p6.location() };
                let (p7, _) = p6.parse_whitespace();
                match parse_bracketed_arguments_spec(p7) {
                    None => None,
                    Some((p8, args)) => {
                        let (p9, _) = p8.parse_whitespace();
                        Some(
                            (
                                p9,
                                Some(
                                    FlowDeclView {
                                        name: ident,
                                        arguments: args_or_empty(args),
                                        is_function,
                                        location: loc,
                                    },
                                ),
                            ),
                        )
                    },
                }
            },
        }
    }
}

/// A knot header, a newline, and the knot's statements.
pub open spec fn knot_definition_spec(pv: ParserView) -> Option<(ParserView, Option<StoryNodeView>)>
    decreases pv.rem(), 1nat,
{
    match parse_knot_declaration_spec(pv) {
        None => None,
        Some((p1, None)) => Some((p1, None)),
        Some((p1, Some(decl))) => {
            let (p2, _) = p1.parse_newline();
            if p2.rem() < pv.rem() {
                match statements_spec(p2, StatementLevel::Knot) {
                    None => None,
                    Some((p3, content)) => Some((p3, Some(flow_node(decl, content)))),
                }
            } else {
                Some((p2, Some(flow_node(decl, Seq::empty()))))
            }
        },
    }
}

/// A stitch header, a newline, and the stitch's statements.
pub open spec fn stitch_definition_spec(pv: ParserView) -> Option<(ParserView, Option<StoryNodeView>)>
    decreases pv.rem(), 1nat,
{
    match parse_stitch_declaration_spec(pv) {
        None => None,
        Some((p1, None)) => Some((p1, None)),
        Some((p1, Some(decl))) => {
            let (p2, _) = p1.parse_newline();
            if p2.rem() < pv.rem() {
                match statements_spec(p2, StatementLevel::Stitch) {
                    None => None,
                    Some((p3, content)) => Some((p3, Some(flow_node(decl, content)))),
                }
            } else {
                Some((p2, Some(flow_node(decl, Seq::empty()))))
            }
        },
    }
}

/// Parse a knot definition: === knot_name ===
pub fn parse_knot_definition(p: &mut Parser) -> (r: Option<StoryNode>)
    requires
        old(p).wf(),
    ensures
        final(p).wf(),
        final(p)@.same_source(old(p)@),
        Some((final(p)@, opt_node_view(r))) == knot_definition_spec(old(p)@),
    decreases old(p)@.rem(), 1nat,
{
    proof {
        crate::ink_parser::statements::lemma_knot_definition_total(old(p)@);
    }
    let ghost start = p@;
    proof {
        p.lemma_wf();
    }
    let start_pos = p.cursor();
    let decl = match parse_knot_declaration(p) {
        Some(d) => d,
        None => return None,
    };
    p.parse_newline();
    proof {
        p.lemma_wf();
    }
    let content = if p.cursor() > start_pos {
        parse_statements_at_level(p, StatementLevel::Knot)
    } else {
        let v: Vec<StoryNode> = Vec::new();
        assert(nodes_view(v@) =~= Seq::<StoryNodeView>::empty());
        v
    };
    Some(
        StoryNode::Knot(
            Knot {
                identifier: decl.name,
                content,
                arguments: decl.arguments,
                is_function: decl.is_function,
                location: decl.location,
            },
        ),
    )
}

fn parse_knot_declaration(p: &mut Parser) -> (r: Option<FlowDecl>)
    requires
        old(p).wf(),
        parse_knot_declaration_spec(old(p)@) is Some,
    ensures
        final(p).wf(),
        final(p)@.same_source(old(p)@),
        Some((final(p)@, opt_decl(r))) == parse_knot_declaration_spec(old(p)@),
{
    proof {
        reveal(parse_knot_declaration_spec);
        reveal_strlit("function");
    }
    p.parse_whitespace();

    let loc = p.current_source_location();
    let equals = match parse_equals(p) {
        Some(n) => n,
        None => return None,
    };
    if equals < 2 {
        return None;
    }
    p.parse_whitespace();

    // Check for "function" keyword
    let rule_id = p.begin_rule();
    let id = p.parse_identifier();
    let is_function = match &id {
        Some(s) => str_equal(s.as_str(), "function"),
        None => false,
    };
    if is_function {
        p.succeed_rule(rule_id);
    } else {
        p.fail_rule(rule_id);
    }
    assert(p@.rules =~= old(p)@.rules);

    if is_function {
        p.parse_whitespace();
    }
    let name_str = match p.parse_identifier() {
        Some(s) => s,
        None => {
            p.error("Expected the name of the knot");
            return None;
        },
    };
    let identifier = Identifier::new(name_str.as_str(), p.current_source_location());

    p.parse_whitespace();

    // Parse optional parameters
    let arguments = match parse_bracketed_arguments(p) {
        Some(a) => a,
        None => {
            let v: Vec<FlowArgument> = Vec::new();
            assert(seq_view(v@) =~= Seq::<FlowArgumentView>::empty());
            v
        },
    };

    p.parse_whitespace();

    // Optional trailing equals
    parse_equals(p);

    Some(FlowDecl { name: identifier, arguments, is_function, location: loc })
}

/// Parse stitch definition: = stitch_name
pub fn parse_stitch_definition(p: &mut Parser) -> (r: Option<StoryNode>)
    requires
        old(p).wf(),
    ensures
        final(p).wf(),
        final(p)@.same_source(old(p)@),
        Some((final(p)@, opt_node_view(r))) == stitch_definition_spec(old(p)@),
    decreases old(p)@.rem(), 1nat,
{
    proof {
        crate::ink_parser::statements::lemma_knot_definition_total(old(p)@);
    }
    let ghost start = p@;
    proof {
        p.lemma_wf();
    }
    let start_pos = p.cursor();
    let decl = match parse_stitch_declaration(p) {
        Some(d) => d,
        None => return None,
    };
    p.parse_newline();
    proof {
        p.lemma_wf();
    }
    let content = if p.cursor() > start_pos {
        parse_statements_at_level(p, StatementLevel::Stitch)
    } else {
        let v: Vec<StoryNode> = Vec::new();
        assert(nodes_view(v@) =~= Seq::<StoryNodeView>::empty());
        v
    };
    Some(
        StoryNode::Knot(
            Knot {
                identifier: decl.name,
                content,
                arguments: decl.arguments,
                is_function: decl.is_function,
                location: decl.location,
            },
        ),
    )
}

fn parse_stitch_declaration(p: &mut Parser) -> (r: Option<FlowDecl>)
    requires
        old(p).wf(),
        parse_stitch_declaration_spec(old(p)@) is Some,
    ensures
        final(p).wf(),
        final(p)@.same_source(old(p)@),
        Some((final(p)@, opt_decl(r))) == parse_stitch_declaration_spec(old(p)@),
{
    proof {
        reveal(parse_stitch_declaration_spec);
    }
    p.parse_whitespace();

    let loc = p.current_source_location();

    // Single equals for stitch
    if p.parse_string("=").is_none() {
        return None;
    }
    // If there's a second equals, that's a knot — fail this rule
    if p.peek() == Some('=') {
        return None;
    }
    p.parse_whitespace();

    // Stitches aren't allowed to be functions, but parse and report error
    let is_function = p.parse_string("function").is_some();
    if is_function {
        p.parse_whitespace();
        p.error("Stitches cannot be functions");
    }
    let name_str = match p.parse_identifier() {
        Some(s) => s,
        None => return None,
    };
    let identifier = Identifier::new(name_str.as_str(), p.current_source_location());

    p.parse_whitespace();
    let arguments = match parse_bracketed_arguments(p) {
        Some(a) => a,
        None => {
            let v: Vec<FlowArgument> = Vec::new();
            assert(seq_view(v@) =~= Seq::<FlowArgumentView>::empty());
            v
        },
    };
    p.parse_whitespace();

    Some(FlowDecl { name: identifier, arguments, is_function, location: loc })
}

fn parse_equals(p: &mut Parser) -> (r: Option<usize>)
    requires
        old(p).wf(),
    ensures
        final(p).wf(),
        final(p)@.same_source(old(p)@),
        (final(p)@, match r {
            Some(n) => Some(n as nat),
            None => None,
        }) == parse_equals_spec(old(p)@),
{
    let mut count: usize = 0;
    loop
        invariant
            p.wf(),
            p@ == old(p)@.set_pos(p@.pos),
            p@.pos == old(p)@.pos + count,
            chars_in_end(p@.input, p@.pos, seq!['=']) == chars_in_end(
                old(p)@.input,
                old(p)@.pos,
                seq!['='],
            ),
        ensures
            p@ == old(p)@.set_pos(p@.pos),
            p@.pos == old(p)@.pos + count,
            chars_in_end(old(p)@.input, old(p)@.pos, seq!['=']) == p@.pos,
        decreases p@.input.len() - p@.pos,
    {
        proof {
            p.lemma_wf();
            reveal_strlit("=");
            assert("="@ =~= seq!['=']);
        }
        let ghost before = p@;
        if p.parse_string("=").is_none() {
            proof {
                assert(!(p@.pos < p@.input.len() && seq!['='].contains(p@.input[p@.pos as int]))) by {
                    if p@.pos < p@.input.len() && seq!['='].contains(p@.input[p@.pos as int]) {
                        assert(p@.input[p@.pos as int] == '=');
                        assert(p@.input.subrange(p@.pos as int, (p@.pos + 1) as int) =~= seq!['=']);
                    }
                }
            }
            break;
        }
        proof {
            assert(before.input.subrange(before.pos as int, (before.pos + 1) as int) == seq!['=']);
            assert(before.input[before.pos as int] == before.input.subrange(
                before.pos as int,
                (before.pos + 1) as int,
            )[0]);
            assert(seq!['='].contains(before.input[before.pos as int]));
        }
        count = count + 1;
    }
    if count > 0 {
        Some(count)
    } else {
        None
    }
}

#[verifier::rlimit(40)]
fn parse_bracketed_arguments(p: &mut Parser) -> (r: Option<Vec<FlowArgument>>)
    requires
        old(p).wf(),
        parse_bracketed_arguments_spec(old(p)@) is Some,
    ensures
        final(p).wf(),
        final(p)@.same_source(old(p)@),
        Some(
            (final(p)@, match r {
                Some(v) => Some(seq_view(v@)),
                None => None,
            }),
        ) == parse_bracketed_arguments_spec(old(p)@),
{
    proof {
        reveal(parse_bracketed_arguments_spec);
    }
    if p.parse_string("(").is_none() {
        return None;
    }
    let ghost p1 = p@;
    let mut args: Vec<FlowArgument> = Vec::new();
    assert(seq_view(args@) =~= Seq::<FlowArgumentView>::empty());
    loop
        invariant_except_break
            bracketed_args_loop(p@, seq_view(args@)) == bracketed_args_loop(p1, Seq::empty()),
        invariant
            p.wf(),
            p@.same_source(old(p)@),
            bracketed_args_loop(p1, Seq::empty()) is Some,
            parse_bracketed_arguments_spec(old(p)@) == (match bracketed_args_loop(p1, Seq::empty()) {
                None => None,
                Some((p2, a)) => Some((p2, Some(a))),
            }),
        ensures
            bracketed_args_loop(p1, Seq::empty()) == Some((p@, seq_view(args@))),
        decreases p@.input.len() - p@.pos,
    {
        let ghost start = p@;
        let ghost acc = seq_view(args@);
        proof {
            p.lemma_wf();
            reveal_strlit("ref");
            reveal_strlit("");
            reveal_strlit(")");
        }
        let start_pos = p.cursor();
        p.parse_whitespace();
        if p.parse_string(")").is_some() {
            break;
        }
        if args.len() > 0 {
            if p.parse_string(",").is_none() {
                p.error("Expected ',' between arguments");
                // Try to continue by looking for closing paren
                p.parse_whitespace();
                if p.parse_string(")").is_some() {
                    break;
                }
            }
            p.parse_whitespace();
        }
        // Parse argument: possibly "ref", possibly "->" for divert target

        let first_id = p.parse_identifier();
        p.parse_whitespace();
        let is_divert = p.parse_string("->").is_some();
        p.parse_whitespace();
        let second_id = p.parse_identifier();

        let is_ref = match &first_id {
            Some(s) => str_equal(s.as_str(), "ref"),
            None => false,
        };
        let second_name: &str = match &second_id {
            Some(s) => s.as_str(),
            None => "",
        };
        let first_name: &str = match &first_id {
            Some(s) => s.as_str(),
            None => "",
        };
        let arg = if is_ref {
            FlowArgument {
                identifier: Identifier::new(second_name, p.current_source_location()),
                is_by_reference: true,
                is_divert_target: is_divert,
            }
        } else if is_divert {
            FlowArgument {
                identifier: Identifier::new(second_name, p.current_source_location()),
                is_by_reference: false,
                is_divert_target: true,
            }
        } else {
            FlowArgument {
                identifier: Identifier::new(first_name, p.current_source_location()),
                is_by_reference: false,
                is_divert_target: false,
            }
        };
        proof {
            let f = opt_chars(first_id);
            let sc = opt_chars(second_id);
            assert(is_ref == (f == Some("ref"@)));
            assert(second_name@ == name_or_empty(sc));
            assert(first_name@ == name_or_empty(f));
            assert(arg@ == flow_argument(f, is_divert, sc, p@.location()));
        }
        proof {
            p.lemma_wf();
        }
        if p.cursor() <= start_pos {
            // Nothing was read: the list ends here.
            p.error("Expected ')'");
            break;
        }
        let ghost before = args@;
        args.push(arg);
        proof {
            assert(seq_view(args@) =~= acc.push(arg@));
        }
    }
    Some(args)
}

/// Check if current position starts a knot declaration
pub fn at_knot_declaration(p: &Parser) -> (r: bool)
    requires
        p.wf(),
    ensures
        r == p@.starts_with("=="@),
{
    p.peek_str("==")
}


/// The parameter list always comes to an end.
pub proof fn lemma_bracketed_args_total(pv: ParserView, args: Seq<FlowArgumentView>)
    ensures
        bracketed_args_loop(pv, args) is Some,
    decreases pv.rem(),
{
    let (p1, _) = pv.parse_whitespace();
    let (p2, close) = p1.parse_string(")"@);
    if !close {
        let (p3, stop) = if args.len() > 0 {
            let (q1, comma) = p2.parse_string(","@);
            if comma {
                (q1.parse_whitespace().0, false)
            } else {
                let q2 = q1.error("Expected ',' between arguments"@);
                let (q3, _) = q2.parse_whitespace();
                let (q4, close2) = q3.parse_string(")"@);
                if close2 {
                    (q4, true)
                } else {
                    (q4.parse_whitespace().0, false)
                }
            }
        } else {
            (p2, false)
        };
        if !stop {
            let (p4, first) = p3.parse_identifier();
            let (p5, _) = p4.parse_whitespace();
            let (p6, is_divert) = p5.parse_string("->"@);
            let (p7, _) = p6.parse_whitespace();
            let (p8, second) = p7.parse_identifier();
            let arg = flow_argument(first, is_divert, second, p8.location());
            if p8.rem() < pv.rem() {
                lemma_bracketed_args_total(p8, args.push(arg));
            }
        }
    }
}

/// Knot and stitch headers always come to an end.
pub proof fn lemma_declarations_total(pv: ParserView)
    ensures
        parse_knot_declaration_spec(pv) is Some,
        parse_stitch_declaration_spec(pv) is Some,
{
    reveal(parse_knot_declaration_spec);
    reveal(parse_stitch_declaration_spec);
    reveal(parse_bracketed_arguments_spec);
    assert forall|q: ParserView| #[trigger] parse_bracketed_arguments_spec(q) is Some by {
        lemma_bracketed_args_total(q.parse_string("("@).0, Seq::empty());
    }
}

} // verus!
