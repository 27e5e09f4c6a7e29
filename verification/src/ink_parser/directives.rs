//! Directives: `@ type: name` lines that refer to the game's definitions.

use vstd::prelude::*;
use crate::ink_parser::ir::{directive_type_named, Directive, DirectiveArg, DirectiveArgView, DirectiveModifier, DirectiveModifierView, DirectiveType, DirectiveView, seq_view};
use crate::ink_parser::knot::name_or_empty;
use crate::ink_parser::parser::{Parser, ParserView};

verus! {

/// The items of a directive's bracket, after its `(`: positional arguments
/// (`creak_door`) and `key: value` modifiers (`expression: angry`),
/// separated by `,`. Reading ends after `)`, or, leaving the cursor there,
/// at anything that does not continue the list.
pub open spec fn directive_items_loop(
    pv: ParserView,
    args: Seq<DirectiveArgView>,
    mods: Seq<DirectiveModifierView>,
) -> (ParserView, Seq<DirectiveArgView>, Seq<DirectiveModifierView>)
    decreases pv.rem(),
{
    let (p1, _) = pv.parse_whitespace();
    let (p2, close) = p1.parse_string(")"@);
    if close {
        (p2, args, mods)
    } else {
        let (p3, sep) = if args.len() > 0 || mods.len() > 0 {
            p2.parse_string(","@)
        } else {
            (p2, true)
        };
        if !sep {
            (p3, args, mods)
        } else {
            let (p4, _) = p3.parse_whitespace();
            let loc = p4.location();
            let (p5, key) = p4.parse_identifier();
            match key {
                None => (p5, args, mods),
                Some(k) => {
                    let (p6, _) = p5.parse_whitespace();
                    let (p7, colon) = p6.parse_string(":"@);
                    let (p8, value) = if colon {
                        p7.parse_identifier()
                    } else {
                        (p7, None)
                    };
                    let (args2, mods2) = if colon {
                        (
                            args,
                            mods.push(
                                DirectiveModifierView {
                                    key: k,
                                    value: name_or_empty(value),
                                    location: loc,
                                },
                            ),
                        )
                    } else {
                        (args.push(DirectiveArgView { value: k, location: loc }), mods)
                    };
                    if p8.rem() < pv.rem() {
                        directive_items_loop(p8, args2, mods2)
                    } else {
                        (p8, args2, mods2)
                    }
                },
            }
        }
    }
}

/// `@`, a directive type word (`action`, `scene`, `character`, `state`,
/// `event`, `asset`), `:` and an optional identifier as the name, then,
/// directly after the name, an optional bracket of arguments and
/// modifiers. Without the `:` the error `Expected ':'` is reported.
#[verifier::opaque]
pub open spec fn parse_directive_spec(pv: ParserView) -> (ParserView, Option<DirectiveView>) {
    let loc = pv.location();
    let (p1, ok) = pv.parse_string("@"@);
    if !ok {
        (p1, None)
    } else {
        let (p2, _) = p1.parse_whitespace();
        let (p3, word) = p2.parse_identifier();
        match word {
            None => (p3, None),
            Some(w) => match directive_type_named(w) {
                None => (p3, None),
                Some(t) => {
                    let (p4, _) = p3.parse_whitespace();
                    let (p5, colon) = p4.parse_string(":"@);
                    if !colon {
                        (p5.error("Expected ':'"@), None)
                    } else {
                        let (p6, _) = p5.parse_whitespace();
                        let (p7, name) = p6.parse_identifier();
                        let (p8, open) = p7.parse_string("("@);
                        let (p9, args, mods) = if open {
                            directive_items_loop(p8, Seq::empty(), Seq::empty())
                        } else {
                            (p7, Seq::empty(), Seq::empty())
                        };
                        (
                            p9,
                            Some(
                                DirectiveView {
                                    directive_type: t,
                                    name: name_or_empty(name),
                                    args: args,
                                    modifiers: mods,
                                    location: loc,
                                },
                            ),
                        )
                    }
                },
            },
        }
    }
}

pub fn parse_directive(p: &mut Parser) -> (r: Option<Directive>)
    requires
        old(p).wf(),
    ensures
        final(p).wf(),
        final(p)@.same_source(old(p)@),
        (final(p)@, crate::ink_parser::ir::opt_view(r)) == parse_directive_spec(old(p)@),
        r is Some ==> old(p)@.pos < final(p)@.pos,
{
    proof {
        reveal(parse_directive_spec);
        reveal_strlit("@");
        p.lemma_wf();
    }
    let loc = p.current_source_location();

    if p.parse_string("@").is_none() {
        return None;
    }
    p.parse_whitespace();

    let type_str = match p.parse_identifier() {
        Some(s) => s,
        None => return None,
    };
    let directive_type = match DirectiveType::from_str(type_str.as_str()) {
        Some(t) => t,
        None => return None,
    };
    p.parse_whitespace();

    if p.parse_string(":").is_none() {
        p.error("Expected ':'");
        return None;
    }
    p.parse_whitespace();

    let name = match p.parse_identifier() {
        Some(n) => n,
        None => String::new(),
    };

    let (args, modifiers) = if p.parse_string("(").is_some() {
        parse_directive_items(p)
    } else {
        let args: Vec<DirectiveArg> = Vec::new();
        let modifiers: Vec<DirectiveModifier> = Vec::new();
        proof {
            assert(seq_view(args@) =~= Seq::empty());
            assert(seq_view(modifiers@) =~= Seq::empty());
        }
        (args, modifiers)
    };

    Some(Directive { directive_type, name, args, modifiers, location: loc })
}

/// Reads the items of a directive's bracket, after its `(`.
fn parse_directive_items(p: &mut Parser) -> (r: (Vec<DirectiveArg>, Vec<DirectiveModifier>))
    requires
        old(p).wf(),
    ensures
        final(p).wf(),
        final(p)@.same_source(old(p)@),
        old(p)@.pos <= final(p)@.pos,
        (final(p)@, seq_view(r.0@), seq_view(r.1@)) == directive_items_loop(
            old(p)@,
            Seq::empty(),
            Seq::empty(),
        ),
{
    let ghost p0 = p@;
    let mut args: Vec<DirectiveArg> = Vec::new();
    let mut mods: Vec<DirectiveModifier> = Vec::new();
    assert(seq_view(args@) =~= Seq::<DirectiveArgView>::empty());
    assert(seq_view(mods@) =~= Seq::<DirectiveModifierView>::empty());
    loop
        invariant_except_break
            directive_items_loop(p@, seq_view(args@), seq_view(mods@)) == directive_items_loop(
                p0,
                Seq::empty(),
                Seq::empty(),
            ),
        invariant
            p.wf(),
            p@.same_source(p0),
            p0.pos <= p@.pos,
        ensures
            directive_items_loop(p0, Seq::empty(), Seq::empty()) == (
                p@,
                seq_view(args@),
                seq_view(mods@),
            ),
        decreases p@.input.len() - p@.pos,
    {
        let ghost start = p@;
        proof {
            p.lemma_wf();
            reveal_strlit(")");
            reveal_strlit(",");
            reveal_strlit(":");
        }
        let start_pos = p.cursor();
        p.parse_whitespace();
        if p.parse_string(")").is_some() {
            break;
        }
        if args.len() > 0 || mods.len() > 0 {
            if p.parse_string(",").is_none() {
                break;
            }
        }
        p.parse_whitespace();
        let loc = p.current_source_location();
        let key = match p.parse_identifier() {
            Some(k) => k,
            None => break,
        };
        p.parse_whitespace();
        if p.parse_string(":").is_some() {
            let value = p.parse_identifier();
            let value_text = match value {
                Some(v) => v,
                None => String::new(),
            };
            let ghost before = seq_view(mods@);
            mods.push(DirectiveModifier { key, value: value_text, location: loc });
            assert(seq_view(mods@) =~= before.push(mods@.last()@));
        } else {
            let ghost before = seq_view(args@);
            args.push(DirectiveArg { value: key, location: loc });
            assert(seq_view(args@) =~= before.push(args@.last()@));
        }
        proof {
            p.lemma_wf();
        }
        if p.cursor() <= start_pos {
            break;
        }
    }
    (args, mods)
}

} // verus!
