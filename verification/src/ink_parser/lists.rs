//! `LIST name = item, item: value, ...` declarations.

use vstd::prelude::*;
use crate::ink_parser::ir::{
    Identifier, IdentifierView, ListDeclaration, ListDeclarationView, ListItemDeclaration,
    ListItemDeclarationView, StoryNode, StoryNodeView, opt_node_view, seq_view,
};
use crate::ink_parser::parser::{Parser, ParserView};

verus! {

/// The items of a list, each numbered from `next` on unless given a value
/// (`name: int`, which also sets the next number to one more than it, after
/// which the usual increment still applies); the numbering wraps around at
/// the ends of `i32`. The items end at the end of the input or line, at `)`
/// or `}`, or where no `,` follows an item. The inner `None` is a missing
/// item name (no declaration).
pub open spec fn list_items_loop(pv: ParserView, items: Seq<ListItemDeclarationView>, next: int) -> Option<
    (ParserView, Option<Seq<ListItemDeclarationView>>),
>
    decreases pv.rem(),
{
    let (p1, _) = pv.parse_whitespace();
    if p1.at_end() || p1.peek() == Some('\n') || p1.peek() == Some('\r') || p1.peek() == Some(')')
        || p1.peek() == Some('}') {
        Some((p1, Some(items)))
    } else {
        let (p2, name) = p1.parse_identifier();
        match name {
            None => Some((p2, None)),
            Some(n) => {
                let (p3, _) = p2.parse_whitespace();
                let (p4, colon) = p3.parse_string(":"@);
                let (p6, explicit) = if colon {
                    let (p5, _) = p4.parse_whitespace();
                    let (p6, val) = p5.parse_int();
                    match val {
                        Some(x) => (p6, Some(x as i32)),
                        None => (p6, None),
                    }
                } else {
                    (p4, None)
                };
                let current: i32 = match explicit {
                    Some(t) => vstd::wrapping::i32_specs::wrapping_add(t, 1),
                    None => next as i32,
                };
                let item = ListItemDeclarationView {
                    name: IdentifierView { name: n, location: p6.location() },
                    value: match explicit {
                        Some(t) => Some(t),
                        None => Some(current),
                    },
                };
                let after = vstd::wrapping::i32_specs::wrapping_add(current, 1) as int;
                let (p7, _) = p6.parse_whitespace();
                let (p8, comma) = p7.parse_string(","@);
                if comma {
                    let (p9, _) = p8.parse_whitespace();
                    if p9.rem() < pv.rem() {
                        list_items_loop(p9, items.push(item), after)
                    } else {
                        Some((p9, Some(items.push(item))))
                    }
                } else {
                    Some((p8, Some(items.push(item))))
                }
            },
        }
    }
}

/// The declaration made from the items, after the newline that ends it.
pub open spec fn list_declaration_finish(
    items: Option<(ParserView, Option<Seq<ListItemDeclarationView>>)>,
    identifier: IdentifierView,
) -> Option<(ParserView, Option<StoryNodeView>)> {
    match items {
        None => None,
        Some((p9, None)) => Some((p9, None)),
        Some((p9, Some(its))) => {
            let p10 = p9.parse_newline().0;
            Some(
                (
                    p10,
                    Some(
                        StoryNodeView::ListDeclaration(
                            ListDeclarationView { identifier, items: its, location: p10.location() },
                        ),
                    ),
                ),
            )
        },
    }
}

/// `LIST name = items`, located after the line. A missing `=` is reported
/// (at the position before it).
#[verifier::opaque]
pub open spec fn parse_list_declaration_spec(pv: ParserView) -> Option<(ParserView, Option<StoryNodeView>)> {
    let (p1, _) = pv.parse_whitespace();
    let (p2, ok) = p1.parse_string("LIST"@);
    if !ok {
        Some((p2, None))
    } else {
        let (p3, _) = p2.parse_whitespace();
        let (p4, name) = p3.parse_identifier();
        match name {
            None => Some((p4, None)),
            Some(n) => {
                let identifier = IdentifierView { name: n, location: p4.location() };
                let (p5, _) = p4.parse_whitespace();
                let (p6, rule) = p5.begin_rule();
                let (p7, eq) = p6.parse_string("="@);
                if !eq {
                    Some((p7.fail_rule(rule).error("Expected = for list"@), None))
                } else {
                    let (p8, _) = p7.succeed_rule().parse_whitespace();
                    list_declaration_finish(list_items_loop(p8, Seq::empty(), 1), identifier)
                }
            },
        }
    }
}

/// Parse a LIST declaration: LIST name = item1, item2, item3
pub fn parse_list_declaration(p: &mut Parser) -> (r: Option<StoryNode>)
    requires
        old(p).wf(),
    ensures
        final(p).wf(),
        final(p)@.same_source(old(p)@),
        Some((final(p)@, opt_node_view(r))) == parse_list_declaration_spec(old(p)@),
        r is Some ==> old(p)@.pos < final(p)@.pos,
{
    proof {
        lemma_list_declaration_total(old(p)@);
    }
    proof {
        reveal(parse_list_declaration_spec);
        reveal_strlit("LIST");
    }
    p.parse_whitespace();
    if p.parse_string("LIST").is_none() {
        return None;
    }
    p.parse_whitespace();

    let name_str = match p.parse_identifier() {
        Some(n) => n,
        None => return None,
    };
    let identifier = Identifier::new(name_str.as_str(), p.current_source_location());

    p.parse_whitespace();
    let eq_rule_id = p.begin_rule();
    if p.parse_string("=").is_none() {
        p.fail_rule(eq_rule_id);
        assert(p@.rules =~= old(p)@.rules);
        p.error("Expected = for list");
        return None;
    }
    p.succeed_rule(eq_rule_id);
    assert(p@.rules =~= old(p)@.rules);

    p.parse_whitespace();
    let ghost p8 = p@;

    let mut items: Vec<ListItemDeclaration> = Vec::new();
    let mut item_value: i32 = 1;
    assert(seq_view(items@) =~= Seq::<ListItemDeclarationView>::empty());

    loop
        invariant_except_break
            list_items_loop(p@, seq_view(items@), item_value as int) == list_items_loop(
                p8,
                Seq::empty(),
                1,
            ),
        invariant
            p.wf(),
            p@.same_source(old(p)@),
            list_items_loop(p8, Seq::empty(), 1) is Some,
            parse_list_declaration_spec(old(p)@) == list_declaration_finish(
                list_items_loop(p8, Seq::empty(), 1),
                identifier@,
            ),
            old(p)@.pos < p8.pos <= p@.pos,
        ensures
            list_items_loop(p8, Seq::empty(), 1) == Some((p@, Some(seq_view(items@)))),
        decreases p@.input.len() - p@.pos,
    {
        let ghost start = p@;
        let ghost acc = seq_view(items@);
        proof {
            p.lemma_wf();
        }
        let start_pos = p.cursor();
        p.parse_whitespace();
        if p.is_end() {
            break;
        }
        if p.peek() == Some('\n') || p.peek() == Some('\r') {
            break;
        }
        if p.peek() == Some(')') || p.peek() == Some('}') {
            break;
        }
        // Try to parse item name (an identifier is never empty)

        let item_name_str = match p.parse_identifier() {
            Some(n) => n,
            None => return None,
        };

        p.parse_whitespace();

        let mut explicit_value: Option<i32> = None;
        if p.parse_string(":").is_some() {
            p.parse_whitespace();
            if let Some(val) = p.parse_int() {
                explicit_value = Some(val as i32);
                item_value = (val as i32).wrapping_add(1);
            }
        }
        let item = ListItemDeclaration {
            name: Identifier::new(item_name_str.as_str(), p.current_source_location()),
            value: match explicit_value {
                Some(v) => Some(v),
                None => Some(item_value),
            },
        };
        items.push(item);
        item_value = item_value.wrapping_add(1);
        proof {
            assert(seq_view(items@) =~= acc.push(items@.last()@));
        }

        p.parse_whitespace();
        if p.parse_string(",").is_some() {
            p.parse_whitespace();
            proof {
                p.lemma_wf();
            }
            if p.cursor() <= start_pos {
                break;
            }
            continue;
        }
        break;
    }

    p.parse_newline();

    Some(
        StoryNode::ListDeclaration(
            ListDeclaration { identifier, items, location: p.current_source_location() },
        ),
    )
}


/// The items of a list always come to an end.
pub proof fn lemma_list_items_total(pv: ParserView, items: Seq<ListItemDeclarationView>, next: int)
    ensures
        list_items_loop(pv, items, next) is Some,
    decreases pv.rem(),
{
    let (p1, _) = pv.parse_whitespace();
    if !(p1.at_end() || p1.peek() == Some('\n') || p1.peek() == Some('\r') || p1.peek() == Some(')')
        || p1.peek() == Some('}')) {
        let (p2, name) = p1.parse_identifier();
        match name {
            None => {},
            Some(n) => {
                let (p3, _) = p2.parse_whitespace();
                let (p4, colon) = p3.parse_string(":"@);
                let (p6, explicit) = if colon {
                    let (p5, _) = p4.parse_whitespace();
                    let (p6, val) = p5.parse_int();
                    match val {
                        Some(x) => (p6, Some(x as i32)),
                        None => (p6, None),
                    }
                } else {
                    (p4, None)
                };
                let current: i32 = match explicit {
                    Some(t) => vstd::wrapping::i32_specs::wrapping_add(t, 1),
                    None => next as i32,
                };
                let item = ListItemDeclarationView {
                    name: IdentifierView { name: n, location: p6.location() },
                    value: match explicit {
                        Some(t) => Some(t),
                        None => Some(current),
                    },
                };
                let after = vstd::wrapping::i32_specs::wrapping_add(current, 1) as int;
                let (p7, _) = p6.parse_whitespace();
                let (p8, comma) = p7.parse_string(","@);
                if comma {
                    let (p9, _) = p8.parse_whitespace();
                    if p9.rem() < pv.rem() {
                        lemma_list_items_total(p9, items.push(item), after);
                    }
                }
            },
        }
    }
}

/// A `LIST` declaration always comes to an end.
pub proof fn lemma_list_declaration_total(pv: ParserView)
    ensures
        parse_list_declaration_spec(pv) is Some,
{
    reveal(parse_list_declaration_spec);
    assert forall|q: ParserView| #[trigger] list_items_loop(q, Seq::empty(), 1) is Some by {
        lemma_list_items_total(q, Seq::empty(), 1);
    }
}

} // verus!
