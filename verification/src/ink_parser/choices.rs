//! Choices (`*` once-only, `+` sticky) and gathers (`-`).

use vstd::prelude::*;
use crate::ink_parser::content::{parse_line_of_mixed_text_and_logic, parse_line_spec};
use crate::ink_parser::ir::{Choice, ChoiceView, ContentList, ContentListView, Gather, GatherView, Identifier, IdentifierView, StoryNode, StoryNodeView, opt_node_view, opt_view};
use crate::ink_parser::parser::{Parser, ParserView};

verus! {

/// Repeatedly: whitespace and one bullet; the number of bullets read.
pub open spec fn bullets_loop(pv: ParserView, bullet: Seq<char>, n: nat) -> (ParserView, nat)
    decreases pv.rem(),
{
    let (p1, _) = pv.parse_whitespace();
    let (p2, ok) = p1.parse_string(bullet);
    if !ok {
        (p2, n)
    } else if p2.rem() < pv.rem() {
        bullets_loop(p2, bullet, n + 1)
    } else {
        (p2, n + 1)
    }
}

/// `(`, whitespace, an identifier (located just after it), whitespace and
/// `)`; a missing `)` is reported as an error.
#[verifier::opaque]
pub open spec fn parse_bracketed_name_spec(pv: ParserView) -> (ParserView, Option<IdentifierView>) {
    let (p1, open) = pv.parse_string("("@);
    if !open {
        (p1, None)
    } else {
        let (p2, _) = p1.parse_whitespace();
        let (p3, name) = p2.parse_identifier();
        match name {
            None => (p3, None),
            Some(n) => {
                let loc = p3.location();
                let (p4, _) = p3.parse_whitespace();
                let (p5, _) = p4.expect_string(")"@, "closing ')' for bracketed name"@);
                (p5, Some(IdentifierView { name: n, location: loc }))
            },
        }
    }
}

/// The part of a choice after its bullets.
pub open spec fn choice_after_bullets(
    p: ParserView,
    once_only: bool,
    depth: nat,
    loc: crate::ink_parser::ir::SourceLocationView,
) -> (ParserView, Option<StoryNodeView>) {
    let (p5, identifier) = parse_bracketed_name_spec(p);
    let (p6, _) = p5.parse_whitespace();
    let p7 = if identifier is Some {
        p6.parse_newline().0
    } else {
        p6
    };
    let (p8, _) = p7.parse_whitespace();
    let (p9, items) = parse_line_spec(p8);
    match items {
        None => (p9, None),
        Some(its) => {
            let start_content = Some(ContentListView { items: its, location: loc });
            let (p10, br) = p9.parse_string("["@);
            let empty = ContentListView { items: Seq::empty(), location: loc };
            let (p13, option_only, inner) = if br {
                let (p11, opt) = parse_line_spec(p10);
                let option_only = match opt {
                    Some(o) => Some(ContentListView { items: o, location: loc }),
                    None => None,
                };
                let (p12, _) = p11.expect_string("]"@, "closing ']' for weave-style option"@);
                let (p13, inner_items) = parse_line_spec(p12);
                let inner = match inner_items {
                    Some(i) => ContentListView { items: i, location: loc },
                    None => empty,
                };
                (p13, option_only, inner)
            } else {
                (p10, None, empty)
            };
            let (p14, _) = p13.parse_whitespace();
            let (p15, _) = p14.parse_newline();
            let empty_content = start_content is None && inner.items.len() == 0 && option_only is None;
            let p16 = if empty_content {
                p15.warning(
                    "Choice is completely empty. Interpreting as a default fallback choice. Add a divert arrow to remove this warning: * ->"@,
                )
            } else {
                p15
            };
            (
                p16,
                Some(
                    StoryNodeView::Choice(
                        ChoiceView {
                            start_content,
                            option_only_content: option_only,
                            inner_content: inner,
                            condition: None,
                            once_only,
                            is_invisible_default: empty_content,
                            indentation_depth: depth,
                            identifier,
                            has_brackets: br,
                            location: loc,
                        },
                    ),
                ),
            )
        },
    }
}

/// `*` bullets (once-only) or else `+` bullets (sticky), an optional
/// bracketed name (then an optional newline), the choice's line, and
/// optionally `[`, the option-only line, `]` and the inner line.
#[verifier::opaque]
pub open spec fn parse_choice_spec(pv: ParserView) -> (ParserView, Option<StoryNodeView>) {
    let loc = pv.location();
    let (p1, rule) = pv.begin_rule();
    let (p2, stars) = bullets_loop(p1, "*"@, 0);
    if stars > 0 {
        choice_after_bullets(p2.succeed_rule(), true, stars, loc)
    } else {
        let p3 = p2.fail_rule(rule);
        let (p4, pluses) = bullets_loop(p3, "+"@, 0);
        if pluses > 0 {
            choice_after_bullets(p4, false, pluses, loc)
        } else {
            (p4, None)
        }
    }
}

/// A `-` that does not begin a `->`; otherwise nothing is consumed.
#[verifier::opaque]
pub open spec fn parse_dash_not_arrow_spec(pv: ParserView) -> (ParserView, bool) {
    let (p1, rule) = pv.begin_rule();
    let (p2, arrow) = p1.parse_string("->"@);
    if !arrow {
        let (p3, c) = p2.parse_single_character();
        if c == Some('-') {
            (p3.succeed_rule(), true)
        } else {
            (p3.fail_rule(rule), false)
        }
    } else {
        (p2.fail_rule(rule), false)
    }
}

/// Repeatedly: a dash (not an arrow) and whitespace.
pub open spec fn dashes_loop(pv: ParserView, n: nat) -> (ParserView, nat)
    decreases pv.rem(),
{
    let (p1, dash) = parse_dash_not_arrow_spec(pv);
    if !dash {
        (p1, n)
    } else {
        let (p2, _) = p1.parse_whitespace();
        if p2.rem() < pv.rem() {
            dashes_loop(p2, n + 1)
        } else {
            (p2, n + 1)
        }
    }
}

#[verifier::opaque]
pub open spec fn count_gather_dashes_spec(pv: ParserView) -> (ParserView, Option<nat>) {
    let (p1, _) = pv.parse_whitespace();
    let (p2, n) = dashes_loop(p1, 0);
    if n > 0 {
        (p2, Some(n))
    } else {
        (p2, None)
    }
}

/// Dashes, an optional bracketed name and an optional newline.
#[verifier::opaque]
pub open spec fn parse_gather_spec(pv: ParserView) -> (ParserView, Option<StoryNodeView>) {
    let loc = pv.location();
    let (p1, depth) = count_gather_dashes_spec(pv);
    match depth {
        None => (p1, None),
        Some(d) => if d == 0 {
            (p1, None)
        } else {
            let (p2, identifier) = parse_bracketed_name_spec(p1);
            let (p3, _) = p2.parse_newline();
            (
                p3,
                Some(
                    StoryNodeView::Gather(
                        GatherView { identifier, depth: d, content: None, location: loc },
                    ),
                ),
            )
        },
    }
}

/// Parse a choice: * or + bullets
pub fn parse_choice_full(p: &mut Parser) -> (r: Option<StoryNode>)
    requires
        old(p).wf(),
    ensures
        final(p).wf(),
        final(p)@.same_source(old(p)@),
        (final(p)@, opt_node_view(r)) == parse_choice_spec(old(p)@),
        r is Some ==> old(p)@.pos < final(p)@.pos,
{
    proof {
        reveal(parse_choice_spec);
        reveal_strlit("*");
        reveal_strlit("+");
        p.lemma_wf();
    }
    let loc = p.current_source_location();

    // Determine bullet type and count
    let rule_id = p.begin_rule();
    let count = count_bullets(p, "*");
    let once_only;
    let indentation_depth;
    if count > 0 {
        p.succeed_rule(rule_id);
        assert(p@.rules =~= old(p)@.rules);
        once_only = true;
        indentation_depth = count;
    } else {
        p.fail_rule(rule_id);
        assert(p@.rules =~= old(p)@.rules);
        let count = count_bullets(p, "+");
        if count > 0 {
            once_only = false;
            indentation_depth = count;
        } else {
            return None;
        }
    }
    let ghost after_bullets = p@;
    assert(old(p)@.pos < after_bullets.pos);
    let r = parse_choice_rest(p, once_only, indentation_depth, loc);
    r
}

fn parse_choice_rest(p: &mut Parser, once_only: bool, indentation_depth: usize, loc: crate::ink_parser::ir::SourceLocation) -> (r: Option<StoryNode>)
    requires
        old(p).wf(),
    ensures
        final(p).wf(),
        final(p)@.same_source(old(p)@),
        (final(p)@, opt_node_view(r)) == choice_after_bullets(old(p)@, once_only, indentation_depth as nat, loc@),
        old(p)@.pos <= final(p)@.pos,
{
    // Optional bracketed name (name)
    let identifier = parse_bracketed_name(p);

    p.parse_whitespace();

    // Optional newline after name
    if identifier.is_some() {
        p.parse_newline();
    }
    // Choice conditions (`{expr}`) are not read: a choice has none.
    let condition = None;

    p.parse_whitespace();

    // Parse choice content
    let start_items = match parse_line_of_mixed_text_and_logic(p) {
        Some(items) => items,
        None => return None,
    };
    let start_content = Some(ContentList::from_items(start_items, loc.clone()));

    let mut option_only_content = None;
    let mut inner_content = ContentList::empty(loc.clone());
    let mut has_brackets = false;

    // Check for weave-style brackets [...]
    if p.parse_string("[").is_some() {
        has_brackets = true;

        // Parse option-only content (what the player sees)
        let opt_items = parse_line_of_mixed_text_and_logic(p);
        if let Some(items) = opt_items {
            option_only_content = Some(ContentList::from_items(items, loc.clone()));
        }
        p.expect_string("]", "closing ']' for weave-style option");

        // Parse inner content (what happens after choosing)
        let inner_items = parse_line_of_mixed_text_and_logic(p);
        if let Some(items) = inner_items {
            inner_content = ContentList::from_items(items, loc.clone());
        }
    }
    p.parse_whitespace();

    // Consume end of line
    p.parse_newline();

    let empty_content = start_content.is_none() && inner_content.items.len() == 0
        && option_only_content.is_none();
    if empty_content {
        p.warning(
            "Choice is completely empty. Interpreting as a default fallback choice. Add a divert arrow to remove this warning: * ->",
        );
    }
    Some(
        StoryNode::Choice(
            Choice {
                start_content,
                option_only_content,
                inner_content,
                condition,
                once_only,
                is_invisible_default: empty_content,
                indentation_depth,
                identifier,
                has_brackets,
                location: loc,
            },
        ),
    )
}

fn count_bullets(p: &mut Parser, bullet: &str) -> (r: usize)
    requires
        old(p).wf(),
        bullet@.len() > 0,
    ensures
        final(p).wf(),
        final(p)@.same_source(old(p)@),
        (final(p)@, r as nat) == bullets_loop(old(p)@, bullet@, 0),
        old(p)@.pos <= final(p)@.pos,
        r > 0 ==> old(p)@.pos < final(p)@.pos,
{
    let mut count: usize = 0;
    loop
        invariant_except_break
            bullets_loop(p@, bullet@, count as nat) == bullets_loop(old(p)@, bullet@, 0),
        invariant
            p.wf(),
            p@.same_source(old(p)@),
            bullet@.len() > 0,
            old(p)@.pos <= p@.pos,
            count <= p@.pos - old(p)@.pos,
        ensures
            (p@, count as nat) == bullets_loop(old(p)@, bullet@, 0),
            old(p)@.pos <= p@.pos,
            count <= p@.pos - old(p)@.pos,
        decreases p@.input.len() - p@.pos,
    {
        let ghost start = p@;
        proof {
            p.lemma_wf();
        }
        p.parse_whitespace();
        if p.parse_string(bullet).is_some() {
            count = count + 1;
        } else {
            break;
        }
        proof {
            p.lemma_wf();
        }
    }
    count
}

/// Parse a gather: - dashes
pub fn parse_gather(p: &mut Parser) -> (r: Option<StoryNode>)
    requires
        old(p).wf(),
    ensures
        final(p).wf(),
        final(p)@.same_source(old(p)@),
        (final(p)@, opt_node_view(r)) == parse_gather_spec(old(p)@),
        r is Some ==> old(p)@.pos < final(p)@.pos,
{
    proof {
        reveal(parse_gather_spec);
    }
    let loc = p.current_source_location();

    let depth = match count_gather_dashes(p) {
        Some(d) => d,
        None => return None,
    };
    if depth == 0 {
        return None;
    }
    // Optional bracketed name

    let identifier = parse_bracketed_name(p);

    // Optional newline before content
    p.parse_newline();

    Some(StoryNode::Gather(Gather { identifier, depth, content: None, location: loc }))
}

fn count_gather_dashes(p: &mut Parser) -> (r: Option<usize>)
    requires
        old(p).wf(),
    ensures
        final(p).wf(),
        final(p)@.same_source(old(p)@),
        (final(p)@, match r {
            Some(n) => Some(n as nat),
            None => None,
        }) == count_gather_dashes_spec(old(p)@),
        r is Some ==> old(p)@.pos < final(p)@.pos,
        old(p)@.pos <= final(p)@.pos,
{
    proof {
        reveal(count_gather_dashes_spec);
    }
    p.parse_whitespace();
    let ghost p1 = p@;
    let mut count: usize = 0;
    loop
        invariant_except_break
            dashes_loop(p@, count as nat) == dashes_loop(p1, 0),
        invariant
            p.wf(),
            p@.same_source(old(p)@),
            old(p)@.pos <= p1.pos <= p@.pos,
            count <= p@.pos - p1.pos,
        ensures
            (p@, count as nat) == dashes_loop(p1, 0),
            old(p)@.pos <= p1.pos <= p@.pos,
            count <= p@.pos - p1.pos,
        decreases p@.input.len() - p@.pos,
    {
        let ghost start = p@;
        proof {
            p.lemma_wf();
        }
        if !parse_dash_not_arrow(p) {
            break;
        }
        count = count + 1;
        p.parse_whitespace();
        proof {
            p.lemma_wf();
        }
    }
    if count > 0 {
        Some(count)
    } else {
        None
    }
}

/// Parse a dash that is NOT part of a divert arrow (->)
fn parse_dash_not_arrow(p: &mut Parser) -> (r: bool)
    requires
        old(p).wf(),
    ensures
        final(p).wf(),
        final(p)@.same_source(old(p)@),
        (final(p)@, r) == parse_dash_not_arrow_spec(old(p)@),
        r ==> final(p)@.pos == old(p)@.pos + 1,
        !r ==> final(p)@.pos == old(p)@.pos,
{
    proof {
        reveal(parse_dash_not_arrow_spec);
        p.lemma_wf();
    }
    let rule_id = p.begin_rule();
    if p.parse_string("->").is_none() && p.parse_single_character() == Some('-') {
        p.succeed_rule(rule_id);
        assert(p@.rules =~= old(p)@.rules);
        true
    } else {
        p.fail_rule(rule_id);
        assert(p@.rules =~= old(p)@.rules);
        false
    }
}

fn parse_bracketed_name(p: &mut Parser) -> (r: Option<Identifier>)
    requires
        old(p).wf(),
    ensures
        final(p).wf(),
        final(p)@.same_source(old(p)@),
        (final(p)@, opt_view(r)) == parse_bracketed_name_spec(old(p)@),
        old(p)@.pos <= final(p)@.pos,
{
    proof {
        reveal(parse_bracketed_name_spec);
    }
    if p.parse_string("(").is_none() {
        return None;
    }
    p.parse_whitespace();
    let name = match p.parse_identifier() {
        Some(n) => n,
        None => return None,
    };
    let loc = p.current_source_location();
    p.parse_whitespace();
    p.expect_string(")", "closing ')' for bracketed name");
    Some(Identifier { name, location: loc })
}

} // verus!
