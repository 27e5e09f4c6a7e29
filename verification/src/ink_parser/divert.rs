//! Diverts, tunnels and threads: `-> target`, `-> tunnel ->`, `->->`,
//! `<- thread`.

use vstd::prelude::*;
use crate::ink_parser::ir::{Divert, DivertTarget, DivertTargetView, DivertView, Expression, ExpressionView, InkPath, InkPathView, PathComponent, PathComponentView, SourceLocationView, StoryNode, StoryNodeView, exprs_view, opt_node_view, opt_view, seq_view};
use crate::ink_parser::parser::{opt_chars, Parser, ParserView};

verus! {

/// Arrows `->` read one after another, and how many.
pub open spec fn arrows_loop(pv: ParserView, n: nat) -> (ParserView, nat)
    decreases pv.rem(),
{
    let (p1, ok) = pv.parse_string("->"@);
    if ok && p1.rem() < pv.rem() {
        arrows_loop(p1, n + 1)
    } else if ok {
        (p1, n + 1)
    } else {
        (p1, n)
    }
}

/// One arrow gives `->`, two give `->->`; more report an error and count as
/// `->->`; none gives nothing.
#[verifier::opaque]
pub open spec fn parse_arrow_spec(pv: ParserView) -> (ParserView, Option<Seq<char>>) {
    let (p1, n) = arrows_loop(pv, 0);
    if n == 0 {
        (p1, None)
    } else if n == 1 {
        (p1, Some("->"@))
    } else if n == 2 {
        (p1, Some("->->"@))
    } else {
        (
            p1.error("Unexpected number of arrows in divert. Should only have '->' or '->->'"@),
            Some("->->"@),
        )
    }
}

/// After the first name: `.` followed by a name or `^`, repeatedly. A `.`
/// followed by neither reports an error and ends the path.
pub open spec fn path_loop(pv: ParserView, comps: Seq<PathComponentView>) -> (
    ParserView,
    Seq<PathComponentView>,
)
    decreases pv.rem(),
{
    let (p1, dot) = pv.parse_string("."@);
    if !dot {
        (p1, comps)
    } else {
        let (p2, name) = p1.parse_identifier();
        match name {
            Some(n) => if p2.rem() < pv.rem() {
                path_loop(p2, comps.push(PathComponentView::Name(n)))
            } else {
                (p2, comps.push(PathComponentView::Name(n)))
            },
            None => {
                let (p3, caret) = p2.parse_string("^"@);
                if caret {
                    if p3.rem() < pv.rem() {
                        path_loop(p3, comps.push(PathComponentView::Parent))
                    } else {
                        (p3, comps.push(PathComponentView::Parent))
                    }
                } else {
                    (p3.error("Expected identifier or ^ after '.' in path"@), comps)
                }
            },
        }
    }
}

#[verifier::opaque]
pub open spec fn parse_dot_separated_path_spec(pv: ParserView) -> (
    ParserView,
    Option<Seq<PathComponentView>>,
) {
    let (p1, first) = pv.parse_identifier();
    match first {
        None => (p1, None),
        Some(f) => {
            let (p2, comps) = path_loop(p1, seq![PathComponentView::Name(f)]);
            (p2, Some(comps))
        },
    }
}

/// Characters up to the `)` that closes the open parentheses (not consuming
/// it), or the end of the input.
pub open spec fn paren_skip(pv: ParserView, depth: nat) -> ParserView
    decreases pv.rem(),
{
    if pv.at_end() || depth == 0 {
        pv
    } else {
        let ch = pv.input[pv.pos as int];
        let d = if ch == '(' {
            depth + 1
        } else if ch == ')' {
            (depth - 1) as nat
        } else {
            depth
        };
        if d > 0 {
            paren_skip(pv.advance(1), d)
        } else {
            pv
        }
    }
}

/// `(`, everything up to the matching `)`, and that `)`. The arguments are
/// skipped, not parsed: the result is an empty list.
#[verifier::opaque]
pub open spec fn parse_call_arguments_spec(pv: ParserView) -> (ParserView, Option<Seq<ExpressionView>>) {
    let (p1, open) = pv.parse_string("("@);
    if !open {
        (p1, None)
    } else {
        let p2 = paren_skip(p1, 1);
        let (p3, _) = p2.parse_string(")"@);
        (p3, Some(Seq::empty()))
    }
}

/// Whitespace, a dotted path, whitespace and optional call arguments: a
/// plain divert to the path, located just after the path.
#[verifier::opaque]
pub open spec fn parse_divert_target_spec(pv: ParserView) -> (ParserView, Option<DivertView>) {
    let (p1, _) = pv.parse_whitespace();
    let (p2, comps) = parse_dot_separated_path_spec(p1);
    match comps {
        None => (p2, None),
        Some(cs) => {
            let loc = p2.location();
            let (p3, _) = p2.parse_whitespace();
            let (p4, args) = parse_call_arguments_spec(p3);
            (
                p4,
                Some(
                    DivertView {
                        target: DivertTargetView::Path(InkPathView { components: cs }),
                        is_tunnel: false,
                        is_thread: false,
                        is_conditional: false,
                        arguments: match args {
                            Some(a) => a,
                            None => Seq::empty(),
                        },
                        is_empty: false,
                        location: loc,
                    },
                ),
            )
        },
    }
}

/// Whitespace, `<-`, whitespace and a divert target: a thread.
#[verifier::opaque]
pub open spec fn parse_start_thread_spec(pv: ParserView) -> (ParserView, Option<StoryNodeView>) {
    let (p1, _) = pv.parse_whitespace();
    let (p2, ok) = p1.parse_string("<-"@);
    if !ok {
        (p2, None)
    } else {
        let (p3, _) = p2.parse_whitespace();
        let (p4, d) = parse_divert_target_spec(p3);
        match d {
            None => (p4, None),
            Some(dv) => (p4, Some(StoryNodeView::Divert(DivertView { is_thread: true, ..dv }))),
        }
    }
}

/// Targets and arrows alternating after the first arrow: each target is
/// attached to the arrow before it.
pub open spec fn arrows_targets_loop(pv: ParserView, acc: Seq<(Seq<char>, Option<DivertView>)>) -> (
    ParserView,
    Seq<(Seq<char>, Option<DivertView>)>,
)
    decreases pv.rem(),
{
    let (p1, d) = parse_divert_target_spec(pv);
    match d {
        None => (p1, acc),
        Some(dv) => {
            let acc2 = acc.update(acc.len() - 1, (acc.last().0, Some(dv)));
            let (p2, a) = parse_arrow_spec(p1);
            match a {
                None => (p2, acc2),
                Some(arrow) => if p2.rem() < pv.rem() {
                    arrows_targets_loop(p2, acc2.push((arrow, None)))
                } else {
                    (p2, acc2.push((arrow, None)))
                },
            }
        },
    }
}

/// The divert standing for `->->` (a tunnel return).
pub open spec fn tunnel_onwards_view(loc: SourceLocationView) -> DivertView {
    DivertView {
        target: DivertTargetView::Path(
            InkPathView { components: seq![PathComponentView::Name("->->"@)] },
        ),
        is_tunnel: false,
        is_thread: false,
        is_conditional: false,
        arguments: Seq::empty(),
        is_empty: false,
        location: loc,
    }
}

/// The first divert produced from the arrows and targets, from index `i`
/// on: a `->->` gives a tunnel return; a target gives its divert, a tunnel
/// call unless it is the last.
pub open spec fn first_divert_from(
    arrows: Seq<(Seq<char>, Option<DivertView>)>,
    i: int,
    loc: SourceLocationView,
) -> Option<DivertView>
    decreases arrows.len() - i,
{
    if i < 0 || i >= arrows.len() {
        None
    } else if arrows[i].0 == "->->"@ {
        Some(tunnel_onwards_view(loc))
    } else {
        match arrows[i].1 {
            Some(d) => Some(DivertView { is_tunnel: i < arrows.len() - 1, ..d }),
            None => first_divert_from(arrows, i + 1, loc),
        }
    }
}

/// A thread, or arrows and targets. Of the diverts they make only the
/// first is returned; a lone `->` with no target is an empty divert (used
/// for fallback choices).
#[verifier::opaque]
pub open spec fn parse_multi_divert_spec(pv: ParserView) -> (ParserView, Option<StoryNodeView>) {
    let loc = pv.location();
    let (p1, th) = parse_start_thread_spec(pv);
    if th is Some {
        (p1, th)
    } else {
        let (p2, first) = parse_arrow_spec(p1);
        match first {
            None => (p2, None),
            Some(a) => {
                let (p3, arrows) = arrows_targets_loop(p2, seq![(a, None::<DivertView>)]);
                (p3, multi_divert_result(arrows, loc))
            },
        }
    }
}

/// The node made from the arrows and targets: the first divert they
/// produce, or for a lone `->` the empty divert.
pub open spec fn multi_divert_result(
    arrows: Seq<(Seq<char>, Option<DivertView>)>,
    loc: SourceLocationView,
) -> Option<StoryNodeView> {
    match first_divert_from(arrows, 0, loc) {
        Some(d) => Some(StoryNodeView::Divert(d)),
        None => if arrows.len() == 1 && arrows[0].0 == "->"@ {
            Some(
                StoryNodeView::Divert(
                    DivertView {
                        target: DivertTargetView::Path(InkPathView { components: Seq::empty() }),
                        is_tunnel: false,
                        is_thread: false,
                        is_conditional: false,
                        arguments: Seq::empty(),
                        is_empty: true,
                        location: loc,
                    },
                ),
            )
        } else {
            None
        },
    }
}

/// A multi-divert, kept only when it is a plain divert (not a tunnel, a
/// thread or an empty divert).
#[verifier::opaque]
pub open spec fn parse_single_divert_spec(pv: ParserView) -> (ParserView, Option<StoryNodeView>) {
    let (p1, n) = parse_multi_divert_spec(pv);
    match n {
        Some(StoryNodeView::Divert(d)) => if d.is_tunnel || d.is_thread || d.is_empty {
            (p1, None)
        } else {
            (p1, n)
        },
        _ => (p1, n),
    }
}

/// Parse diverts, tunnels, and threads
/// Supports: -> target, -> tunnel ->, ->->, <- thread
pub fn parse_multi_divert(p: &mut Parser) -> (r: Option<StoryNode>)
    requires
        old(p).wf(),
    ensures
        final(p).wf(),
        final(p)@.same_source(old(p)@),
        (final(p)@, opt_node_view(r)) == parse_multi_divert_spec(old(p)@),
        old(p)@.pos <= final(p)@.pos,
        r is Some ==> old(p)@.pos < final(p)@.pos,
{
    proof {
        reveal(parse_multi_divert_spec);
    }
    let loc = p.current_source_location();

    // Try thread first
    if let Some(node) = parse_start_thread(p) {
        return Some(node);
    }
    let ghost p1 = p@;
    assert((p1, None::<StoryNodeView>) == parse_start_thread_spec(old(p)@));
    // Parse arrows and divert targets

    let first_arrow = match parse_divert_arrow_or_tunnel_onwards(p) {
        Some(a) => a,
        None => return None,
    };
    let ghost p2 = p@;
    let ghost first_view = first_arrow@;
    assert((p2, Some(first_view)) == parse_arrow_spec(p1));
    let mut arrows_and_targets: Vec<(String, Option<Divert>)> = Vec::new();
    arrows_and_targets.push((first_arrow, None));
    proof {
        assert(pairs_view(arrows_and_targets@) =~= seq![(first_view, None::<DivertView>)]);
    }

    // Interleave arrows and targets
    loop
        invariant_except_break
            arrows_targets_loop(p@, pairs_view(arrows_and_targets@)) == arrows_targets_loop(
                p2,
                seq![(first_view, None::<DivertView>)],
            ),
        invariant
            p.wf(),
            p@.same_source(old(p)@),
            old(p)@.pos < p2.pos <= p@.pos,
            arrows_and_targets@.len() > 0,
        ensures
            (p@, pairs_view(arrows_and_targets@)) == arrows_targets_loop(
                p2,
                seq![(first_view, None::<DivertView>)],
            ),
            arrows_and_targets@.len() > 0,
        decreases p@.input.len() - p@.pos,
    {
        let ghost start = p@;
        let ghost acc = pairs_view(arrows_and_targets@);
        proof {
            p.lemma_wf();
        }
        // Try to parse a divert identifier
        match parse_divert_identifier_with_arguments(p) {
            Some(divert) => {
                // Attach to last arrow
                let last_index = arrows_and_targets.len() - 1;
                let (arrow, _) = arrows_and_targets.remove(last_index);
                arrows_and_targets.push((arrow, Some(divert)));
                proof {
                    assert(pairs_view(arrows_and_targets@) =~= acc.update(
                        acc.len() - 1,
                        (acc.last().0, Some(divert@)),
                    ));
                }
            },
            None => {
                break;
            },
        }
        // Try another arrow
        let ghost acc2 = pairs_view(arrows_and_targets@);
        match parse_divert_arrow_or_tunnel_onwards(p) {
            Some(arrow) => {
                arrows_and_targets.push((arrow, None));
                proof {
                    p.lemma_wf();
                    assert(pairs_view(arrows_and_targets@) =~= acc2.push(
                        (pairs_view(arrows_and_targets@).last().0, None::<DivertView>),
                    ));
                }
            },
            None => {
                break;
            },
        }
    }

    // Build result from arrows and targets: the first divert they produce
    let ghost all = pairs_view(arrows_and_targets@);
    let n = arrows_and_targets.len();
    let only_plain_arrow = n == 1 && crate::text::str_equal(arrows_and_targets[0].0.as_str(), "->");
    let ghost pend = p@;
    assert(parse_multi_divert_spec(old(p)@) == (pend, multi_divert_result(all, loc@)));
    let mut i: usize = 0;
    while i < n
        invariant
            parse_multi_divert_spec(old(p)@) == (pend, multi_divert_result(all, loc@)),
            only_plain_arrow == (all.len() == 1 && all[0].0 == "->"@),
            p.wf(),
            p@ == pend,
            pend.same_source(old(p)@),
            old(p)@.pos < pend.pos,
            n == all.len(),
            i <= n,
            arrows_and_targets@.len() == n - i,
            pairs_view(arrows_and_targets@) == all.skip(i as int),
            first_divert_from(all, 0, loc@) == first_divert_from(all, i as int, loc@),
            loc@ == old(p)@.location(),
        decreases n - i,
    {
        let ghost before = arrows_and_targets@;
        proof {
            assert(pairs_view(before)[0] == (before[0].0@, opt_view(before[0].1)));
        }
        let (arrow, target) = arrows_and_targets.remove(0);
        proof {
            assert(arrow@ == all[i as int].0);
            assert(opt_view(target) == all[i as int].1);
            assert(pairs_view(arrows_and_targets@) =~= pairs_view(before).drop_first());
        }
        if crate::text::str_equal(arrow.as_str(), "->->") {
            // Tunnel onwards
            let mut names: Vec<String> = Vec::new();
            names.push(String::from_str("->->"));
            let path = InkPath::from_names(names);
            proof {
                assert(path@.components =~= seq![PathComponentView::Name("->->"@)]);
            }
            let d = Divert {
                target: DivertTarget::Path(path),
                is_tunnel: false,
                is_thread: false,
                is_conditional: false,
                arguments: Vec::new(),
                is_empty: false,
                location: loc,
            };
            proof {
                assert(exprs_view(d.arguments@) =~= Seq::empty());
                assert(d@.target == tunnel_onwards_view(loc@).target);
            }
            return Some(StoryNode::Divert(d));
        }
        if let Some(div) = target {
            let is_tunnel = i < n - 1;
            let mut d = div;
            d.is_tunnel = is_tunnel;
            return Some(StoryNode::Divert(d));
        }
        i = i + 1;
        proof {
            assert(all.skip(i as int) =~= all.skip(i - 1).drop_first());
        }
    }

    // Single empty -> (for default choices)
    if only_plain_arrow {
        let path = InkPath::from_names(Vec::new());
        proof {
            assert(path@.components =~= Seq::<PathComponentView>::empty());
        }
        let d = Divert {
            target: DivertTarget::Path(path),
            is_tunnel: false,
            is_thread: false,
            is_conditional: false,
            arguments: Vec::new(),
            is_empty: true,
            location: loc,
        };
        proof {
            assert(exprs_view(d.arguments@) =~= Seq::empty());
            assert(d@.target == DivertTargetView::Path(InkPathView { components: Seq::empty() }));
        }
        return Some(StoryNode::Divert(d));
    }
    None
}

/// The arrows and targets, viewed.
pub open spec fn pairs_view(s: Seq<(String, Option<Divert>)>) -> Seq<(Seq<char>, Option<DivertView>)> {
    s.map_values(|x: (String, Option<Divert>)| (x.0@, opt_view(x.1)))
}

fn parse_start_thread(p: &mut Parser) -> (r: Option<StoryNode>)
    requires
        old(p).wf(),
    ensures
        final(p).wf(),
        final(p)@.same_source(old(p)@),
        (final(p)@, opt_node_view(r)) == parse_start_thread_spec(old(p)@),
        old(p)@.pos <= final(p)@.pos,
        r is Some ==> old(p)@.pos < final(p)@.pos,
{
    proof {
        reveal(parse_start_thread_spec);
    }
    p.parse_whitespace();
    if p.parse_string("<-").is_none() {
        return None;
    }
    p.parse_whitespace();

    let divert = match parse_divert_identifier_with_arguments(p) {
        Some(d) => d,
        None => return None,
    };
    let mut thread_divert = divert;
    thread_divert.is_thread = true;

    Some(StoryNode::Divert(thread_divert))
}

fn parse_divert_identifier_with_arguments(p: &mut Parser) -> (r: Option<Divert>)
    requires
        old(p).wf(),
    ensures
        final(p).wf(),
        final(p)@.same_source(old(p)@),
        (final(p)@, opt_view(r)) == parse_divert_target_spec(old(p)@),
        old(p)@.pos <= final(p)@.pos,
        r is Some ==> old(p)@.pos < final(p)@.pos,
{
    proof {
        reveal(parse_divert_target_spec);
    }
    p.parse_whitespace();

    let components = match parse_dot_separated_path(p) {
        Some(c) => c,
        None => return None,
    };
    let loc = p.current_source_location();

    p.parse_whitespace();

    // Optional function call arguments
    let arguments = match parse_expression_function_call_arguments(p) {
        Some(a) => a,
        None => Vec::new(),
    };
    proof {
        if exprs_view(arguments@).len() == 0 {
            assert(exprs_view(arguments@) =~= Seq::empty());
        }
    }

    let target_path = InkPath { components };

    Some(Divert {
        target: DivertTarget::Path(target_path),
        is_tunnel: false,
        is_thread: false,
        is_conditional: false,
        arguments,
        is_empty: false,
        location: loc,
    })
}

fn parse_dot_separated_path(p: &mut Parser) -> (r: Option<Vec<PathComponent>>)
    requires
        old(p).wf(),
    ensures
        final(p).wf(),
        final(p)@.same_source(old(p)@),
        (final(p)@, match r {
            Some(v) => Some(seq_view(v@)),
            None => None,
        }) == parse_dot_separated_path_spec(old(p)@),
        old(p)@.pos <= final(p)@.pos,
        r is Some ==> old(p)@.pos < final(p)@.pos,
{
    proof {
        reveal(parse_dot_separated_path_spec);
    }
    let first = match p.parse_identifier() {
        Some(f) => f,
        None => return None,
    };
    let mut components: Vec<PathComponent> = Vec::new();
    components.push(PathComponent::Name(first));
    let ghost p1 = p@;
    let ghost init = seq_view(components@);
    proof {
        assert(init =~= seq![components@[0]@]);
    }

    loop
        invariant_except_break
            path_loop(p@, seq_view(components@)) == path_loop(p1, init),
        invariant
            p.wf(),
            p@.same_source(old(p)@),
            old(p)@.pos < p1.pos <= p@.pos,
        ensures
            (p@, seq_view(components@)) == path_loop(p1, init),
        decreases p@.input.len() - p@.pos,
    {
        let ghost start = p@;
        let ghost acc = seq_view(components@);
        proof {
            p.lemma_wf();
            reveal_strlit(".");
            reveal_strlit("^");
        }
        if p.parse_string(".").is_none() {
            break;
        }
        // Try identifier
        match p.parse_identifier() {
            Some(name) => {
                components.push(PathComponent::Name(name));
                proof {
                    p.lemma_wf();
                    assert(seq_view(components@) =~= acc.push(components@.last()@));
                }
            },
            None => {
                // Could be parent (^)
                if p.parse_string("^").is_some() {
                    components.push(PathComponent::Parent);
                    proof {
                        p.lemma_wf();
                        assert(seq_view(components@) =~= acc.push(PathComponentView::Parent));
                    }
                } else {
                    p.error("Expected identifier or ^ after '.' in path");
                    break;
                }
            },
        }
    }

    Some(components)
}

fn parse_expression_function_call_arguments(p: &mut Parser) -> (r: Option<Vec<Expression>>)
    requires
        old(p).wf(),
    ensures
        final(p).wf(),
        final(p)@.same_source(old(p)@),
        (final(p)@, match r {
            Some(v) => Some(exprs_view(v@)),
            None => None,
        }) == parse_call_arguments_spec(old(p)@),
        old(p)@.pos <= final(p)@.pos,
{
    proof {
        reveal(parse_call_arguments_spec);
        reveal_strlit("(");
        p.lemma_wf();
    }
    if p.parse_string("(").is_none() {
        return None;
    }
    let ghost p1 = p@;
    // The arguments are skipped up to the closing paren
    let mut depth: usize = 1;
    while !p.is_end() && depth > 0
        invariant
            p.wf(),
            p@.same_source(old(p)@),
            p1.pos <= p@.pos,
            depth <= p@.pos - p1.pos + 1,
            paren_skip(p@, depth as nat) == paren_skip(p1, 1),
        decreases p@.input.len() - p@.pos, depth,
    {
        proof {
            p.lemma_wf();
        }
        if p.peek() == Some('(') {
            depth = depth + 1;
        } else if p.peek() == Some(')') {
            depth = depth - 1;
        }
        if depth > 0 {
            p.advance(1);
        }
    }
    p.parse_string(")");
    let r: Vec<Expression> = Vec::new();
    proof {
        assert(exprs_view(r@) =~= Seq::empty());
    }
    Some(r)
}

fn parse_divert_arrow_or_tunnel_onwards(p: &mut Parser) -> (r: Option<String>)
    requires
        old(p).wf(),
    ensures
        final(p).wf(),
        final(p)@.same_source(old(p)@),
        (final(p)@, opt_chars(r)) == parse_arrow_spec(old(p)@),
        old(p)@.pos <= final(p)@.pos,
        r is Some ==> old(p)@.pos < final(p)@.pos,
{
    proof {
        reveal(parse_arrow_spec);
    }
    let mut num_arrows: usize = 0;
    loop
        invariant_except_break
            arrows_loop(p@, num_arrows as nat) == arrows_loop(old(p)@, 0),
        invariant
            p.wf(),
            p@.same_source(old(p)@),
            old(p)@.pos + 2 * num_arrows == p@.pos,
        ensures
            (p@, num_arrows as nat) == arrows_loop(old(p)@, 0),
            old(p)@.pos + 2 * num_arrows == p@.pos,
        decreases p@.input.len() - p@.pos,
    {
        proof {
            p.lemma_wf();
            reveal_strlit("->");
        }
        if p.parse_string("->").is_none() {
            break;
        }
        num_arrows = num_arrows + 1;
    }
    if num_arrows == 0 {
        None
    } else if num_arrows == 1 {
        Some(String::from_str("->"))
    } else if num_arrows == 2 {
        Some(String::from_str("->->"))
    } else {
        p.error("Unexpected number of arrows in divert. Should only have '->' or '->->'");
        Some(String::from_str("->->"))
    }
}

/// Parse a single simple divert (used at end of content lines)
pub fn parse_single_divert(p: &mut Parser) -> (r: Option<StoryNode>)
    requires
        old(p).wf(),
    ensures
        final(p).wf(),
        final(p)@.same_source(old(p)@),
        (final(p)@, opt_node_view(r)) == parse_single_divert_spec(old(p)@),
        old(p)@.pos <= final(p)@.pos,
        r is Some ==> old(p)@.pos < final(p)@.pos,
{
    proof {
        reveal(parse_single_divert_spec);
    }
    let node = match parse_multi_divert(p) {
        Some(n) => n,
        None => return None,
    };

    // Only return if it's a simple single divert (not tunnel, not multi)
    if let StoryNode::Divert(ref d) = node {
        if d.is_tunnel || d.is_thread || d.is_empty {
            return None;
        }
    }
    Some(node)
}

} // verus!
