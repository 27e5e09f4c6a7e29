//! Tags: `#` and the rest of the line.

use vstd::prelude::*;
use crate::ink_parser::ir::{Tag, TagView, SourceLocationView, seq_view};
use crate::ink_parser::parser::{Parser, ParserView};

verus! {

/// `#`, whitespace and the rest of the line; the tag records where the `#` was.
#[verifier::opaque]
pub open spec fn parse_tag_spec(pv: ParserView) -> (ParserView, Option<TagView>) {
    let loc = pv.location();
    let (p1, ok) = pv.parse_string("#"@);
    if !ok {
        (p1, None)
    } else {
        let (p2, _) = p1.parse_whitespace();
        let (p3, _) = p2.parse_until_newline();
        (p3, Some(TagView { is_start: true, in_choice: false, location: loc }))
    }
}

/// The characters that end a tag's text: the next `#` or the end of the line.
pub open spec fn tag_stops() -> Seq<char> {
    seq!['#', '\n', '\r']
}

/// Repeatedly: whitespace, `#` and the tag's text up to the next `#` or the
/// end of the line, each giving a tag located where the whole run began; a
/// line gives one tag per `#`.
pub open spec fn tags_loop(pv: ParserView, loc: SourceLocationView, acc: Seq<TagView>) -> (
    ParserView,
    Seq<TagView>,
)
    decreases pv.rem(),
{
    let (p1, _) = pv.parse_whitespace();
    let (p2, ok) = p1.parse_string("#"@);
    if !ok {
        (p2, acc)
    } else {
        let (p3, _) = p2.parse_until_char(tag_stops());
        let acc2 = acc.push(TagView { is_start: true, in_choice: false, location: loc });
        if p3.rem() < pv.rem() {
            tags_loop(p3, loc, acc2)
        } else {
            (p3, acc2)
        }
    }
}

#[verifier::opaque]
pub open spec fn parse_tags_spec(pv: ParserView) -> (ParserView, Option<Seq<TagView>>) {
    let (p1, tags) = tags_loop(pv, pv.location(), Seq::empty());
    if tags.len() == 0 {
        (p1, None)
    } else {
        (p1, Some(tags))
    }
}

/// Parse a tag (# tag_name)
/// Tags can appear:
/// - On their own line (above a content line)
/// - At the end of a content line
/// - At the start of a knot declaration
/// For now, we parse tags that appear in content lines
pub fn parse_tag(p: &mut Parser) -> (r: Option<Tag>)
    requires
        old(p).wf(),
    ensures
        final(p).wf(),
        final(p)@.same_source(old(p)@),
        (final(p)@, crate::ink_parser::ir::opt_view(r)) == parse_tag_spec(old(p)@),
        r is Some ==> old(p)@.pos < final(p)@.pos,
{
    proof {
        reveal(parse_tag_spec);
        reveal_strlit("#");
    }
    let loc = p.current_source_location();

    if p.parse_string("#").is_none() {
        return None;
    }

    p.parse_whitespace();

    // Parse the rest of the line as the tag content
    proof {
        p.lemma_wf();
        crate::ink_parser::parser::lemma_until_newline_bounds(p@.input, p@.pos);
    }
    p.parse_until_newline();

    Some(Tag {
        is_start: true,  // Tags in content are treated as start tags
        in_choice: false,
        location: loc,
    })
}

/// Parse all tags at the current position (can be multiple # tags): one
/// tag for each `#`, its text ending at the next `#` or the end of the line.
pub fn parse_tags(p: &mut Parser) -> (r: Option<Vec<Tag>>)
    requires
        old(p).wf(),
    ensures
        final(p).wf(),
        final(p)@.same_source(old(p)@),
        (final(p)@, match r {
            Some(v) => Some(seq_view(v@)),
            None => None,
        }) == parse_tags_spec(old(p)@),
{
    proof {
        reveal(parse_tags_spec);
        reveal_strlit("#");
    }
    let mut tags: Vec<Tag> = Vec::new();
    let loc = p.current_source_location();
    assert(seq_view(tags@) =~= Seq::<TagView>::empty());

    loop
        invariant_except_break
            tags_loop(p@, loc@, seq_view(tags@)) == tags_loop(old(p)@, loc@, Seq::empty()),
        invariant
            p.wf(),
            p@.same_source(old(p)@),
            loc@ == old(p)@.location(),
        ensures
            (p@, seq_view(tags@)) == tags_loop(old(p)@, loc@, Seq::empty()),
        decreases p@.input.len() - p@.pos,
    {
        let ghost start = p@;
        let ghost acc = seq_view(tags@);
        proof {
            reveal_strlit("#");
            p.lemma_wf();
            crate::ink_parser::parser::lemma_ws_end_bounds(p@.input, p@.pos);
        }
        p.parse_whitespace();
        if p.parse_string("#").is_none() {
            break;
        }
        let stops: [char; 3] = ['#', '\n', '\r'];
        proof {
            p.lemma_wf();
            assert(stops@ =~= tag_stops());
        }
        p.parse_until_char(&stops);

        tags.push(Tag { is_start: true, in_choice: false, location: loc.clone() });
        proof {
            p.lemma_wf();
            assert(seq_view(tags@) =~= acc.push(TagView { is_start: true, in_choice: false, location: loc@ }));
            assert(p@.rem() < start.rem());
            assert(tags_loop(start, loc@, acc) == tags_loop(p@, loc@, seq_view(tags@)));
        }
    }

    if tags.len() == 0 {
        None
    } else {
        Some(tags)
    }
}

} // verus!
