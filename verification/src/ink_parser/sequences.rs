//! Sequences: `{! a | b }` cycle, `{~ a | b }` shuffle, `{& a | b }` once,
//! `{ a | b }` stopping.

use vstd::prelude::*;
use crate::ink_parser::ir::{
    ContentItem, ContentItemView, ContentList, ContentListView, Sequence, SequenceElement,
    SequenceElementView, SequenceType, SequenceView, StoryNode, StoryNodeView, Text, TextView,
    opt_node_view, opt_view, seq_view,
};
use crate::ink_parser::parser::{Parser, ParserView};
use crate::text::starts_with_at;

verus! {

/// The characters that end a run of text inside a sequence.
pub open spec fn is_sequence_text_stop(c: char) -> bool {
    c == '{' || c == '}' || c == '|' || c == '\n' || c == '\r' || c == '#' || c == '['
}

/// Text inside a sequence element, with `\` escapes, up to a special
/// character, a divert arrow or glue.
pub open spec fn sequence_text_loop(pv: ParserView, acc: Seq<char>) -> (ParserView, Seq<char>)
    decreases pv.rem(),
{
    if pv.at_end() {
        (pv, acc)
    } else {
        let ch = pv.input[pv.pos as int];
        if is_sequence_text_stop(ch) {
            (pv, acc)
        } else if ch == '\\' {
            let (p2, e) = pv.advance(1).parse_single_character();
            let acc2 = match e {
                Some(c) => acc.push(c),
                None => acc,
            };
            if p2.rem() < pv.rem() {
                sequence_text_loop(p2, acc2)
            } else {
                (p2, acc2)
            }
        } else if (ch == '-' || ch == '<') && (pv.starts_with("->"@) || pv.starts_with("<>"@)) {
            (pv, acc)
        } else {
            sequence_text_loop(pv.advance(1), acc.push(ch))
        }
    }
}

#[verifier::opaque]
pub open spec fn parse_sequence_text_spec(pv: ParserView) -> (ParserView, Option<TextView>) {
    let (p1, text) = sequence_text_loop(pv, Seq::empty());
    if text.len() == 0 {
        (p1, None)
    } else {
        (p1, Some(TextView { text, location: pv.location() }))
    }
}

/// Texts (each possibly followed by glue) up to the end of the line, `|`
/// or `}`; a point where no text can be read gives no element at all.
pub open spec fn element_items_loop(pv: ParserView, items: Seq<ContentItemView>) -> (
    ParserView,
    Option<Seq<ContentItemView>>,
)
    decreases pv.rem(),
{
    if pv.at_end() || pv.peek() == Some('\n') || pv.peek() == Some('\r') || pv.peek() == Some('|')
        || pv.peek() == Some('}') {
        (pv, Some(items))
    } else {
        let (p1, _) = pv.parse_whitespace();
        let (p2, t) = parse_sequence_text_spec(p1);
        match t {
            None => (p2, None),
            Some(text) => {
                let items2 = items.push(ContentItemView::Text(text));
                let (p3, items3) = if p2.starts_with("<>"@) {
                    (p2.advance(2), items2.push(ContentItemView::Glue))
                } else {
                    (p2, items2)
                };
                if p3.rem() < pv.rem() {
                    element_items_loop(p3, items3)
                } else {
                    (p3, Some(items3))
                }
            },
        }
    }
}

#[verifier::opaque]
pub open spec fn parse_sequence_element_spec(pv: ParserView) -> (ParserView, Option<SequenceElementView>) {
    let loc = pv.location();
    let (p1, items) = element_items_loop(pv, Seq::empty());
    match items {
        None => (p1, None),
        Some(its) => (
            p1,
            Some(
                SequenceElementView {
                    content: ContentListView { items: its, location: loc },
                    condition: None,
                },
            ),
        ),
    }
}

/// Elements separated by `|` up to `}`; an element that cannot be read
/// gives no sequence.
pub open spec fn elements_loop(pv: ParserView, elements: Seq<SequenceElementView>) -> (
    ParserView,
    Option<Seq<SequenceElementView>>,
)
    decreases pv.rem(),
{
    let (p1, _) = pv.parse_whitespace();
    if p1.peek() == Some('}') {
        (p1.advance(1), Some(elements))
    } else {
        let (p2, e) = parse_sequence_element_spec(p1);
        match e {
            None => (p2, None),
            Some(el) => {
                let elements2 = elements.push(el);
                let (p3, _) = p2.parse_whitespace();
                if p3.peek() == Some('|') {
                    let p4 = p3.advance(1);
                    if p4.rem() < pv.rem() {
                        elements_loop(p4, elements2)
                    } else {
                        (p4, Some(elements2))
                    }
                } else if p3.peek() == Some('}') {
                    (p3.advance(1), Some(elements2))
                } else {
                    (p3, Some(elements2))
                }
            },
        }
    }
}

/// `{`, the sequence type marker (`!`, `~`, `&` or none), and the elements.
/// A sequence without elements reports an error and gives nothing.
#[verifier::opaque]
pub open spec fn parse_sequence_spec(pv: ParserView) -> (ParserView, Option<StoryNodeView>) {
    let loc = pv.location();
    let (p1, open) = pv.parse_string("{"@);
    if !open {
        (p1, None)
    } else {
        let (p2, cycle) = p1.parse_string("!"@);
        let (p3, shuffle) = if cycle {
            (p2, false)
        } else {
            p2.parse_string("~"@)
        };
        let (p4, once) = if cycle || shuffle {
            (p3, false)
        } else {
            p3.parse_string("&"@)
        };
        let t = if cycle {
            SequenceType::Cycle
        } else if shuffle {
            SequenceType::Shuffle
        } else if once {
            SequenceType::Once
        } else {
            SequenceType::Stopping
        };
        let (p5, elements) = elements_loop(p4, Seq::empty());
        match elements {
            None => (p5, None),
            Some(els) => if els.len() == 0 {
                (p5.error("Sequence requires at least one element"@), None)
            } else {
                (
                    p5,
                    Some(
                        StoryNodeView::Sequence(
                            SequenceView { elements: els, sequence_type: t, location: loc },
                        ),
                    ),
                )
            },
        }
    }
}

/// Parse a sequence: {! cycle | ~ shuffle | & once | stopping (default)}
/// Note: sequences are parsed when we see { at statement level.
/// The character after { determines the type:
///   {! -> cycle (repeats forever, cycling through elements)
///   {~ -> shuffle (random order)
///   {& -> once (each element shown once, then stops)
///   {  -> stopping (default, stop at last element)
pub fn parse_sequence(p: &mut Parser) -> (r: Option<StoryNode>)
    requires
        old(p).wf(),
    ensures
        final(p).wf(),
        final(p)@.same_source(old(p)@),
        (final(p)@, opt_node_view(r)) == parse_sequence_spec(old(p)@),
        r is Some ==> old(p)@.pos < final(p)@.pos,
{
    proof {
        reveal(parse_sequence_spec);
        reveal_strlit("{");
    }
    let loc = p.current_source_location();

    if p.parse_string("{").is_none() {
        return None;
    }
    // Determine sequence type

    let sequence_type = {
        if p.parse_string("!").is_some() {
            SequenceType::Cycle
        } else if p.parse_string("~").is_some() {
            SequenceType::Shuffle
        } else if p.parse_string("&").is_some() {
            SequenceType::Once
        } else {
            SequenceType::Stopping
        }
    };
    let ghost p4 = p@;

    // Parse elements separated by |
    let mut elements: Vec<SequenceElement> = Vec::new();
    assert(seq_view(elements@) =~= Seq::<SequenceElementView>::empty());

    loop
        invariant_except_break
            elements_loop(p@, seq_view(elements@)) == elements_loop(p4, Seq::empty()),
        invariant
            p.wf(),
            p@.same_source(old(p)@),
            old(p)@.pos < p4.pos <= p@.pos,
            parse_sequence_spec(old(p)@) == sequence_finish(
                elements_loop(p4, Seq::empty()),
                sequence_type,
                loc@,
            ),
        ensures
            elements_loop(p4, Seq::empty()) == (p@, Some(seq_view(elements@))),
        decreases p@.input.len() - p@.pos,
    {
        let ghost start = p@;
        let ghost acc = seq_view(elements@);
        proof {
            p.lemma_wf();
        }
        p.parse_whitespace();

        // Check for end
        if p.peek() == Some('}') {
            p.advance(1);
            break;
        }
        // Parse element content

        let element = match parse_sequence_element(p) {
            Some(e) => e,
            None => return None,
        };
        elements.push(element);
        proof {
            assert(seq_view(elements@) =~= acc.push(elements@.last()@));
        }

        p.parse_whitespace();

        // Check for pipe separator
        if p.peek() == Some('|') {
            p.advance(1);
            proof {
                p.lemma_wf();
            }
            continue;
        }
        // Check for closing brace

        if p.peek() == Some('}') {
            p.advance(1);
            break;
        }
        break;
    }

    if elements.len() == 0 {
        p.error("Sequence requires at least one element");
        return None;
    }
    Some(StoryNode::Sequence(Sequence { elements, sequence_type, location: loc }))
}

/// The sequence node made from the elements read.
pub open spec fn sequence_finish(
    elements: (ParserView, Option<Seq<SequenceElementView>>),
    t: SequenceType,
    loc: crate::ink_parser::ir::SourceLocationView,
) -> (ParserView, Option<StoryNodeView>) {
    match elements.1 {
        None => (elements.0, None),
        Some(els) => if els.len() == 0 {
            (elements.0.error("Sequence requires at least one element"@), None)
        } else {
            (
                elements.0,
                Some(
                    StoryNodeView::Sequence(
                        SequenceView { elements: els, sequence_type: t, location: loc },
                    ),
                ),
            )
        },
    }
}

/// Parse one element of a sequence
fn parse_sequence_element(p: &mut Parser) -> (r: Option<SequenceElement>)
    requires
        old(p).wf(),
    ensures
        final(p).wf(),
        final(p)@.same_source(old(p)@),
        (final(p)@, opt_view(r)) == parse_sequence_element_spec(old(p)@),
        old(p)@.pos <= final(p)@.pos,
{
    proof {
        reveal(parse_sequence_element_spec);
    }
    let loc = p.current_source_location();

    // Element conditions are not read: an element has none.
    let condition = None;

    // Parse content for this element
    let mut content_items: Vec<ContentItem> = Vec::new();
    assert(seq_view(content_items@) =~= Seq::<ContentItemView>::empty());

    loop
        invariant_except_break
            element_items_loop(p@, seq_view(content_items@)) == element_items_loop(
                old(p)@,
                Seq::empty(),
            ),
        invariant
            p.wf(),
            p@.same_source(old(p)@),
            old(p)@.pos <= p@.pos,
            parse_sequence_element_spec(old(p)@) == element_finish(
                element_items_loop(old(p)@, Seq::empty()),
                loc@,
            ),
        ensures
            element_items_loop(old(p)@, Seq::empty()) == (p@, Some(seq_view(content_items@))),
        decreases p@.input.len() - p@.pos,
    {
        let ghost start = p@;
        let ghost acc = seq_view(content_items@);
        proof {
            p.lemma_wf();
            reveal_strlit("<>");
        }
        if p.is_end() || p.peek() == Some('\n') || p.peek() == Some('\r') {
            break;
        }
        if p.peek() == Some('|') || p.peek() == Some('}') {
            break;
        }
        p.parse_whitespace();

        // Parse content text (no special processing for now)
        let text = match parse_sequence_text(p) {
            Some(t) => t,
            None => return None,
        };
        content_items.push(ContentItem::Text(text));
        proof {
            assert(seq_view(content_items@) =~= acc.push(content_items@.last()@));
        }
        let ghost acc2 = seq_view(content_items@);

        // Check for glue
        if p.peek_str("<>") {
            p.advance(2);
            content_items.push(ContentItem::Glue);
            proof {
                assert(seq_view(content_items@) =~= acc2.push(ContentItemView::Glue));
            }
        }
        proof {
            p.lemma_wf();
        }
    }

    if content_items.len() == 0 {
        assert(seq_view(content_items@) =~= Seq::<ContentItemView>::empty());
        // Return empty content list
        return Some(SequenceElement { content: ContentList::empty(loc), condition: None });
    }
    Some(SequenceElement { content: ContentList::from_items(content_items, loc), condition })
}

/// The element made from the items read.
pub open spec fn element_finish(
    items: (ParserView, Option<Seq<ContentItemView>>),
    loc: crate::ink_parser::ir::SourceLocationView,
) -> (ParserView, Option<SequenceElementView>) {
    match items.1 {
        None => (items.0, None),
        Some(its) => (
            items.0,
            Some(
                SequenceElementView {
                    content: ContentListView { items: its, location: loc },
                    condition: None,
                },
            ),
        ),
    }
}

/// Parse text content within a sequence element
fn parse_sequence_text(p: &mut Parser) -> (r: Option<Text>)
    requires
        old(p).wf(),
    ensures
        final(p).wf(),
        final(p)@.same_source(old(p)@),
        (final(p)@, opt_view(r)) == parse_sequence_text_spec(old(p)@),
        old(p)@.pos <= final(p)@.pos,
        r is Some ==> old(p)@.pos < final(p)@.pos,
{
    proof {
        reveal(parse_sequence_text_spec);
    }
    let loc = p.current_source_location();
    let mut result = String::new();
    assert(result@ =~= Seq::<char>::empty());

    loop
        invariant_except_break
            sequence_text_loop(p@, result@) == sequence_text_loop(old(p)@, Seq::empty()),
        invariant
            p.wf(),
            p@.same_source(old(p)@),
            old(p)@.pos <= p@.pos,
            result@.len() > 0 ==> old(p)@.pos < p@.pos,
        ensures
            (p@, result@) == sequence_text_loop(old(p)@, Seq::empty()),
            result@.len() > 0 ==> old(p)@.pos < p@.pos,
        decreases p@.input.len() - p@.pos,
    {
        proof {
            p.lemma_wf();
            reveal_strlit("->");
            reveal_strlit("<>");
        }
        if p.is_end() {
            break;
        }
        let ch = match p.peek() {
            Some(ch) => ch,
            None => break,
        };

        // Stop at special characters
        if ch == '{' || ch == '}' || ch == '|' || ch == '\n' || ch == '\r' || ch == '#' || ch == '[' {
            break;
        }
        // Handle escape

        if ch == '\\' {
            p.advance(1);
            if let Some(escaped) = p.parse_single_character() {
                result.push(escaped);
            }
            proof {
                p.lemma_wf();
            }
            continue;
        }
        // Check for divert or glue

        if ch == '-' || ch == '<' {
            if p.peek_str("->") || p.peek_str("<>") {
                break;
            }
        }
        result.push(ch);
        p.advance(1);
    }

    if result.as_str().is_empty() {
        None
    } else {
        Some(Text { text: result, location: loc })
    }
}

/// The kind of a sequence is fixed by the character after its brace: a
/// sequence read from `{!` cycles, from `{~` shuffles, from `{&` is shown
/// once, and from a brace followed by anything else (or nothing) stops at
/// its last element.
pub proof fn law_sequence_type_from_marker(pv: ParserView)
    ensures
        match parse_sequence_spec(pv).1 {
            Some(StoryNodeView::Sequence(s)) => {
                let i = pv.pos as int;
                let next_is = |c: char| i + 1 < pv.input.len() && pv.input[i + 1] == c;
                &&& i < pv.input.len() && pv.input[i] == '{'
                &&& (next_is('!') ==> s.sequence_type == SequenceType::Cycle)
                &&& (next_is('~') ==> s.sequence_type == SequenceType::Shuffle)
                &&& (next_is('&') ==> s.sequence_type == SequenceType::Once)
                &&& (!next_is('!') && !next_is('~') && !next_is('&') ==> s.sequence_type
                    == SequenceType::Stopping)
            },
            _ => true,
        },
{
    reveal(parse_sequence_spec);
    reveal_strlit("{");
    reveal_strlit("!");
    reveal_strlit("~");
    reveal_strlit("&");
    let i = pv.pos as int;
    let (p1, open) = pv.parse_string("{"@);
    if open {
        assert(pv.input.subrange(i, i + 1)[0] == pv.input[i]);
        assert(pv.input[i] == '{');
        assert(p1.pos == pv.pos + 1);
        let j = i + 1;
        let (p2, cycle) = p1.parse_string("!"@);
        let (p3, shuffle) = if cycle {
            (p2, false)
        } else {
            p1.parse_string("~"@)
        };
        let (p4, once) = if cycle || shuffle {
            (p3, false)
        } else {
            p3.parse_string("&"@)
        };
        assert("!"@ =~= seq!['!']);
        assert("~"@ =~= seq!['~']);
        assert("&"@ =~= seq!['&']);
        if cycle || shuffle || once {
            assert(pv.input.subrange(j, j + 1)[0] == pv.input[j]);
        }
        if cycle {
            assert(pv.input[j] == '!');
        }
        if shuffle {
            assert(pv.input[j] == '~');
        }
        if once {
            assert(pv.input[j] == '&');
        }
        if j < pv.input.len() {
            if pv.input[j] == '!' {
                assert(pv.input.subrange(j, j + 1) =~= seq!['!']);
                assert(cycle);
            }
            if pv.input[j] == '~' {
                assert(pv.input.subrange(j, j + 1) =~= seq!['~']);
                assert(cycle || shuffle);
            }
            if pv.input[j] == '&' {
                assert(pv.input.subrange(j, j + 1) =~= seq!['&']);
                assert(cycle || shuffle || once);
            }
        }
    }
}

} // verus!
