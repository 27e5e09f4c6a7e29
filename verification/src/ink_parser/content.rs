//! Lines of text: plain text with escapes, glue (`<>`), and the text nodes
//! built from them.

use vstd::prelude::*;
use crate::ink_parser::ir::{ContentItem, ContentItemView, StoryNode, StoryNodeView, Text, TextView, opt_node_view, opt_view, seq_view};
use crate::ink_parser::parser::{Parser, ParserView};

verus! {

/// The characters that end a run of plain text.
pub open spec fn is_text_stop(c: char) -> bool {
    c == '{' || c == '}' || c == '#' || c == '\n' || c == '\r' || c == '|' || c == '[' || c == ']'
}

/// Plain text up to a special character, a divert arrow or glue; `\` takes
/// the next character literally.
pub open spec fn content_text_loop(pv: ParserView, acc: Seq<char>) -> (ParserView, Seq<char>)
    decreases pv.rem(),
{
    if pv.at_end() {
        (pv, acc)
    } else {
        let ch = pv.input[pv.pos as int];
        if is_text_stop(ch) {
            (pv, acc)
        } else if ch == '\\' {
            let (p2, e) = pv.advance(1).parse_single_character();
            let acc2 = match e {
                Some(c) => acc.push(c),
                None => acc,
            };
            if p2.rem() < pv.rem() {
                content_text_loop(p2, acc2)
            } else {
                (p2, acc2)
            }
        } else if (ch == '-' || ch == '<') && (pv.starts_with("->"@) || pv.starts_with("<>"@)) {
            (pv, acc)
        } else {
            content_text_loop(pv.advance(1), acc.push(ch))
        }
    }
}

#[verifier::opaque]
pub open spec fn parse_content_text_spec(pv: ParserView) -> (ParserView, Option<TextView>) {
    let (p1, text) = content_text_loop(pv, Seq::empty());
    if text.len() == 0 {
        (p1, None)
    } else {
        (p1, Some(TextView { text, location: pv.location() }))
    }
}

/// `s` without its trailing occurrences of `c`.
pub open spec fn strip_trailing(s: Seq<char>, c: char) -> Seq<char>
    decreases s.len(),
{
    if s.len() > 0 && s.last() == c {
        strip_trailing(s.drop_last(), c)
    } else {
        s
    }
}

/// Trailing spaces, then trailing tabs, removed from the last text item; a
/// text left empty is dropped and the item before it trimmed in turn.
/// With `terminate_with_space` the trimmed text gets one space appended.
pub open spec fn trim_items(items: Seq<ContentItemView>, terminate_with_space: bool) -> Seq<
    ContentItemView,
>
    decreases items.len(),
{
    if items.len() == 0 {
        items
    } else {
        match items.last() {
            ContentItemView::Text(t) => {
                let tt = strip_trailing(strip_trailing(t.text, ' '), '\t');
                if terminate_with_space {
                    items.drop_last().push(
                        ContentItemView::Text(TextView { text: tt.push(' '), location: t.location }),
                    )
                } else if tt.len() == 0 {
                    trim_items(items.drop_last(), false)
                } else {
                    items.drop_last().push(
                        ContentItemView::Text(TextView { text: tt, location: t.location }),
                    )
                }
            },
            _ => items,
        }
    }
}

/// Items up to the end of the line: glue and plain text, stopping at a tag,
/// inline logic, or anything else that is not text.
pub open spec fn line_items_loop(pv: ParserView, items: Seq<ContentItemView>) -> (
    ParserView,
    Seq<ContentItemView>,
)
    decreases pv.rem(),
{
    if pv.at_end() || pv.peek() == Some('\n') || pv.peek() == Some('\r') {
        (pv, items)
    } else {
        let (p1, glue) = pv.parse_string("<>"@);
        if glue {
            if p1.rem() < pv.rem() {
                line_items_loop(p1, items.push(ContentItemView::Glue))
            } else {
                (p1, items.push(ContentItemView::Glue))
            }
        } else if p1.peek() == Some('#') || p1.peek() == Some('{') {
            (p1, items)
        } else {
            let (p2, t) = parse_content_text_spec(p1);
            match t {
                Some(text) => if p2.rem() < pv.rem() {
                    line_items_loop(p2, items.push(ContentItemView::Text(text)))
                } else {
                    (p2, items.push(ContentItemView::Text(text)))
                },
                None => (p2, items),
            }
        }
    }
}

/// Some item is not a tag.
pub open spec fn has_non_tag(items: Seq<ContentItemView>) -> bool {
    exists|i: int| 0 <= i < items.len() && !(#[trigger] items[i] is Tag)
}

/// Whitespace, then the items of the line; none at all gives nothing.
/// Otherwise the last text is trimmed and, unless only tags remain, a
/// newline text is appended at the position where the line ended.
#[verifier::opaque]
pub open spec fn parse_line_spec(pv: ParserView) -> (ParserView, Option<Seq<ContentItemView>>) {
    let (p1, _) = pv.parse_whitespace();
    let (p2, items) = line_items_loop(p1, Seq::empty());
    if items.len() == 0 {
        (p2, None)
    } else {
        let trimmed = trim_items(items, false);
        if has_non_tag(trimmed) {
            (
                p2,
                Some(
                    trimmed.push(
                        ContentItemView::Text(TextView { text: "\n"@, location: p2.location() }),
                    ),
                ),
            )
        } else {
            (p2, Some(trimmed))
        }
    }
}

/// The text of a line: texts as written, glue as `<>`, other items as nothing.
pub open spec fn items_text(items: Seq<ContentItemView>) -> Seq<char>
    decreases items.len(),
{
    if items.len() == 0 {
        Seq::empty()
    } else {
        items_text(items.drop_last()) + match items.last() {
            ContentItemView::Text(t) => t.text,
            ContentItemView::Glue => "<>"@,
            _ => Seq::empty(),
        }
    }
}

/// A line of content as one text node located where the line began, and
/// the newline after it.
#[verifier::opaque]
pub open spec fn parse_text_line_spec(pv: ParserView) -> (ParserView, Option<StoryNodeView>) {
    let loc = pv.location();
    let (p1, items) = parse_line_spec(pv);
    match items {
        None => (p1, None),
        Some(its) => {
            let (p2, _) = p1.parse_newline();
            (p2, Some(StoryNodeView::Text(TextView { text: items_text(its), location: loc })))
        },
    }
}

/// Parse a line of mixed text and logic.
pub fn parse_line_of_mixed_text_and_logic(p: &mut Parser) -> (r: Option<Vec<ContentItem>>)
    requires
        old(p).wf(),
    ensures
        final(p).wf(),
        final(p)@.same_source(old(p)@),
        (final(p)@, match r {
            Some(v) => Some(seq_view(v@)),
            None => None,
        }) == parse_line_spec(old(p)@),
        old(p)@.pos <= final(p)@.pos,
        r is Some ==> old(p)@.pos < final(p)@.pos,
{
    proof {
        reveal(parse_line_spec);
    }
    p.parse_whitespace();
    let ghost p1 = p@;

    let mut items: Vec<ContentItem> = Vec::new();
    assert(seq_view(items@) =~= Seq::<ContentItemView>::empty());

    loop
        invariant_except_break
            line_items_loop(p@, seq_view(items@)) == line_items_loop(p1, Seq::empty()),
        invariant
            p.wf(),
            p@.same_source(old(p)@),
            old(p)@.pos <= p1.pos <= p@.pos,
            items@.len() > 0 ==> p1.pos < p@.pos,
        ensures
            (p@, seq_view(items@)) == line_items_loop(p1, Seq::empty()),
            items@.len() > 0 ==> p1.pos < p@.pos,
        decreases p@.input.len() - p@.pos,
    {
        let ghost start = p@;
        let ghost acc = seq_view(items@);
        proof {
            p.lemma_wf();
            reveal_strlit("<>");
        }
        if p.is_end() || p.peek() == Some('\n') || p.peek() == Some('\r') {
            break;
        }
        // Try glue <>

        if p.parse_string("<>").is_some() {
            items.push(ContentItem::Glue);
            proof {
                p.lemma_wf();
                assert(seq_view(items@) =~= acc.push(ContentItemView::Glue));
            }
            continue;
        }
        // Try tag #

        if p.peek() == Some('#') {
            // For now, skip tags — will be handled in tags task
            break;
        }
        // Try inline logic { }

        if p.peek() == Some('{') {
            // For now, skip inline logic — will be handled in expression/conditional tasks
            break;
        }
        // Plain text — consume characters until we hit a special character

        match parse_content_text(p) {
            Some(text) => {
                items.push(ContentItem::Text(text));
                proof {
                    p.lemma_wf();
                    assert(seq_view(items@) =~= acc.push(items@.last()@));
                }
            },
            None => {
                break;
            },
        }
    }

    if items.len() == 0 {
        return None;
    }
    // Trim trailing whitespace from last text

    let ghost untrimmed = seq_view(items@);
    trim_end_whitespace(&mut items, false);
    let ghost trimmed = seq_view(items@);

    // Append newline
    let non_tag = any_non_tag(&items);
    if non_tag {
        items.push(ContentItem::Text(Text::new("\n", p.current_source_location())));
        proof {
            assert(seq_view(items@) =~= trimmed.push(items@.last()@));
        }
    }
    Some(items)
}

fn any_non_tag(items: &Vec<ContentItem>) -> (r: bool)
    ensures
        r == has_non_tag(seq_view(items@)),
{
    let mut i: usize = 0;
    while i < items.len()
        invariant
            i <= items.len(),
            forall|j: int| 0 <= j < i ==> (#[trigger] seq_view(items@)[j]) is Tag,
        decreases items.len() - i,
    {
        match &items[i] {
            ContentItem::Tag(_) => {},
            _ => {
                assert(!(seq_view(items@)[i as int] is Tag));
                return true;
            },
        }
        i = i + 1;
    }
    false
}

fn parse_content_text(p: &mut Parser) -> (r: Option<Text>)
    requires
        old(p).wf(),
    ensures
        final(p).wf(),
        final(p)@.same_source(old(p)@),
        (final(p)@, opt_view(r)) == parse_content_text_spec(old(p)@),
        old(p)@.pos <= final(p)@.pos,
        r is Some ==> old(p)@.pos < final(p)@.pos,
{
    proof {
        reveal(parse_content_text_spec);
    }
    let loc = p.current_source_location();
    let mut result = String::new();
    assert(result@ =~= Seq::<char>::empty());

    loop
        invariant_except_break
            content_text_loop(p@, result@) == content_text_loop(old(p)@, Seq::empty()),
        invariant
            p.wf(),
            p@.same_source(old(p)@),
            old(p)@.pos <= p@.pos,
            result@.len() > 0 ==> old(p)@.pos < p@.pos,
        ensures
            (p@, result@) == content_text_loop(old(p)@, Seq::empty()),
            result@.len() > 0 ==> old(p)@.pos < p@.pos,
        decreases p@.input.len() - p@.pos,
    {
        let ghost start = p@;
        let ghost acc = result@;
        proof {
            p.lemma_wf();
            reveal_strlit("->");
            reveal_strlit("<>");
        }
        if p.is_end() {
            break;
        }
        let ch = match p.peek() {
            Some(ch) => ch,
            None => break,
        };

        // Stop at special characters
        if ch == '{' || ch == '}' || ch == '#' || ch == '\n' || ch == '\r' || ch == '|' || ch == '['
            || ch == ']' {
            break;
        }
        // Handle escape character

        if ch == '\\' {
            p.advance(1);
            if let Some(escaped) = p.parse_single_character() {
                result.push(escaped);
            }
            proof {
                p.lemma_wf();
            }
            continue;
        }
        // Check for divert arrow or glue before consuming

        if ch == '-' || ch == '<' {
            if p.peek_str("->") || p.peek_str("<>") {
                break;
            }
        }
        result.push(ch);
        p.advance(1);
    }

    if result.as_str().is_empty() {
        None
    } else {
        Some(Text { text: result, location: loc })
    }
}

fn strip_trailing_chars(s: &String, c: char) -> (r: String)
    ensures
        r@ == strip_trailing(s@, c),
{
    let v = crate::text::chars_of(s.as_str());
    let mut n = v.len();
    assert(v@.take(n as int) =~= v@);
    while n > 0 && v[n - 1] == c
        invariant
            n <= v.len(),
            v@ == s@,
            strip_trailing(v@.take(n as int), c) == strip_trailing(s@, c),
        decreases n,
    {
        proof {
            assert(v@.take(n as int).drop_last() =~= v@.take(n - 1));
        }
        n = n - 1;
    }
    let r = crate::text::string_of_range(&v, 0, n);
    assert(v@.subrange(0, n as int) =~= v@.take(n as int));
    r
}

fn trim_end_whitespace(items: &mut Vec<ContentItem>, terminate_with_space: bool)
    ensures
        seq_view(final(items)@) == trim_items(seq_view(old(items)@), terminate_with_space),
    decreases old(items)@.len(),
{
    if items.len() == 0 {
        return;
    }
    let ghost before = seq_view(items@);
    let last = items.pop().unwrap();
    proof {
        assert(before.drop_last() =~= seq_view(items@));
        assert(before.last() == last@);
    }
    match last {
        ContentItem::Text(t) => {
            let trimmed = strip_trailing_chars(&strip_trailing_chars(&t.text, ' '), '\t');
            let mut text = trimmed;
            if terminate_with_space {
                text.push(' ');
                items.push(ContentItem::Text(Text { text, location: t.location }));
                proof {
                    assert(seq_view(items@) =~= seq_view(items@.drop_last()).push(items@.last()@));
                }
            } else if text.as_str().is_empty() {
                trim_end_whitespace(items, false);
            } else {
                items.push(ContentItem::Text(Text { text, location: t.location }));
                proof {
                    assert(seq_view(items@) =~= seq_view(items@.drop_last()).push(items@.last()@));
                }
            }
        },
        other => {
            items.push(other);
            proof {
                assert(seq_view(items@) =~= before);
            }
        },
    }
}

/// Parse a simple text-only line and convert to a StoryNode.
pub fn parse_text_line(p: &mut Parser) -> (r: Option<StoryNode>)
    requires
        old(p).wf(),
    ensures
        final(p).wf(),
        final(p)@.same_source(old(p)@),
        (final(p)@, opt_node_view(r)) == parse_text_line_spec(old(p)@),
        old(p)@.pos <= final(p)@.pos,
        r is Some ==> old(p)@.pos < final(p)@.pos,
{
    proof {
        reveal(parse_text_line_spec);
    }
    let loc = p.current_source_location();
    let items = match parse_line_of_mixed_text_and_logic(p) {
        Some(items) => items,
        None => return None,
    };

    // Consume end of line
    p.parse_newline();

    // Convert content items to text
    let text = content_text_of(&items);

    Some(StoryNode::Text(Text { text, location: loc }))
}

/// The text of content items: texts as written, glue as `<>`, others as nothing.
pub fn content_text_of(items: &Vec<ContentItem>) -> (r: String)
    ensures
        r@ == items_text(seq_view(items@)),
{
    let mut s = String::new();
    let mut i: usize = 0;
    assert(seq_view(items@).take(0) =~= Seq::<ContentItemView>::empty());
    while i < items.len()
        invariant
            i <= items.len(),
            s@ == items_text(seq_view(items@).take(i as int)),
        decreases items.len() - i,
    {
        proof {
            assert(seq_view(items@).take(i + 1).drop_last() =~= seq_view(items@).take(i as int));
        }
        match &items[i] {
            ContentItem::Text(t) => s.append(t.text.as_str()),
            ContentItem::Glue => s.append("<>"),
            _ => {},
        }
        i = i + 1;
        assert(s@ =~= items_text(seq_view(items@).take(i as int)));
    }
    assert(seq_view(items@).take(i as int) =~= seq_view(items@));
    s
}

} // verus!
