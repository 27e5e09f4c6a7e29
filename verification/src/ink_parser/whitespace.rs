//! Comments, author warnings and runs of blank lines.

use vstd::prelude::*;
use crate::ink_parser::parser::{Parser, ParserView};

verus! {

/// `//`, then the rest of the line.
#[verifier::opaque]
pub open spec fn parse_line_comment_spec(pv: ParserView) -> (ParserView, bool) {
    let (p1, ok) = pv.parse_string("//"@);
    if !ok {
        (p1, false)
    } else {
        (p1.parse_until_newline().0, true)
    }
}

/// The part of a block comment after `/*`: characters up to and including
/// `*/`, or the error `Unclosed block comment` at the end of the input.
pub open spec fn block_comment_rest(pv: ParserView) -> ParserView
    decreases pv.rem(),
{
    if pv.at_end() {
        pv.error("Unclosed block comment"@)
    } else {
        let (p1, ok) = pv.parse_string("*/"@);
        if ok {
            p1
        } else {
            block_comment_rest(pv.advance(1))
        }
    }
}

/// `/*`, then the comment's body.
#[verifier::opaque]
pub open spec fn parse_block_comment_spec(pv: ParserView) -> (ParserView, bool) {
    let (p1, ok) = pv.parse_string("/*"@);
    if !ok {
        (p1, false)
    } else {
        (block_comment_rest(p1), true)
    }
}

/// Whitespace, `TODO:`, whitespace, and the rest of the line as the message.
#[verifier::opaque]
pub open spec fn parse_author_warning_spec(pv: ParserView) -> (ParserView, Option<Seq<char>>) {
    let (p1, _) = pv.parse_whitespace();
    let (p2, ok) = p1.parse_string("TODO:"@);
    if !ok {
        (p2, None)
    } else {
        let (p3, _) = p2.parse_whitespace();
        let (p4, text) = p3.parse_until_newline();
        (p4, Some(text))
    }
}

/// One round of blank-line skipping: whitespace, a newline, and a line or
/// block comment (after which the rest of the line goes too). Rounds repeat
/// while one of them finds something; the result says whether any did.
pub open spec fn multiline_whitespace_loop(pv: ParserView, found: bool) -> (ParserView, bool)
    decreases pv.rem(),
{
    let (p1, w) = pv.parse_whitespace();
    let (p2, n) = p1.parse_newline();
    let (p3, lc) = parse_line_comment_spec(p2);
    let (p4, c) = if lc {
        (p3, true)
    } else {
        parse_block_comment_spec(p3)
    };
    if !w && !n && !c {
        (p4, found)
    } else {
        let p5 = if c {
            p4.parse_until_newline().0
        } else {
            p4
        };
        if p5.rem() < pv.rem() {
            multiline_whitespace_loop(p5, true)
        } else {
            (p5, true)
        }
    }
}

/// Parse a line comment (// ... until newline)
pub fn parse_line_comment(p: &mut Parser) -> (r: Option<()>)
    requires
        old(p).wf(),
    ensures
        final(p).wf(),
        final(p)@.same_source(old(p)@),
        (final(p)@, r is Some) == parse_line_comment_spec(old(p)@),
        old(p)@.pos <= final(p)@.pos,
        r is Some ==> old(p)@.pos < final(p)@.pos,
{
    proof {
        reveal(parse_line_comment_spec);
        reveal_strlit("//");
    }
    if p.parse_string("//").is_none() {
        return None;
    }
    proof {
        p.lemma_wf();
        crate::ink_parser::parser::lemma_until_newline_bounds(p@.input, p@.pos);
    }
    p.parse_until_newline();
    Some(())
}

/// Parse a block comment (/* ... */)
pub fn parse_block_comment(p: &mut Parser) -> (r: Option<()>)
    requires
        old(p).wf(),
    ensures
        final(p).wf(),
        final(p)@.same_source(old(p)@),
        (final(p)@, r is Some) == parse_block_comment_spec(old(p)@),
        old(p)@.pos <= final(p)@.pos,
        r is Some ==> old(p)@.pos < final(p)@.pos,
{
    proof {
        reveal(parse_block_comment_spec);
        reveal_strlit("/*");
        p.lemma_wf();
    }
    if p.parse_string("/*").is_none() {
        return None;
    }
    let ghost opened = p@;
    loop
        invariant_except_break
            block_comment_rest(p@) == block_comment_rest(opened),
        invariant
            p.wf(),
            p@.same_source(old(p)@),
            opened.pos <= p@.pos,
            old(p)@.pos < opened.pos,
        ensures
            p@.same_source(old(p)@),
            p@ == block_comment_rest(opened),
            old(p)@.pos < p@.pos,
        decreases p@.input.len() - p@.pos,
    {
        proof {
            p.lemma_wf();
        }
        if p.is_end() {
            p.error("Unclosed block comment");
            break;
        }
        if p.parse_string("*/").is_some() {
            break;
        }
        p.advance(1);
    }
    Some(())
}

/// Parse a TODO/author warning
pub fn parse_author_warning(p: &mut Parser) -> (r: Option<String>)
    requires
        old(p).wf(),
    ensures
        final(p).wf(),
        final(p)@.same_source(old(p)@),
        (final(p)@, crate::ink_parser::parser::opt_chars(r)) == parse_author_warning_spec(old(p)@),
{
    proof {
        reveal(parse_author_warning_spec);
    }
    p.parse_whitespace();
    if p.parse_string("TODO:").is_none() {
        return None;
    }
    p.parse_whitespace();
    let text = p.parse_until_newline();
    Some(text)
}

/// Parse multiline whitespace (spaces, tabs, newlines, blank lines)
pub fn parse_multiline_whitespace(p: &mut Parser) -> (r: bool)
    requires
        old(p).wf(),
    ensures
        final(p).wf(),
        final(p)@.same_source(old(p)@),
        (final(p)@, r) == multiline_whitespace_loop(old(p)@, false),
        old(p)@.pos <= final(p)@.pos,
        r ==> old(p)@.pos < final(p)@.pos,
{
    let mut found = false;
    loop
        invariant_except_break
            multiline_whitespace_loop(p@, found) == multiline_whitespace_loop(old(p)@, false),
        invariant
            p.wf(),
            p@.same_source(old(p)@),
            old(p)@.pos <= p@.pos,
            found ==> old(p)@.pos < p@.pos,
        ensures
            p@.same_source(old(p)@),
            (p@, found) == multiline_whitespace_loop(old(p)@, false),
            old(p)@.pos <= p@.pos,
            found ==> old(p)@.pos < p@.pos,
        decreases p@.input.len() - p@.pos,
    {
        let ghost start = p@;
        proof {
            p.lemma_wf();
            crate::ink_parser::parser::lemma_ws_end_bounds(p@.input, p@.pos);
        }
        let had_whitespace = p.parse_whitespace();
        proof {
            p.lemma_wf();
        }
        let had_newline = p.parse_newline();
        // Skip comments as whitespace
        let had_comment = parse_line_comment(p).is_some() || parse_block_comment(p).is_some();
        if !had_whitespace && !had_newline && !had_comment {
            break;
        }
        found = true;
        // After comment, consume the rest of the line
        if had_comment {
            proof {
                p.lemma_wf();
                crate::ink_parser::parser::lemma_until_newline_bounds(p@.input, p@.pos);
            }
            p.parse_until_newline();
        }
        proof {
            p.lemma_wf();
            assert(p@.rem() < start.rem());
        }
    }
    found
}

} // verus!
