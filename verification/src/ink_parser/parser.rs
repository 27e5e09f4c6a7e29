//! Core parser engine: a cursor over the input characters with backtracking,
//! error collection and primitive parse methods.
//!
//! The cursor counts characters (Unicode scalar values). Line and column are
//! derived from the position: the line is one more than the number of line
//! feeds before the cursor, the column one more than the number of characters
//! since the last line feed.

use vstd::prelude::*;
use crate::ink_parser::ir::{ErrorType, InkError, InkErrorView, SourceLocation, SourceLocationView};
use crate::text::{starts_with_at, string_of_range, vec_starts_with_at};

verus! {

// ---------------------------------------------------------------------------
// The mathematical model of the cursor
// ---------------------------------------------------------------------------

/// Line and column (both counted from 1) after reading `input[0..pos]`.
pub open spec fn line_col(input: Seq<char>, pos: nat) -> (nat, nat)
    decreases pos,
{
    if pos == 0 {
        (1, 1)
    } else {
        let lc = line_col(input, (pos - 1) as nat);
        if input[pos - 1] == '\n' {
            (lc.0 + 1, 1)
        } else {
            (lc.0, lc.1 + 1)
        }
    }
}

pub proof fn lemma_line_col_bound(input: Seq<char>, pos: nat)
    ensures
        1 <= line_col(input, pos).0 <= pos + 1,
        1 <= line_col(input, pos).1 <= pos + 1,
    decreases pos,
{
    if pos > 0 {
        lemma_line_col_bound(input, (pos - 1) as nat);
    }
}

/// The first position at or after `pos` that is not a space or a tab.
pub open spec fn ws_end(input: Seq<char>, pos: nat) -> nat
    decreases input.len() - pos,
{
    if pos < input.len() && (input[pos as int] == ' ' || input[pos as int] == '\t') {
        ws_end(input, pos + 1)
    } else {
        pos
    }
}

/// The first position at or after `pos` holding a line feed or a carriage
/// return, or the end of the input.
pub open spec fn line_end(input: Seq<char>, pos: nat) -> nat
    decreases input.len() - pos,
{
    if pos < input.len() && input[pos as int] != '\n' && input[pos as int] != '\r' {
        line_end(input, pos + 1)
    } else {
        pos
    }
}

pub open spec fn is_ascii_digit(c: char) -> bool {
    '0' <= c && c <= '9'
}

/// The first position at or after `pos` that is not an ASCII digit.
pub open spec fn digits_end(input: Seq<char>, pos: nat) -> nat
    decreases input.len() - pos,
{
    if pos < input.len() && is_ascii_digit(input[pos as int]) {
        digits_end(input, pos + 1)
    } else {
        pos
    }
}

/// The first position at or after `pos` holding one of `stops`, or the end.
pub open spec fn until_chars_end(input: Seq<char>, pos: nat, stops: Seq<char>) -> nat
    decreases input.len() - pos,
{
    if pos < input.len() && !stops.contains(input[pos as int]) {
        until_chars_end(input, pos + 1, stops)
    } else {
        pos
    }
}

/// The first position at or after `pos` holding a character outside `set`.
pub open spec fn chars_in_end(input: Seq<char>, pos: nat, set: Seq<char>) -> nat
    decreases input.len() - pos,
{
    if pos < input.len() && set.contains(input[pos as int]) {
        chars_in_end(input, pos + 1, set)
    } else {
        pos
    }
}

/// ASCII letters, `_`, CJK unified ideographs, hiragana and katakana.
pub open spec fn is_identifier_start(c: char) -> bool {
    ||| ('a' <= c && c <= 'z')
    ||| ('A' <= c && c <= 'Z')
    ||| c == '_'
    ||| ('\u{4E00}' <= c && c <= '\u{9FFF}')
    ||| ('\u{3040}' <= c && c <= '\u{309F}')
    ||| ('\u{30A0}' <= c && c <= '\u{30FF}')
}

pub open spec fn is_identifier_continue(c: char) -> bool {
    is_identifier_start(c) || is_ascii_digit(c)
}

/// The first position at or after `pos` holding a character that cannot
/// continue an identifier.
pub open spec fn ident_end(input: Seq<char>, pos: nat) -> nat
    decreases input.len() - pos,
{
    if pos < input.len() && is_identifier_continue(input[pos as int]) {
        ident_end(input, pos + 1)
    } else {
        pos
    }
}

pub proof fn lemma_digits_end_bounds(input: Seq<char>, pos: nat)
    requires
        pos <= input.len(),
    ensures
        pos <= digits_end(input, pos) <= input.len(),
    decreases input.len() - pos,
{
    if pos < input.len() && is_ascii_digit(input[pos as int]) {
        lemma_digits_end_bounds(input, pos + 1);
    }
}

pub proof fn lemma_ws_end_bounds(input: Seq<char>, pos: nat)
    requires
        pos <= input.len(),
    ensures
        pos <= ws_end(input, pos) <= input.len(),
    decreases input.len() - pos,
{
    if pos < input.len() && (input[pos as int] == ' ' || input[pos as int] == '\t') {
        lemma_ws_end_bounds(input, pos + 1);
    }
}

pub proof fn lemma_until_newline_bounds(input: Seq<char>, pos: nat)
    requires
        pos <= input.len(),
    ensures
        pos <= line_end(input, pos) <= input.len(),
    decreases input.len() - pos,
{
    if pos < input.len() && input[pos as int] != '\n' && input[pos as int] != '\r' {
        lemma_until_newline_bounds(input, pos + 1);
    }
}

pub proof fn lemma_ident_end_bounds(input: Seq<char>, pos: nat)
    requires
        pos <= input.len(),
    ensures
        pos <= ident_end(input, pos) <= input.len(),
    decreases input.len() - pos,
{
    if pos < input.len() && is_identifier_continue(input[pos as int]) {
        lemma_ident_end_bounds(input, pos + 1);
    }
}

/// The value of a digit character.
pub open spec fn digit_value(c: char) -> nat {
    (c as nat - '0' as nat) as nat
}

/// The value of a string of decimal digits.
pub open spec fn digits_value(s: Seq<char>) -> nat
    decreases s.len(),
{
    if s.len() == 0 {
        0
    } else {
        digits_value(s.drop_last()) * 10 + digit_value(s.last())
    }
}

/// Everything the parser's behaviour depends on: the input, the file name,
/// the cursor, the errors collected so far and the positions saved by open
/// rules.
#[verifier::ext_equal]
pub struct ParserView {
    pub input: Seq<char>,
    pub filename: Seq<char>,
    pub pos: nat,
    pub errors: Seq<InkErrorView>,
    pub rules: Seq<nat>,
}

impl ParserView {
    pub open spec fn at_end(self) -> bool {
        self.pos >= self.input.len()
    }

    pub open spec fn peek(self) -> Option<char> {
        if self.pos < self.input.len() {
            Some(self.input[self.pos as int])
        } else {
            None
        }
    }

    /// The characters still to be read.
    pub open spec fn remaining(self) -> Seq<char> {
        self.input.subrange(self.pos as int, self.input.len() as int)
    }

    pub open spec fn rem(self) -> nat {
        if self.pos <= self.input.len() {
            (self.input.len() - self.pos) as nat
        } else {
            0
        }
    }

    pub open spec fn location(self) -> SourceLocationView {
        SourceLocationView {
            file: self.filename,
            line: line_col(self.input, self.pos).0,
            column: line_col(self.input, self.pos).1,
        }
    }

    pub open spec fn set_pos(self, pos: nat) -> ParserView {
        ParserView { pos, ..self }
    }

    pub open spec fn advance(self, count: nat) -> ParserView {
        if self.pos + count <= self.input.len() {
            self.set_pos(self.pos + count)
        } else {
            self.set_pos(self.input.len())
        }
    }

    pub open spec fn starts_with(self, s: Seq<char>) -> bool {
        starts_with_at(self.input, self.pos, s)
    }

    pub open spec fn parse_string(self, s: Seq<char>) -> (ParserView, bool) {
        if self.starts_with(s) {
            (self.advance(s.len()), true)
        } else {
            (self, false)
        }
    }

    pub open spec fn parse_single_character(self) -> (ParserView, Option<char>) {
        match self.peek() {
            Some(c) => (self.advance(1), Some(c)),
            None => (self, None),
        }
    }

    pub open spec fn parse_whitespace(self) -> (ParserView, bool) {
        let e = ws_end(self.input, self.pos);
        (self.set_pos(e), e > self.pos)
    }

    pub open spec fn parse_newline(self) -> (ParserView, bool) {
        if self.starts_with(seq!['\r', '\n']) {
            (self.advance(2), true)
        } else if self.starts_with(seq!['\n']) {
            (self.advance(1), true)
        } else {
            (self, false)
        }
    }

    pub open spec fn parse_until_newline(self) -> (ParserView, Seq<char>) {
        let e = line_end(self.input, self.pos);
        (self.set_pos(e), self.input.subrange(self.pos as int, e as int))
    }

    pub open spec fn at_end_of_line(self) -> bool {
        self.at_end() || self.peek() == Some('\n') || self.peek() == Some('\r')
    }

    pub open spec fn parse_until_char(self, stops: Seq<char>) -> (ParserView, Option<Seq<char>>) {
        let e = until_chars_end(self.input, self.pos, stops);
        if e > self.pos {
            (self.set_pos(e), Some(self.input.subrange(self.pos as int, e as int)))
        } else {
            (self, None)
        }
    }

    pub open spec fn parse_characters_from_string(self, set: Seq<char>) -> (
        ParserView,
        Option<Seq<char>>,
    ) {
        let e = chars_in_end(self.input, self.pos, set);
        if e > self.pos {
            (self.set_pos(e), Some(self.input.subrange(self.pos as int, e as int)))
        } else {
            (self, None)
        }
    }

    /// An optional `-`, then decimal digits. Without digits the cursor stays
    /// where it was; with digits whose value does not fit an `i64` the digits
    /// are consumed and nothing is returned.
    pub open spec fn parse_int(self) -> (ParserView, Option<i64>) {
        let (p1, neg) = self.parse_string("-"@);
        let e = digits_end(self.input, p1.pos);
        if e == p1.pos {
            (self, None)
        } else {
            let v = digits_value(self.input.subrange(p1.pos as int, e as int));
            let p2 = p1.set_pos(e);
            if v > i64::MAX {
                (p2, None)
            } else if neg {
                (p2, Some((-v) as i64))
            } else {
                (p2, Some(v as i64))
            }
        }
    }

    /// An optional `-`, digits, and optionally `.` and more digits. The
    /// result is the literal text; with no character read after the sign the
    /// cursor stays where it was, and a literal without any digit (`.`, `-.`)
    /// is consumed but yields nothing.
    pub open spec fn parse_float(self) -> (ParserView, Option<Seq<char>>) {
        let (p1, _) = self.parse_string("-"@);
        let d1 = digits_end(self.input, p1.pos);
        let (p3, dot) = p1.set_pos(d1).parse_string("."@);
        let d2 = if dot {
            digits_end(self.input, p3.pos)
        } else {
            p3.pos
        };
        if d2 == p1.pos {
            (self, None)
        } else if d1 > p1.pos || d2 > p3.pos {
            (p3.set_pos(d2), Some(self.input.subrange(self.pos as int, d2 as int)))
        } else {
            (p3.set_pos(d2), None)
        }
    }

    /// Whitespace, then an identifier start character and any identifier
    /// characters. The whitespace is consumed even when no identifier follows.
    pub open spec fn parse_identifier(self) -> (ParserView, Option<Seq<char>>) {
        let (p1, _) = self.parse_whitespace();
        if p1.at_end() || !is_identifier_start(self.input[p1.pos as int]) {
            (p1, None)
        } else {
            let e = ident_end(self.input, p1.pos + 1);
            (p1.set_pos(e), Some(self.input.subrange(p1.pos as int, e as int)))
        }
    }

    pub open spec fn with_error(self, message: Seq<char>, kind: ErrorType) -> ParserView {
        ParserView {
            errors: self.errors.push(
                InkErrorView { message, error_type: kind, location: self.location() },
            ),
            ..self
        }
    }

    pub open spec fn error(self, message: Seq<char>) -> ParserView {
        self.with_error(message, ErrorType::Error)
    }

    pub open spec fn warning(self, message: Seq<char>) -> ParserView {
        self.with_error(message, ErrorType::Warning)
    }

    pub open spec fn begin_rule(self) -> (ParserView, nat) {
        (ParserView { rules: self.rules.push(self.pos), ..self }, self.rules.len())
    }

    pub open spec fn succeed_rule(self) -> ParserView {
        if self.rules.len() > 0 {
            ParserView { rules: self.rules.drop_last(), ..self }
        } else {
            self
        }
    }

    pub open spec fn fail_rule(self, id: nat) -> ParserView {
        if id < self.rules.len() {
            ParserView { pos: self.rules[id as int], rules: self.rules.take(id as int), ..self }
        } else {
            self
        }
    }

    /// `s`, or else the error `Expected <description>`.
    pub open spec fn expect_string(self, s: Seq<char>, description: Seq<char>) -> (
        ParserView,
        bool,
    ) {
        let (p1, ok) = self.parse_string(s);
        if ok {
            (p1, true)
        } else {
            (p1.error("Expected "@ + description), false)
        }
    }

    /// The state after a parse that only moved the cursor and added errors.
    pub open spec fn same_source(self, other: ParserView) -> bool {
        &&& self.input == other.input
        &&& self.filename == other.filename
        &&& self.rules == other.rules
    }
}

/// Backtracking: a rule begun at some state and failed after any parse
/// that kept the source (the input, the file and the open rules) puts the
/// cursor back where the rule began and closes the rule; the errors
/// reported meanwhile stay.
pub proof fn law_fail_rule_restores(start: ParserView, after: ParserView)
    requires
        after.same_source(start.begin_rule().0),
    ensures
        after.fail_rule(start.begin_rule().1) == (ParserView { errors: after.errors, ..start }),
{
    assert(after.rules.take(start.rules.len() as int) =~= start.rules);
}

/// A rule begun at some state and completed after any parse that kept the
/// source leaves the cursor where the parse ended and closes the rule.
pub proof fn law_succeed_rule_keeps_position(start: ParserView, after: ParserView)
    requires
        after.same_source(start.begin_rule().0),
    ensures
        after.succeed_rule() == (ParserView { pos: after.pos, errors: after.errors, ..start }),
{
    assert(after.rules.drop_last() =~= start.rules);
}

/// A longer prefix takes at least as many bytes.
pub proof fn lemma_utf8_len_prefix(s: Seq<char>, i: int, j: int)
    requires
        0 <= i <= j <= s.len(),
    ensures
        crate::text::utf8_len(s.take(i)) <= crate::text::utf8_len(s.take(j)),
    decreases j - i,
{
    if i < j {
        lemma_utf8_len_prefix(s, i, j - 1);
        assert(s.take(j).drop_last() =~= s.take(j - 1));
    }
}

// ---------------------------------------------------------------------------
// The parser
// ---------------------------------------------------------------------------

struct RuleState {
    pos: usize,
    line: usize,
    column: usize,
}

/// Core parser engine: a cursor over input text with backtracking,
/// error collection, and primitive parse methods.
pub struct Parser {
    input: String,
    chars: Vec<char>,
    filename: String,
    pos: usize,
    line: usize,
    column: usize,
    errors: Vec<InkError>,
    rule_stack: Vec<RuleState>,
}

spec fn valid_rule(chars: Seq<char>, r: RuleState) -> bool {
    &&& r.pos <= chars.len()
    &&& line_col(chars, r.pos as nat) == (r.line as nat, r.column as nat)
}

pub open spec fn errors_view(errors: Seq<InkError>) -> Seq<InkErrorView> {
    errors.map_values(|e: InkError| e@)
}

impl View for Parser {
    type V = ParserView;

    closed spec fn view(&self) -> ParserView {
        ParserView {
            input: self.chars@,
            filename: self.filename@,
            pos: self.pos as nat,
            errors: errors_view(self.errors@),
            rules: self.rule_stack@.map_values(|r: RuleState| r.pos as nat),
        }
    }
}

impl Parser {
    /// The parser's internal invariant: the cursor lies within the input and
    /// its line and column, and those of every saved rule, match its position.
    pub closed spec fn wf(&self) -> bool {
        &&& self.input@ == self.chars@
        &&& self.chars@.len() < usize::MAX
        &&& self.pos <= self.chars@.len()
        &&& line_col(self.chars@, self.pos as nat) == (self.line as nat, self.column as nat)
        &&& forall|i: int|
            0 <= i < self.rule_stack@.len() ==> valid_rule(self.chars@, #[trigger] self.rule_stack@[i])
    }

    pub proof fn lemma_wf(&self)
        requires
            self.wf(),
        ensures
            self@.pos <= self@.input.len(),
            self@.input.len() < usize::MAX,
            forall|i: int| 0 <= i < self@.rules.len() ==> #[trigger] self@.rules[i] <= self@.input.len(),
    {
        assert forall|i: int| 0 <= i < self@.rules.len() implies #[trigger] self@.rules[i] <= self@.input.len() by {
            assert(valid_rule(self.chars@, self.rule_stack@[i]));
        }
    }

    pub fn new(input: &str, filename: &str) -> (r: Self)
        requires
            input@.len() < usize::MAX,
        ensures
            r.wf(),
            r@ == (ParserView {
                input: input@,
                filename: filename@,
                pos: 0,
                errors: Seq::empty(),
                rules: Seq::empty(),
            }),
    {
        let chars = crate::text::chars_of(input);
        let r = Parser {
            input: String::from_str(input),
            chars,
            filename: String::from_str(filename),
            pos: 0,
            line: 1,
            column: 1,
            errors: Vec::new(),
            rule_stack: Vec::new(),
        };
        assert(r@.errors =~= Seq::<InkErrorView>::empty());
        assert(r@.rules =~= Seq::<nat>::empty());
        r
    }

    // ---- Cursor state ----

    /// The cursor as a byte offset into the input: the number of bytes the
    /// characters before it take in UTF-8.
    pub fn position(&self) -> (r: usize)
        requires
            self.wf(),
            crate::text::utf8_len(self@.input.take(self@.pos as int)) <= usize::MAX,
        ensures
            r == crate::text::utf8_len(self@.input.take(self@.pos as int)),
    {
        proof {
            self.lemma_wf();
        }
        let mut bytes: usize = 0;
        let mut i: usize = 0;
        while i < self.pos
            invariant
                self.wf(),
                i <= self.pos,
                self.pos == self@.pos,
                self@.pos <= self@.input.len(),
                self.chars@ == self@.input,
                bytes == crate::text::utf8_len(self@.input.take(i as int)),
                crate::text::utf8_len(self@.input.take(self@.pos as int)) <= usize::MAX,
            decreases self.pos - i,
        {
            proof {
                assert(self@.input.take(i + 1).drop_last() =~= self@.input.take(i as int));
                crate::ink_parser::parser::lemma_utf8_len_prefix(self@.input, i + 1, self@.pos as int);
            }
            bytes = bytes + crate::text::utf8_len_of(self.chars[i]);
            i = i + 1;
        }
        bytes
    }

    /// The cursor as a number of characters.
    pub(crate) fn cursor(&self) -> (r: usize)
        requires
            self.wf(),
        ensures
            r == self@.pos,
    {
        self.pos
    }

    pub fn is_end(&self) -> (r: bool)
        requires
            self.wf(),
        ensures
            r == self@.at_end(),
    {
        self.pos >= self.chars.len()
    }

    pub fn peek(&self) -> (r: Option<char>)
        requires
            self.wf(),
        ensures
            r == self@.peek(),
    {
        if self.pos < self.chars.len() {
            Some(self.chars[self.pos])
        } else {
            None
        }
    }

    /// Look ahead multiple characters without advancing.
    pub fn peek_str(&self, s: &str) -> (r: bool)
        requires
            self.wf(),
        ensures
            r == self@.starts_with(s@),
    {
        vec_starts_with_at(&self.chars, self.pos, s)
    }

    pub fn advance(&mut self, count: usize)
        requires
            old(self).wf(),
            old(self)@.pos + count <= usize::MAX,
        ensures
            final(self).wf(),
            final(self)@ == old(self)@.advance(count as nat),
            old(self)@.pos <= final(self)@.pos <= final(self)@.input.len(),
    {
        let len = self.chars.len();
        let end = if self.pos + count <= len {
            self.pos + count
        } else {
            len
        };
        let mut line = self.line;
        let mut column = self.column;
        let mut i = self.pos;
        while i < end
            invariant
                self.pos <= i <= end <= len,
                len == self.chars@.len(),
                len < usize::MAX,
                line_col(self.chars@, i as nat) == (line as nat, column as nat),
            decreases end - i,
        {
            proof {
                lemma_line_col_bound(self.chars@, i as nat);
            }
            if self.chars[i] == '\n' {
                line = line + 1;
                column = 1;
            } else {
                column = column + 1;
            }
            i = i + 1;
        }
        self.pos = end;
        self.line = line;
        self.column = column;
    }

    fn advance_one(&mut self) -> (r: Option<char>)
        requires
            old(self).wf(),
        ensures
            final(self).wf(),
            (final(self)@, r) == old(self)@.parse_single_character(),
            old(self)@.pos <= final(self)@.pos,
            r is Some ==> final(self)@.pos == old(self)@.pos + 1,
    {
        let ch = self.peek();
        match ch {
            Some(c) => {
                self.advance(1);
                Some(c)
            },
            None => None,
        }
    }

    pub fn current_source_location(&self) -> (r: SourceLocation)
        requires
            self.wf(),
        ensures
            r@ == self@.location(),
    {
        SourceLocation::new(self.filename.as_str(), self.line, self.column)
    }

    pub fn filename(&self) -> (r: &str)
        requires
            self.wf(),
        ensures
            r@ == self@.filename,
    {
        self.filename.as_str()
    }

    /// Get remaining input from current position.
    pub fn remaining(&self) -> (r: &str)
        requires
            self.wf(),
        ensures
            r@ == self@.remaining(),
    {
        self.input.as_str().substring_char(self.pos, self.chars.len())
    }

    // ---- Rule system (backtracking) ----

    pub fn begin_rule(&mut self) -> (r: usize)
        requires
            old(self).wf(),
        ensures
            final(self).wf(),
            (final(self)@, r as nat) == old(self)@.begin_rule(),
    {
        let id = self.rule_stack.len();
        self.rule_stack.push(RuleState { pos: self.pos, line: self.line, column: self.column });
        proof {
            assert(self@.rules =~= old(self)@.rules.push(old(self)@.pos));
            assert(forall|i: int|
                0 <= i < self.rule_stack@.len() ==> valid_rule(self.chars@, #[trigger] self.rule_stack@[i]))
                by {
                assert(forall|i: int|
                    0 <= i < old(self).rule_stack@.len() ==> self.rule_stack@[i] == old(self).rule_stack@[i]);
            }
        }
        id
    }

    pub fn succeed_rule(&mut self, _rule_id: usize)
        requires
            old(self).wf(),
        ensures
            final(self).wf(),
            final(self)@ == old(self)@.succeed_rule(),
    {
        let _ = self.rule_stack.pop();
        proof {
            if old(self).rule_stack@.len() > 0 {
                assert(self@.rules =~= old(self)@.rules.drop_last());
                assert(forall|i: int|
                    0 <= i < self.rule_stack@.len() ==> self.rule_stack@[i] == old(self).rule_stack@[i]);
            }
        }
    }

    pub fn fail_rule(&mut self, rule_id: usize)
        requires
            old(self).wf(),
        ensures
            final(self).wf(),
            final(self)@ == old(self)@.fail_rule(rule_id as nat),
    {
        if rule_id < self.rule_stack.len() {
            let state = &self.rule_stack[rule_id];
            assert(valid_rule(self.chars@, self.rule_stack@[rule_id as int]));
            self.pos = state.pos;
            self.line = state.line;
            self.column = state.column;
            self.rule_stack.truncate(rule_id);
            proof {
                assert(self@.rules =~= old(self)@.rules.take(rule_id as int));
                assert(forall|i: int|
                    0 <= i < self.rule_stack@.len() ==> self.rule_stack@[i] == old(self).rule_stack@[i]);
            }
        }
    }

    // ---- Primitive parsers ----

    /// Try to parse a specific string literal. Returns Some(()) on match.
    pub fn parse_string(&mut self, s: &str) -> (r: Option<()>)
        requires
            old(self).wf(),
        ensures
            final(self).wf(),
            (final(self)@, r is Some) == old(self)@.parse_string(s@),
            r is Some ==> final(self)@.pos == old(self)@.pos + s@.len(),
            r is None ==> final(self)@ == old(self)@,
    {
        if vec_starts_with_at(&self.chars, self.pos, s) {
            let n = s.unicode_len();
            self.advance(n);
            Some(())
        } else {
            None
        }
    }

    /// Parse a single character, returning it.
    pub fn parse_single_character(&mut self) -> (r: Option<char>)
        requires
            old(self).wf(),
        ensures
            final(self).wf(),
            (final(self)@, r) == old(self)@.parse_single_character(),
            old(self)@.pos <= final(self)@.pos,
            r is Some ==> final(self)@.pos == old(self)@.pos + 1,
    {
        self.advance_one()
    }

    /// Advance over the ASCII digits at the cursor, returning their value
    /// when it fits an `i64`.
    fn parse_digits(&mut self) -> (r: Option<u64>)
        requires
            old(self).wf(),
        ensures
            old(self)@.pos <= final(self)@.pos,
            final(self).wf(),
            final(self)@ == old(self)@.set_pos(digits_end(old(self)@.input, old(self)@.pos)),
            ({
                let v = digits_value(
                    old(self)@.input.subrange(old(self)@.pos as int, final(self)@.pos as int),
                );
                match r {
                    Some(x) => x == v && v <= i64::MAX,
                    None => v > i64::MAX,
                }
            }),
    {
        proof {
            self.lemma_wf();
            lemma_digits_end_bounds(self@.input, self@.pos);
        }
        let ghost start = self@.pos;
        let mut value: Option<u64> = Some(0);
        while !self.is_end() && is_digit_char(self.peek())
            invariant
                self.wf(),
                self@ == old(self)@.set_pos(self@.pos),
                start == old(self)@.pos,
                start <= self@.pos,
                digits_end(self@.input, self@.pos) == digits_end(self@.input, start),
                ({
                    let v = digits_value(self@.input.subrange(start as int, self@.pos as int));
                    match value {
                        Some(x) => x == v && v <= i64::MAX,
                        None => v > i64::MAX,
                    }
                }),
            decreases self@.input.len() - self@.pos,
        {
            let c = self.peek().unwrap();
            let ghost before = self@.pos;
            let d = (c as u32 - '0' as u32) as u64;
            proof {
                let s = self@.input.subrange(start as int, (before + 1) as int);
                assert(s.drop_last() =~= self@.input.subrange(start as int, before as int));
                assert(s.last() == c);
            }
            value = match value {
                Some(x) => {
                    if x > 922337203685477580 || (x == 922337203685477580 && d > 7) {
                        None
                    } else {
                        Some(x * 10 + d)
                    }
                },
                None => None,
            };
            self.advance(1);
        }
        value
    }

    /// Parse an integer, returning its value.
    pub fn parse_int(&mut self) -> (r: Option<i64>)
        requires
            old(self).wf(),
        ensures
            final(self).wf(),
            (final(self)@, r) == old(self)@.parse_int(),
            old(self)@.pos <= final(self)@.pos,
            r is Some ==> old(self)@.pos < final(self)@.pos,
    {
        let start = self.pos;
        let start_line = self.line;
        let start_col = self.column;
        let has_negative = self.parse_string("-").is_some();
        let digits_start = self.pos;
        let value = self.parse_digits();
        if self.pos == digits_start {
            if has_negative {
                self.pos = start;
                self.line = start_line;
                self.column = start_col;
            }
            return None;
        }
        match value {
            Some(v) => {
                let v = v as i64;
                Some(
                    if has_negative {
                        -v
                    } else {
                        v
                    },
                )
            },
            None => None,
        }
    }

    /// Parse a float literal, returning its text (`-`, digits, `.`, digits).
    pub fn parse_float(&mut self) -> (r: Option<String>)
        requires
            old(self).wf(),
        ensures
            final(self).wf(),
            (final(self)@, opt_chars(r)) == old(self)@.parse_float(),
            old(self)@.pos <= final(self)@.pos,
    {
        proof {
            self.lemma_wf();
        }
        let start = self.pos;
        let start_line = self.line;
        let start_col = self.column;
        let _has_negative = self.parse_string("-").is_some();
        let num_start = self.pos;
        self.skip_digits();
        let int_end = self.pos;
        let dot = self.parse_string(".").is_some();
        let frac_start = self.pos;
        if dot {
            self.skip_digits();
        }
        if self.pos == num_start {
            self.pos = start;
            self.line = start_line;
            self.column = start_col;
            return None;
        }
        if int_end > num_start || self.pos > frac_start {
            Some(string_of_range(&self.chars, start, self.pos))
        } else {
            None
        }
    }

    fn skip_digits(&mut self)
        requires
            old(self).wf(),
        ensures
            final(self).wf(),
            final(self)@ == old(self)@.set_pos(digits_end(old(self)@.input, old(self)@.pos)),
            old(self)@.pos <= final(self)@.pos,
    {
        proof {
            self.lemma_wf();
            lemma_digits_end_bounds(self@.input, self@.pos);
        }
        proof {
            self.lemma_wf();
            lemma_digits_end_bounds(self@.input, self@.pos);
        }
        while !self.is_end() && is_digit_char(self.peek())
            invariant
                self.wf(),
                self@ == old(self)@.set_pos(self@.pos),
                digits_end(self@.input, self@.pos) == digits_end(
                    old(self)@.input,
                    old(self)@.pos,
                ),
            decreases self@.input.len() - self@.pos,
        {
            self.advance(1);
        }
    }

    /// Parse a newline character (either \r\n or \n).
    pub fn parse_newline(&mut self) -> (r: bool)
        requires
            old(self).wf(),
        ensures
            final(self).wf(),
            (final(self)@, r) == old(self)@.parse_newline(),
            old(self)@.pos <= final(self)@.pos,
            r ==> old(self)@.pos < final(self)@.pos,
    {
        proof {
            reveal_strlit("\r\n");
            reveal_strlit("\n");
            assert("\r\n"@ =~= seq!['\r', '\n']);
            assert("\n"@ =~= seq!['\n']);
        }
        if self.parse_string("\r\n").is_some() || self.parse_string("\n").is_some() {
            true
        } else {
            false
        }
    }

    /// Parse optional whitespace (spaces and tabs, not newlines).
    pub fn parse_whitespace(&mut self) -> (r: bool)
        requires
            old(self).wf(),
        ensures
            final(self).wf(),
            (final(self)@, r) == old(self)@.parse_whitespace(),
            old(self)@.pos <= final(self)@.pos,
            r ==> old(self)@.pos < final(self)@.pos,
    {
        let mut found = false;
        while !self.is_end()
            invariant
                self.wf(),
                self@ == old(self)@.set_pos(self@.pos),
                old(self)@.pos <= self@.pos,
                found == (self@.pos > old(self)@.pos),
                ws_end(self@.input, self@.pos) == ws_end(old(self)@.input, old(self)@.pos),
            ensures
                ws_end(self@.input, self@.pos) == self@.pos,
            decreases self@.input.len() - self@.pos,
        {
            match self.peek() {
                Some(' ') | Some('\t') => {
                    self.advance(1);
                    found = true;
                },
                _ => break,
            }
        }
        found
    }

    /// Parse until end of line (not consuming the newline).
    pub fn parse_until_newline(&mut self) -> (r: String)
        requires
            old(self).wf(),
        ensures
            final(self).wf(),
            (final(self)@, r@) == old(self)@.parse_until_newline(),
            old(self)@.pos <= final(self)@.pos,
    {
        let start = self.pos;
        while !self.is_end() && self.peek() != Some('\n') && self.peek() != Some('\r')
            invariant
                self.wf(),
                self@ == old(self)@.set_pos(self@.pos),
                start == old(self)@.pos,
                start <= self@.pos,
                line_end(self@.input, self@.pos) == line_end(old(self)@.input, start as nat),
            decreases self@.input.len() - self@.pos,
        {
            self.advance(1);
        }
        string_of_range(&self.chars, start, self.pos)
    }

    /// Check if we're at end of line (or end of input).
    pub fn at_end_of_line(&mut self) -> (r: bool)
        requires
            old(self).wf(),
        ensures
            final(self).wf(),
            final(self)@ == old(self)@,
            r == old(self)@.at_end_of_line(),
    {
        self.is_end() || self.peek() == Some('\n') || self.peek() == Some('\r')
    }

    /// Parse until encountering one of the given characters, returning the text consumed.
    pub fn parse_until_char(&mut self, end_chars: &[char]) -> (r: Option<String>)
        requires
            old(self).wf(),
        ensures
            final(self).wf(),
            (final(self)@, opt_chars(r)) == old(self)@.parse_until_char(end_chars@),
            old(self)@.pos <= final(self)@.pos,
    {
        let start = self.pos;
        while !self.is_end()
            invariant
                self.wf(),
                self@ == old(self)@.set_pos(self@.pos),
                start == old(self)@.pos,
                start <= self@.pos,
                until_chars_end(self@.input, self@.pos, end_chars@) == until_chars_end(
                    old(self)@.input,
                    start as nat,
                    end_chars@,
                ),
            ensures
                until_chars_end(self@.input, self@.pos, end_chars@) == self@.pos,
            decreases self@.input.len() - self@.pos,
        {
            let ch = self.chars[self.pos];
            if slice_contains(end_chars, ch) {
                break;
            }
            self.advance(1);
        }
        if self.pos > start {
            Some(string_of_range(&self.chars, start, self.pos))
        } else {
            None
        }
    }

    /// Parse characters from a given set until none remain.
    pub fn parse_characters_from_string(&mut self, char_set: &str) -> (r: Option<String>)
        requires
            old(self).wf(),
        ensures
            final(self).wf(),
            (final(self)@, opt_chars(r)) == old(self)@.parse_characters_from_string(char_set@),
            old(self)@.pos <= final(self)@.pos,
    {
        let start = self.pos;
        while !self.is_end()
            invariant
                self.wf(),
                self@ == old(self)@.set_pos(self@.pos),
                start == old(self)@.pos,
                start <= self@.pos,
                chars_in_end(self@.input, self@.pos, char_set@) == chars_in_end(
                    old(self)@.input,
                    start as nat,
                    char_set@,
                ),
            ensures
                chars_in_end(self@.input, self@.pos, char_set@) == self@.pos,
            decreases self@.input.len() - self@.pos,
        {
            let ch = self.chars[self.pos];
            if crate::text::str_contains_char(char_set, ch) {
                self.advance(1);
            } else {
                break;
            }
        }
        if self.pos > start {
            Some(string_of_range(&self.chars, start, self.pos))
        } else {
            None
        }
    }

    // ---- Error handling ----

    fn push_error(&mut self, e: InkError)
        requires
            old(self).wf(),
        ensures
            final(self).wf(),
            final(self)@ == (ParserView { errors: old(self)@.errors.push(e@), ..old(self)@ }),
    {
        self.errors.push(e);
        proof {
            assert(errors_view(self.errors@) =~= errors_view(old(self).errors@).push(e@));
        }
    }

    pub fn error(&mut self, message: &str)
        requires
            old(self).wf(),
        ensures
            final(self).wf(),
            final(self)@ == old(self)@.error(message@),
    {
        let loc = self.current_source_location();
        self.push_error(InkError::error(message, loc));
    }

    pub fn warning(&mut self, message: &str)
        requires
            old(self).wf(),
        ensures
            final(self).wf(),
            final(self)@ == old(self)@.warning(message@),
    {
        let loc = self.current_source_location();
        self.push_error(InkError::warning(message, loc));
    }

    pub fn errors(&self) -> (r: &[InkError])
        requires
            self.wf(),
        ensures
            errors_view(r@) == self@.errors,
    {
        self.errors.as_slice()
    }

    pub fn has_errors(&self) -> (r: bool)
        requires
            self.wf(),
        ensures
            r == exists|i: int|
                0 <= i < self@.errors.len() && (#[trigger] self@.errors[i]).error_type
                    == ErrorType::Error,
    {
        let mut i: usize = 0;
        while i < self.errors.len()
            invariant
                i <= self.errors.len(),
                forall|j: int| 0 <= j < i ==> (#[trigger] self@.errors[j]).error_type != ErrorType::Error,
            decreases self.errors.len() - i,
        {
            if self.errors[i].is_error() {
                assert(self@.errors[i as int].error_type == ErrorType::Error);
                return true;
            }
            i = i + 1;
        }
        false
    }

    pub fn take_errors(&mut self) -> (r: Vec<InkError>)
        requires
            old(self).wf(),
        ensures
            final(self).wf(),
            errors_view(r@) == old(self)@.errors,
            final(self)@ == (ParserView { errors: Seq::empty(), ..old(self)@ }),
    {
        let mut taken: Vec<InkError> = Vec::new();
        std::mem::swap(&mut taken, &mut self.errors);
        proof {
            assert(errors_view(self.errors@) =~= Seq::<InkErrorView>::empty());
        }
        taken
    }

    // ---- Identifier parsing ----

    /// Parse an ink identifier: starts with a letter, underscore, or CJK character,
    /// followed by letters, digits, underscores, or CJK characters.
    pub fn parse_identifier(&mut self) -> (r: Option<String>)
        requires
            old(self).wf(),
        ensures
            final(self).wf(),
            (final(self)@, opt_chars(r)) == old(self)@.parse_identifier(),
            old(self)@.pos <= final(self)@.pos,
            r is Some ==> old(self)@.pos < final(self)@.pos,
    {
        self.parse_whitespace();
        if self.is_end() {
            return None;
        }
        let start = self.pos;
        let first = self.chars[self.pos];
        if !Self::is_identifier_start(first) {
            return None;
        }
        self.advance(1);
        while !self.is_end()
            invariant
                self.wf(),
                self@.input == old(self)@.input,
                self@.filename == old(self)@.filename,
                self@.errors == old(self)@.errors,
                self@.rules == old(self)@.rules,
                start < self@.pos,
                ident_end(self@.input, self@.pos) == ident_end(self@.input, (start + 1) as nat),
            ensures
                ident_end(self@.input, self@.pos) == self@.pos,
            decreases self@.input.len() - self@.pos,
        {
            let ch = self.chars[self.pos];
            if Self::is_identifier_continue(ch) {
                self.advance(1);
            } else {
                break;
            }
        }
        Some(string_of_range(&self.chars, start, self.pos))
    }

    fn is_identifier_start(ch: char) -> (r: bool)
        ensures
            r == is_identifier_start(ch),
    {
        ('a' <= ch && ch <= 'z') || ('A' <= ch && ch <= 'Z') || ch == '_' || ('\u{4E00}' <= ch
            && ch <= '\u{9FFF}')  // CJK Unified Ideographs
         || ('\u{3040}' <= ch && ch <= '\u{309F}')  // Hiragana
         || ('\u{30A0}' <= ch && ch <= '\u{30FF}')  // Katakana

    }

    fn is_identifier_continue(ch: char) -> (r: bool)
        ensures
            r == is_identifier_continue(ch),
    {
        Self::is_identifier_start(ch) || ('0' <= ch && ch <= '9')
    }

    // ---- Convenience ----

    /// Parse `s`; report `Expected <description>` when it is not there.
    pub fn expect_string(&mut self, s: &str, description: &str) -> (r: Option<()>)
        requires
            old(self).wf(),
        ensures
            final(self).wf(),
            (final(self)@, r is Some) == old(self)@.expect_string(s@, description@),
            old(self)@.pos <= final(self)@.pos,
            r is Some ==> final(self)@.pos == old(self)@.pos + s@.len(),
    {
        match self.parse_string(s) {
            Some(v) => Some(v),
            None => {
                let message = crate::text::concat_strs("Expected ", description);
                self.error(message.as_str());
                None
            },
        }
    }
}

fn is_digit_char(c: Option<char>) -> (r: bool)
    ensures
        r == (c is Some && is_ascii_digit(c->0)),
{
    match c {
        Some(ch) => '0' <= ch && ch <= '9',
        None => false,
    }
}

fn slice_contains(s: &[char], c: char) -> (r: bool)
    ensures
        r == s@.contains(c),
{
    let mut i: usize = 0;
    while i < s.len()
        invariant
            i <= s.len(),
            forall|j: int| 0 <= j < i ==> s@[j] != c,
        decreases s.len() - i,
    {
        if s[i] == c {
            return true;
        }
        i = i + 1;
    }
    false
}

/// The characters of an optional string.
pub open spec fn opt_chars(s: Option<String>) -> Option<Seq<char>> {
    match s {
        Some(x) => Some(x@),
        None => None,
    }
}

// ---------------------------------------------------------------------------
// Combinators
// ---------------------------------------------------------------------------

impl Parser {
    /// Runs a rule that may fail; nothing is reported when it does. The
    /// result and the parser are those of the rule applied to this parser.
    pub fn optional<T, F: FnOnce(&mut Parser) -> Option<T>>(&mut self, rule: F) -> (r: Option<T>)
        requires
            forall|q: &mut Parser| *q == *old(self) ==> call_requires(rule, (q,)),
        ensures
            exists|q: &mut Parser|
                *q == *old(self) && *final(q) == *final(self) && call_ensures(rule, (q,), r),
    {
        rule(self)
    }

    /// Runs a rule that should succeed: its result and parser state, and
    /// when it gives nothing the error `Expected <description>` is reported
    /// at the position where it stopped.
    pub fn expect<T, F: FnOnce(&mut Parser) -> Option<T>>(&mut self, rule: F, description: &str) -> (r:
        Option<T>)
        requires
            forall|q: &mut Parser| *q == *old(self) ==> call_requires(rule, (q,)),
            forall|q: &mut Parser, o: Option<T>|
                #![trigger call_ensures(rule, (q,), o)]
                *q == *old(self) && call_ensures(rule, (q,), o) ==> final(q).wf(),
        ensures
            final(self).wf(),
            exists|q: &mut Parser|
                #![trigger call_ensures(rule, (q,), r)]
                *q == *old(self) && call_ensures(rule, (q,), r) && if r is Some {
                    *final(self) == *final(q)
                } else {
                    final(self)@ == final(q)@.error("Expected "@ + description@)
                },
    {
        match rule(self) {
            Some(val) => Some(val),
            None => {
                self.error(crate::text::concat_strs("Expected ", description).as_str());
                None
            },
        }
    }
}

} // verus!
