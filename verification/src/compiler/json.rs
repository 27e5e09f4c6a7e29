//! JSON values, their compact text, and their pretty rendering through
//! serde_json.

use vstd::prelude::*;
use crate::compiler::runtime_types::{find_key, named_insert};
use crate::ink_parser::parser::opt_chars;
use crate::text::{decimal, push_decimal_u64, str_equal};

verus! {

/// A JSON value. Objects keep their entries in insertion order, one per
/// key; numbers are integers or decimal literals.
#[derive(Debug)]
pub enum JsonValue {
    Null,
    Bool(bool),
    Int(i64),
    UInt(u64),
    /// A number written as a JSON number literal.
    Float(String),
    Str(String),
    Array(Vec<JsonValue>),
    Object(Vec<(String, JsonValue)>),
}

#[verifier::ext_equal]
pub enum JsonView {
    Null,
    Bool(bool),
    Int(int),
    Float(Seq<char>),
    Str(Seq<char>),
    Array(Seq<JsonView>),
    Object(Seq<(Seq<char>, JsonView)>),
}

pub open spec fn json_view(v: JsonValue) -> JsonView
    decreases v,
{
    match v {
        JsonValue::Null => JsonView::Null,
        JsonValue::Bool(b) => JsonView::Bool(b),
        JsonValue::Int(n) => JsonView::Int(n as int),
        JsonValue::UInt(n) => JsonView::Int(n as int),
        JsonValue::Float(t) => JsonView::Float(t@),
        JsonValue::Str(s) => JsonView::Str(s@),
        JsonValue::Array(items) => JsonView::Array(jsons_view(items@)),
        JsonValue::Object(entries) => JsonView::Object(entries_view(entries@)),
    }
}

pub open spec fn jsons_view(s: Seq<JsonValue>) -> Seq<JsonView>
    decreases s,
{
    if s.len() == 0 {
        Seq::empty()
    } else {
        jsons_view(s.drop_last()).push(json_view(s.last()))
    }
}

pub open spec fn entries_view(s: Seq<(String, JsonValue)>) -> Seq<(Seq<char>, JsonView)>
    decreases s,
{
    if s.len() == 0 {
        Seq::empty()
    } else {
        entries_view(s.drop_last()).push((s.last().0@, json_view(s.last().1)))
    }
}

impl View for JsonValue {
    type V = JsonView;

    open spec fn view(&self) -> JsonView {
        json_view(*self)
    }
}

pub proof fn lemma_jsons_view_push(s: Seq<JsonValue>, x: JsonValue)
    ensures
        jsons_view(s.push(x)) == jsons_view(s).push(json_view(x)),
{
    assert(s.push(x).drop_last() =~= s);
}

pub proof fn lemma_entries_view_push(s: Seq<(String, JsonValue)>, x: (String, JsonValue))
    ensures
        entries_view(s.push(x)) == entries_view(s).push((x.0@, json_view(x.1))),
{
    assert(s.push(x).drop_last() =~= s);
}

pub proof fn lemma_entries_view_len(s: Seq<(String, JsonValue)>)
    ensures
        entries_view(s).len() == s.len(),
        forall|i: int| 0 <= i < s.len() ==> (#[trigger] entries_view(s)[i]).0 == s[i].0@,
    decreases s.len(),
{
    if s.len() > 0 {
        lemma_entries_view_len(s.drop_last());
    }
}

pub proof fn lemma_entries_view_update(s: Seq<(String, JsonValue)>, i: int, x: (String, JsonValue))
    requires
        0 <= i < s.len(),
    ensures
        entries_view(s.update(i, x)) == entries_view(s).update(i, (x.0@, json_view(x.1))),
    decreases s.len(),
{
    lemma_entries_view_len(s);
    lemma_entries_view_len(s.update(i, x));
    if i == s.len() - 1 {
        assert(s.update(i, x).drop_last() =~= s.drop_last());
    } else {
        assert(s.update(i, x).drop_last() =~= s.drop_last().update(i, x));
        lemma_entries_view_update(s.drop_last(), i, x);
    }
    assert(entries_view(s.update(i, x)) =~= entries_view(s).update(i, (x.0@, json_view(x.1))));
}

/// An array from its items.
pub fn json_array(items: Vec<JsonValue>) -> (r: JsonValue)
    ensures
        r@ == JsonView::Array(jsons_view(items@)),
{
    JsonValue::Array(items)
}

/// Appends an item to an array under construction.
pub fn push_item(items: &mut Vec<JsonValue>, v: JsonValue)
    ensures
        jsons_view(final(items)@) == jsons_view(old(items)@).push(v@),
{
    let ghost before = items@;
    items.push(v);
    proof {
        assert(items@ =~= before.push(items@.last()));
        lemma_jsons_view_push(before, items@.last());
    }
}

/// Appends an entry to an object under construction (the caller keeps keys
/// distinct).
pub fn push_entry(entries: &mut Vec<(String, JsonValue)>, key: &str, v: JsonValue)
    ensures
        entries_view(final(entries)@) == entries_view(old(entries)@).push((key@, v@)),
{
    let ghost before = entries@;
    entries.push((String::from_str(key), v));
    proof {
        assert(entries@ =~= before.push(entries@.last()));
        lemma_entries_view_push(before, entries@.last());
    }
}

/// Inserts an entry into an object, replacing the value under the same key.
pub fn insert_entry(entries: &mut Vec<(String, JsonValue)>, key: &str, v: JsonValue)
    ensures
        entries_view(final(entries)@) == named_insert(entries_view(old(entries)@), key@, v@),
{
    let ghost before = entries@;
    proof {
        lemma_entries_view_len(before);
        crate::compiler::runtime_types::lemma_find_key(entries_view(before), key@);
    }
    let mut i: usize = 0;
    while i < entries.len()
        invariant
            entries@ == before,
            before == old(entries)@,
            i <= before.len(),
            entries_view(before).len() == before.len(),
            forall|j: int| 0 <= j < before.len() ==> (#[trigger] entries_view(before)[j]).0 == before[j].0@,
            forall|j: int| 0 <= j < i ==> (#[trigger] entries_view(before)[j]).0 != key@,
            match find_key(entries_view(before), key@) {
                Some(k) => 0 <= k < before.len() && entries_view(before)[k].0 == key@ && forall|j: int|
                    0 <= j < k ==> (#[trigger] entries_view(before)[j]).0 != key@,
                None => forall|j: int|
                    0 <= j < before.len() ==> (#[trigger] entries_view(before)[j]).0 != key@,
            },
        decreases entries.len() - i,
    {
        assert(entries_view(before)[i as int].0 == before[i as int].0@);
        if str_equal(entries[i].0.as_str(), key) {
            proof {
                match find_key(entries_view(before), key@) {
                    Some(k) => {
                        if k < i {
                            assert(entries_view(before)[k].0 != key@);
                        } else if k > i {
                            assert(entries_view(before)[i as int].0 != key@);
                        }
                    },
                    None => {
                        assert(entries_view(before)[i as int].0 != key@);
                    },
                }
                assert(find_key(entries_view(before), key@) == Some(i as int));
            }
            entries.set(i, (String::from_str(key), v));
            proof {
                lemma_entries_view_update(before, i as int, entries@[i as int]);
                assert(entries@ =~= before.update(i as int, entries@[i as int]));
            }
            return;
        }
        i = i + 1;
    }
    push_entry(entries, key, v);
}

// ---------------------------------------------------------------------------
// Compact text
// ---------------------------------------------------------------------------

/// The hexadecimal digit for a value below sixteen.
pub open spec fn hex_digit(d: nat) -> char {
    if d < 10 {
        crate::text::digit_char(d)
    } else if d == 10 {
        'a'
    } else if d == 11 {
        'b'
    } else if d == 12 {
        'c'
    } else if d == 13 {
        'd'
    } else if d == 14 {
        'e'
    } else {
        'f'
    }
}

/// How a character stands in a JSON string: quotes and backslashes
/// escaped, control characters as `\u00XX`, anything else as itself.
pub open spec fn escape_char(c: char) -> Seq<char> {
    if c == '"' {
        seq!['\\', '"']
    } else if c == '\\' {
        seq!['\\', '\\']
    } else if (c as u32) < 0x20 {
        seq!['\\', 'u', '0', '0', hex_digit((c as u32 / 16) as nat), hex_digit((c as u32 % 16) as nat)]
    } else {
        seq![c]
    }
}

pub open spec fn escape_text(s: Seq<char>) -> Seq<char>
    decreases s.len(),
{
    if s.len() == 0 {
        Seq::empty()
    } else {
        escape_text(s.drop_last()) + escape_char(s.last())
    }
}

/// A JSON string literal.
pub open spec fn quoted(s: Seq<char>) -> Seq<char> {
    seq!['"'] + escape_text(s) + seq!['"']
}

/// An integer in decimal, with `-` when negative.
pub open spec fn int_text(n: int) -> Seq<char> {
    if n < 0 {
        seq!['-'] + decimal((-n) as nat)
    } else {
        decimal(n as nat)
    }
}

/// The compact JSON text of a value: no whitespace, entries and items
/// separated by `,`.
pub open spec fn json_text(v: JsonView) -> Seq<char>
    decreases v,
{
    match v {
        JsonView::Null => "null"@,
        JsonView::Bool(b) => if b {
            "true"@
        } else {
            "false"@
        },
        JsonView::Int(n) => int_text(n),
        JsonView::Float(t) => t,
        JsonView::Str(s) => quoted(s),
        JsonView::Array(items) => seq!['['] + items_text(items) + seq![']'],
        JsonView::Object(entries) => seq!['{'] + entries_text(entries) + seq!['}'],
    }
}

pub open spec fn items_text(items: Seq<JsonView>) -> Seq<char>
    decreases items,
{
    if items.len() == 0 {
        Seq::empty()
    } else if items.len() == 1 {
        json_text(items[0])
    } else {
        items_text(items.drop_last()) + seq![','] + json_text(items.last())
    }
}

pub open spec fn entries_text(entries: Seq<(Seq<char>, JsonView)>) -> Seq<char>
    decreases entries,
{
    if entries.len() == 0 {
        Seq::empty()
    } else if entries.len() == 1 {
        quoted(entries[0].0) + seq![':'] + json_text(entries[0].1)
    } else {
        entries_text(entries.drop_last()) + seq![','] + quoted(entries.last().0) + seq![':']
            + json_text(entries.last().1)
    }
}

fn hex_of(d: u32) -> (c: char)
    requires
        d < 16,
    ensures
        c == hex_digit(d as nat),
{
    if d < 10 {
        crate::text::digit_of(d as usize)
    } else if d == 10 {
        'a'
    } else if d == 11 {
        'b'
    } else if d == 12 {
        'c'
    } else if d == 13 {
        'd'
    } else if d == 14 {
        'e'
    } else {
        'f'
    }
}

fn push_quoted(out: &mut String, s: &str)
    ensures
        final(out)@ == old(out)@ + quoted(s@),
{
    let chars = crate::text::chars_of(s);
    out.push('"');
    let ghost base = out@;
    let mut i: usize = 0;
    while i < chars.len()
        invariant
            chars@ == s@,
            i <= chars.len(),
            out@ == base + escape_text(s@.take(i as int)),
        decreases chars.len() - i,
    {
        let c = chars[i];
        let ghost before = out@;
        if c == '"' {
            out.push('\\');
            out.push('"');
        } else if c == '\\' {
            out.push('\\');
            out.push('\\');
        } else if (c as u32) < 0x20 {
            let v = c as u32;
            out.push('\\');
            out.push('u');
            out.push('0');
            out.push('0');
            out.push(hex_of(v / 16));
            out.push(hex_of(v % 16));
        } else {
            out.push(c);
        }
        proof {
            assert(s@.take(i + 1).drop_last() =~= s@.take(i as int));
            assert(out@ =~= before + escape_char(c));
        }
        i = i + 1;
    }
    assert(s@.take(i as int) =~= s@);
    out.push('"');
    assert(out@ =~= old(out)@ + quoted(s@));
}

pub fn push_int(out: &mut String, n: i64)
    ensures
        final(out)@ == old(out)@ + int_text(n as int),
{
    if n < 0 {
        out.push('-');
        let m: u64 = if n == i64::MIN {
            9223372036854775808u64
        } else {
            (-n) as u64
        };
        push_decimal_u64(out, m);
        assert(out@ =~= old(out)@ + int_text(n as int));
    } else {
        push_decimal_u64(out, n as u64);
    }
}

/// Appends the compact JSON text of `v`.
pub fn write_json(v: &JsonValue, out: &mut String)
    ensures
        final(out)@ == old(out)@ + json_text(v@),
    decreases v,
{
    match v {
        JsonValue::Null => out.append("null"),
        JsonValue::Bool(b) => {
            if *b {
                out.append("true");
            } else {
                out.append("false");
            }
        },
        JsonValue::Int(n) => push_int(out, *n),
        JsonValue::UInt(n) => {
            push_decimal_u64(out, *n);
        },
        JsonValue::Float(t) => out.append(t.as_str()),
        JsonValue::Str(s) => push_quoted(out, s.as_str()),
        JsonValue::Array(items) => {
            out.push('[');
            write_items(items, out);
            out.push(']');
            assert(out@ =~= old(out)@ + json_text(v@));
        },
        JsonValue::Object(entries) => {
            out.push('{');
            write_entries(entries, out);
            out.push('}');
            assert(out@ =~= old(out)@ + json_text(v@));
        },
    }
}

fn write_items(items: &Vec<JsonValue>, out: &mut String)
    ensures
        final(out)@ == old(out)@ + items_text(jsons_view(items@)),
    decreases items,
{
    let ghost base = out@;
    let mut i: usize = 0;
    assert(base + items_text(jsons_view(items@.take(0))) =~= base) by {
        assert(jsons_view(items@.take(0)) =~= Seq::<JsonView>::empty());
    }
    while i < items.len()
        invariant
            i <= items@.len(),
            out@ == base + items_text(jsons_view(items@.take(i as int))),
        decreases items.len() - i,
    {
        if i > 0 {
            out.push(',');
        }
        write_json(&items[i], out);
        proof {
            assert(items@.take(i + 1) =~= items@.take(i as int).push(items@[i as int]));
            lemma_jsons_view_push(items@.take(i as int), items@[i as int]);
            let w = jsons_view(items@.take(i + 1));
            assert(w.drop_last() =~= jsons_view(items@.take(i as int)));
            if i == 0 {
                assert(jsons_view(items@.take(0)) =~= Seq::<JsonView>::empty());
                assert(w[0] == json_view(items@[0]));
            }
            assert(out@ =~= base + items_text(w));
        }
        i = i + 1;
    }
    assert(items@.take(i as int) =~= items@);
}

fn write_entries(entries: &Vec<(String, JsonValue)>, out: &mut String)
    ensures
        final(out)@ == old(out)@ + entries_text(entries_view(entries@)),
    decreases entries,
{
    let ghost base = out@;
    let mut i: usize = 0;
    assert(base + entries_text(entries_view(entries@.take(0))) =~= base) by {
        assert(entries_view(entries@.take(0)) =~= Seq::<(Seq<char>, JsonView)>::empty());
    }
    while i < entries.len()
        invariant
            i <= entries@.len(),
            out@ == base + entries_text(entries_view(entries@.take(i as int))),
        decreases entries.len() - i,
    {
        if i > 0 {
            out.push(',');
        }
        push_quoted(out, entries[i].0.as_str());
        out.push(':');
        write_json(&entries[i].1, out);
        proof {
            assert(entries@.take(i + 1) =~= entries@.take(i as int).push(entries@[i as int]));
            lemma_entries_view_push(entries@.take(i as int), entries@[i as int]);
            let w = entries_view(entries@.take(i + 1));
            assert(w.drop_last() =~= entries_view(entries@.take(i as int)));
            if i == 0 {
                assert(entries_view(entries@.take(0)) =~= Seq::<(Seq<char>, JsonView)>::empty());
                assert(w[0] == (entries@[0].0@, json_view(entries@[0].1)));
            }
            assert(out@ =~= base + entries_text(w));
        }
        i = i + 1;
    }
    assert(entries@.take(i as int) =~= entries@);
}

/// The compact JSON text of `v`.
pub fn to_compact_text(v: &JsonValue) -> (r: String)
    ensures
        r@ == json_text(v@),
{
    let mut out = String::new();
    write_json(v, &mut out);
    assert(out@ =~= json_text(v@));
    out
}

// ---------------------------------------------------------------------------
// Pretty text
// ---------------------------------------------------------------------------

/// What serde_json renders with `to_string_pretty` for the JSON document
/// `compact`, read into a `serde_json::Value` with no limit on nesting, or
/// nothing where serde_json rejects the text.
pub uninterp spec fn pretty_json_text(compact: Seq<char>) -> Option<Seq<char>>;

/// `serde_json::to_string_pretty`, given the document as JSON text: the
/// text is read by a `serde_json::Deserializer` with its nesting limit
/// turned off (numbers read exactly, by the `float_roundtrip` feature) into
/// a `serde_json::Value` (objects with keys in sorted order), checked for
/// trailing characters, and rendered with two-space indentation. The result
/// is named, not described: it is whatever those calls give for `compact`,
/// and nothing when the text is not JSON.
#[verifier::external_body]
fn pretty_json(compact: &str) -> (r: Option<String>)
    ensures
        opt_chars(r) == pretty_json_text(compact@),
{
    let mut de = serde_json::Deserializer::from_str(compact);
    de.disable_recursion_limit();
    match <serde_json::Value as serde::Deserialize>::deserialize(&mut de) {
        Ok(v) => match de.end() {
            Ok(()) => serde_json::to_string_pretty(&v).ok(),
            Err(_) => None,
        },
        Err(_) => None,
    }
}

/// The text a JSON value is written as: the pretty rendering of its
/// compact text, or the compact text itself where that rendering fails.
pub open spec fn json_output_text(v: JsonView) -> Seq<char> {
    match pretty_json_text(json_text(v)) {
        Some(t) => t,
        None => json_text(v),
    }
}

/// Serialize a JSON value with indentation.
pub fn to_pretty_text(v: &JsonValue) -> (r: String)
    ensures
        r@ == json_output_text(v@),
{
    let compact = to_compact_text(v);
    match pretty_json(compact.as_str()) {
        Some(t) => t,
        None => compact,
    }
}

} // verus!
