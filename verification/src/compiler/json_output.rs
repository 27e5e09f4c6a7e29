//! Serialization of runtime objects to ink JSON.
//!
//! Containers are arrays whose last element is `null` or a dict of named
//! sub-containers and `#f` (flags), `#n` (name), `#v`, `#t`; strings carry
//! a `^` prefix; numbers are plain; control commands are strings; special
//! objects use dict notation: `{"->": "path"}`, `{"VAR=": "name"}`.

use vstd::prelude::*;
use crate::compiler::json::{JsonValue, JsonView, entries_view, insert_entry, json_array, json_output_text, jsons_view, push_entry, push_item, to_pretty_text};
use crate::compiler::runtime_types::{ChoicePoint, ChoicePointView, Container, ContainerView, Divert, DivertView, InkObject, InkObjectView, ListDefinition, ListDefinitionView, Story, StoryView, Tag, VariableAssignment, VariableAssignmentView, VariableReference, VariableReferenceView, command_name, find_key, named_insert, native_name, objs_view, named_view, plain_divert};

verus! {

/// A decimal literal as a JSON number: a missing integer part becomes `0`,
/// and so does a missing fraction after a trailing `.`.
pub open spec fn json_number(t: Seq<char>) -> Seq<char> {
    let a = if t.len() >= 2 && t[0] == '-' && t[1] == '.' {
        seq!['-', '0'] + t.skip(1)
    } else if t.len() >= 1 && t[0] == '.' {
        seq!['0'] + t
    } else {
        t
    };
    if a.len() > 0 && a.last() == '.' {
        a.push('0')
    } else {
        a
    }
}

fn json_number_of(t: &str) -> (r: String)
    ensures
        r@ == json_number(t@),
{
    let chars = crate::text::chars_of(t);
    let mut r = String::new();
    let start: usize;
    if chars.len() >= 2 && chars[0] == '-' && chars[1] == '.' {
        r.push('-');
        r.push('0');
        start = 1;
    } else if chars.len() >= 1 && chars[0] == '.' {
        r.push('0');
        start = 0;
    } else {
        start = 0;
    }
    let ghost head = r@;
    let mut i = start;
    while i < chars.len()
        invariant
            chars@ == t@,
            start <= i <= chars.len(),
            r@ == head + t@.subrange(start as int, i as int),
        decreases chars.len() - i,
    {
        r.push(chars[i]);
        assert(t@.subrange(start as int, i + 1) =~= t@.subrange(start as int, i as int).push(chars@[i as int]));
        i = i + 1;
    }
    proof {
        if start == 1 {
            assert(t@.subrange(1, t@.len() as int) =~= t@.skip(1));
        } else {
            assert(t@.subrange(0, t@.len() as int) =~= t@);
        }
    }
    let ghost a = r@;
    let n = chars.len();
    let ends_with_dot = n > 0 && chars[n - 1] == '.';
    assert(a.len() > 0 && a.last() == '.' <==> ends_with_dot);
    if ends_with_dot {
        r.push('0');
    }
    r
}

/// The entries of an object (none for other values).
pub open spec fn object_entries(v: JsonView) -> Seq<(Seq<char>, JsonView)> {
    match v {
        JsonView::Object(e) => e,
        _ => Seq::empty(),
    }
}

// ---------------------------------------------------------------------------
// Special objects
// ---------------------------------------------------------------------------

/// A divert: `{"x()": name, "exArgs": n}` for externals, `{"f()": path}`
/// for function calls, `{"->t->": path}` for tunnels, `{"->": name, "var":
/// true}` for variable diverts, `{"->": path}` otherwise; `"c": true` when
/// conditional.
pub open spec fn divert_json(d: DivertView) -> JsonView {
    let base: Seq<(Seq<char>, JsonView)> = if d.is_external {
        (match d.target {
            Some(t) => seq![("x()"@, JsonView::Str(t))],
            None => Seq::empty(),
        }) + (match d.external_args {
            Some(n) => seq![("exArgs"@, JsonView::Int(n as int))],
            None => Seq::empty(),
        })
    } else if d.is_function_call {
        match d.target {
            Some(t) => seq![("f()"@, JsonView::Str(t))],
            None => Seq::empty(),
        }
    } else if d.is_tunnel {
        seq![
            ("->t->"@, match d.target {
                Some(t) => JsonView::Str(t),
                None => JsonView::Null,
            }),
        ]
    } else if d.is_variable {
        (match d.target {
            Some(t) => seq![("->"@, JsonView::Str(t))],
            None => Seq::empty(),
        }) + seq![("var"@, JsonView::Bool(true))]
    } else {
        seq![
            ("->"@, match d.target {
                Some(t) => JsonView::Str(t),
                None => JsonView::Null,
            }),
        ]
    };
    JsonView::Object(
        if d.is_conditional {
            base.push(("c"@, JsonView::Bool(true)))
        } else {
            base
        },
    )
}

fn opt_str_json(t: &Option<String>) -> (r: JsonValue)
    ensures
        r@ == match crate::compiler::runtime_types::opt_string_view(*t) {
            Some(s) => JsonView::Str(s),
            None => JsonView::Null,
        },
{
    match t {
        Some(s) => JsonValue::Str(String::from_str(s.as_str())),
        None => JsonValue::Null,
    }
}

fn serialize_divert(d: &Divert) -> (r: JsonValue)
    ensures
        r@ == divert_json(d@),
{
    let mut m: Vec<(String, JsonValue)> = Vec::new();
    assert(entries_view(m@) =~= Seq::<(Seq<char>, JsonView)>::empty());
    if d.is_external {
        // External function call: {"x()": "name", "exArgs": n}
        if let Some(target) = &d.target {
            push_entry(&mut m, "x()", JsonValue::Str(String::from_str(target.as_str())));
        }
        if let Some(args) = d.external_args {
            push_entry(&mut m, "exArgs", JsonValue::Int(args as i64));
        }
    } else if d.is_function_call {
        // Function call (with or without tunnel semantics): {"f()": "path"}
        if let Some(target) = &d.target {
            push_entry(&mut m, "f()", JsonValue::Str(String::from_str(target.as_str())));
        }
    } else if d.is_tunnel {
        // Tunnel: {"->t->": "path"}
        push_entry(&mut m, "->t->", opt_str_json(&d.target));
    } else if d.is_variable {
        // Variable divert: {"->": "varname", "var": true}
        if let Some(target) = &d.target {
            push_entry(&mut m, "->", JsonValue::Str(String::from_str(target.as_str())));
        }
        push_entry(&mut m, "var", JsonValue::Bool(true));
    } else {
        // Standard divert: {"->": "path"}
        push_entry(&mut m, "->", opt_str_json(&d.target));
    }
    if d.is_conditional {
        push_entry(&mut m, "c", JsonValue::Bool(true));
    }
    assert(entries_view(m@) =~= object_entries(divert_json(d@)));
    let r = JsonValue::Object(m);
    assert(r@ =~= divert_json(d@));
    r
}

/// `{"VAR=": name, "re": true}` for a global, `{"temp=": name}` otherwise.
pub open spec fn assignment_json(a: VariableAssignmentView) -> JsonView {
    if a.is_global {
        JsonView::Object(seq![("VAR="@, JsonView::Str(a.varname)), ("re"@, JsonView::Bool(true))])
    } else {
        JsonView::Object(seq![("temp="@, JsonView::Str(a.varname))])
    }
}

fn serialize_variable_assignment(a: &VariableAssignment) -> (r: JsonValue)
    ensures
        r@ == assignment_json(a@),
{
    let mut m: Vec<(String, JsonValue)> = Vec::new();
    assert(entries_view(m@) =~= Seq::<(Seq<char>, JsonView)>::empty());
    let key = if a.is_global { "VAR=" } else { "temp=" };
    push_entry(&mut m, key, JsonValue::Str(String::from_str(a.varname.as_str())));
    if a.is_global {
        push_entry(&mut m, "re", JsonValue::Bool(true));
    }
    assert(entries_view(m@) =~= object_entries(assignment_json(a@)));
    let r = JsonValue::Object(m);
    assert(r@ =~= assignment_json(a@));
    r
}

/// `{"CNT?": name}` for a read count, `{"VAR?": name}` otherwise; with
/// `"ci"` when the context index is known.
pub open spec fn reference_json(v: VariableReferenceView) -> JsonView {
    let first = (
        if v.is_read_count {
            "CNT?"@
        } else {
            "VAR?"@
        },
        JsonView::Str(v.varname),
    );
    JsonView::Object(
        if v.context_index >= 0 {
            seq![first, ("ci"@, JsonView::Int(v.context_index as int))]
        } else {
            seq![first]
        },
    )
}

fn serialize_variable_reference(v: &VariableReference) -> (r: JsonValue)
    ensures
        r@ == reference_json(v@),
{
    let mut m: Vec<(String, JsonValue)> = Vec::new();
    assert(entries_view(m@) =~= Seq::<(Seq<char>, JsonView)>::empty());
    let key = if v.is_read_count { "CNT?" } else { "VAR?" };
    push_entry(&mut m, key, JsonValue::Str(String::from_str(v.varname.as_str())));
    if v.context_index >= 0 {
        push_entry(&mut m, "ci", JsonValue::Int(v.context_index as i64));
    }
    assert(entries_view(m@) =~= object_entries(reference_json(v@)));
    let r = JsonValue::Object(m);
    assert(r@ =~= reference_json(v@));
    r
}

/// `{"*": target, "flg": flags}`.
pub open spec fn choice_point_json(c: ChoicePointView) -> JsonView {
    JsonView::Object(
        seq![("*"@, JsonView::Str(c.target_path)), ("flg"@, JsonView::Int(c.flags as int))],
    )
}

fn serialize_choice_point(c: &ChoicePoint) -> (r: JsonValue)
    ensures
        r@ == choice_point_json(c@),
{
    let mut m: Vec<(String, JsonValue)> = Vec::new();
    assert(entries_view(m@) =~= Seq::<(Seq<char>, JsonView)>::empty());
    push_entry(&mut m, "*", JsonValue::Str(String::from_str(c.target_path.as_str())));
    push_entry(&mut m, "flg", JsonValue::UInt(c.flags.value() as u64));
    assert(entries_view(m@) =~= object_entries(choice_point_json(c@)));
    let r = JsonValue::Object(m);
    assert(r@ =~= choice_point_json(c@));
    r
}

/// `{"#": text}`.
pub open spec fn tag_json(t: Seq<char>) -> JsonView {
    JsonView::Object(seq![("#"@, JsonView::Str(t))])
}

fn serialize_tag(t: &Tag) -> (r: JsonValue)
    ensures
        r@ == tag_json(t.text@),
{
    let mut m: Vec<(String, JsonValue)> = Vec::new();
    assert(entries_view(m@) =~= Seq::<(Seq<char>, JsonView)>::empty());
    push_entry(&mut m, "#", JsonValue::Str(String::from_str(t.text.as_str())));
    let r = JsonValue::Object(m);
    assert(r@ =~= tag_json(t.text@));
    r
}

/// `{"VAR=": name, "initialValue": null, "isGlobal": true}`.
pub open spec fn variable_declaration_json(v: VariableAssignmentView) -> JsonView {
    JsonView::Object(
        seq![
            ("VAR="@, JsonView::Str(v.varname)),
            ("initialValue"@, JsonView::Null),
            ("isGlobal"@, JsonView::Bool(true)),
        ],
    )
}

fn serialize_variable_declaration(v: &VariableAssignment) -> (r: JsonValue)
    ensures
        r@ == variable_declaration_json(v@),
{
    let mut m: Vec<(String, JsonValue)> = Vec::new();
    assert(entries_view(m@) =~= Seq::<(Seq<char>, JsonView)>::empty());
    push_entry(&mut m, "VAR=", JsonValue::Str(String::from_str(v.varname.as_str())));
    push_entry(&mut m, "initialValue", JsonValue::Null);
    push_entry(&mut m, "isGlobal", JsonValue::Bool(true));
    assert(entries_view(m@) =~= object_entries(variable_declaration_json(v@)));
    let r = JsonValue::Object(m);
    assert(r@ =~= variable_declaration_json(v@));
    r
}

/// `{"name": name, "items": [{"name": item, "value": n}, ...]}`.
pub open spec fn list_definition_json(l: ListDefinitionView) -> JsonView {
    JsonView::Object(
        seq![
            ("name"@, JsonView::Str(l.name)),
            ("items"@, JsonView::Array(
                l.items.map_values(
                    |it: (Seq<char>, i32)|
                        JsonView::Object(
                            seq![
                                ("name"@, JsonView::Str(it.0)),
                                ("value"@, JsonView::Int(it.1 as int)),
                            ],
                        ),
                ),
            )),
        ],
    )
}

fn serialize_list_definition(l: &ListDefinition) -> (r: JsonValue)
    ensures
        r@ == list_definition_json(l@),
{
    let mut items: Vec<JsonValue> = Vec::new();
    let ghost target = list_definition_json(l@);
    let mut i: usize = 0;
    while i < l.items.len()
        invariant
            i <= l.items@.len(),
            jsons_view(items@) == l@.items.take(i as int).map_values(
                |it: (Seq<char>, i32)|
                    JsonView::Object(
                        seq![("name"@, JsonView::Str(it.0)), ("value"@, JsonView::Int(it.1 as int))],
                    ),
            ),
        decreases l.items.len() - i,
    {
        let item = &l.items[i];
        let mut m: Vec<(String, JsonValue)> = Vec::new();
        assert(entries_view(m@) =~= Seq::<(Seq<char>, JsonView)>::empty());
        push_entry(&mut m, "name", JsonValue::Str(String::from_str(item.name.as_str())));
        push_entry(&mut m, "value", JsonValue::Int(item.value as i64));
        let ghost f0 = |it: (Seq<char>, i32)|
            JsonView::Object(
                seq![("name"@, JsonView::Str(it.0)), ("value"@, JsonView::Int(it.1 as int))],
            );
        assert(entries_view(m@) =~= object_entries(f0(l@.items[i as int])));
        let obj = JsonValue::Object(m);
        push_item(&mut items, obj);
        proof {
            let f = |it: (Seq<char>, i32)|
                JsonView::Object(
                    seq![("name"@, JsonView::Str(it.0)), ("value"@, JsonView::Int(it.1 as int))],
                );
            assert(l@.items.take(i + 1).map_values(f) =~= l@.items.take(i as int).map_values(f).push(
                f(l@.items[i as int]),
            ));
            assert(obj@ =~= f(l@.items[i as int]));
        }
        i = i + 1;
    }
    assert(l@.items.take(i as int) =~= l@.items);
    let mut m: Vec<(String, JsonValue)> = Vec::new();
    assert(entries_view(m@) =~= Seq::<(Seq<char>, JsonView)>::empty());
    push_entry(&mut m, "name", JsonValue::Str(String::from_str(l.name.as_str())));
    push_entry(&mut m, "items", json_array(items));
    assert(entries_view(m@) =~= object_entries(list_definition_json(l@)));
    let r = JsonValue::Object(m);
    assert(r@ =~= list_definition_json(l@));
    r
}

// ---------------------------------------------------------------------------
// Objects and containers
// ---------------------------------------------------------------------------

/// The JSON of a runtime object.
pub open spec fn obj_json(o: InkObjectView) -> JsonView
    decreases o,
{
    match o {
        InkObjectView::Container(c) => container_json(c),
        InkObjectView::ControlCommand(c) => JsonView::Str(command_name(c)),
        InkObjectView::NativeFuncCall(f) => JsonView::Str(native_name(f)),
        InkObjectView::Divert(d) => divert_json(d),
        InkObjectView::VariableAssignment(a) => assignment_json(a),
        InkObjectView::VariableReference(r) => reference_json(r),
        InkObjectView::ChoicePoint(c) => choice_point_json(c),
        InkObjectView::Tag(t) => tag_json(t),
        InkObjectView::Void => JsonView::Str("void"@),
        InkObjectView::String(s) => JsonView::Str(seq!['^'] + s),
        InkObjectView::DivertTarget(p) => JsonView::Object(seq![("^->"@, JsonView::Str(p))]),
        InkObjectView::VariablePointer { varname, context_index } => JsonView::Object(
            seq![("^var"@, JsonView::Str(varname)), ("ci"@, JsonView::Int(context_index as int))],
        ),
        InkObjectView::Int(n) => JsonView::Int(n as int),
        InkObjectView::Float(t) => JsonView::Float(json_number(t)),
    }
}

pub open spec fn objs_json(s: Seq<InkObjectView>) -> Seq<JsonView>
    decreases s,
{
    if s.len() == 0 {
        Seq::empty()
    } else {
        objs_json(s.drop_last()).push(obj_json(s.last()))
    }
}

/// The named sub-containers inserted one after another into a dict.
pub open spec fn named_json(named: Seq<(Seq<char>, ContainerView)>) -> Seq<(Seq<char>, JsonView)>
    decreases named,
{
    if named.len() == 0 {
        Seq::empty()
    } else {
        named_insert(named_json(named.drop_last()), named.last().0, container_json(named.last().1))
    }
}

/// The dict ending a container: its named sub-containers (`d1`), then `#f` for
/// flags, `#n` for a name that no sub-container has, `#v` and `#t`.
pub open spec fn container_dict(c: ContainerView, d1: Seq<(Seq<char>, JsonView)>) -> Seq<
    (Seq<char>, JsonView),
> {
    let d2 = if c.flags != 0 {
        named_insert(d1, "#f"@, JsonView::Int(c.flags as int))
    } else {
        d1
    };
    let d3 = match c.name {
        Some(n) => if find_key(c.named, n) is None {
            named_insert(d2, "#n"@, JsonView::Str(n))
        } else {
            d2
        },
        None => d2,
    };
    let d4 = match c.visits {
        Some(v) => named_insert(d3, "#v"@, JsonView::Int(v as int)),
        None => d3,
    };
    match c.turn_index {
        Some(t) => named_insert(d4, "#t"@, JsonView::Int(t as int)),
        None => d4,
    }
}

/// A container as an array: its objects, then `null` or its dict when it
/// has named sub-containers, flags, a name, visits or a turn index.
pub open spec fn container_json(c: ContainerView) -> JsonView
    decreases c,
{
    let has_extra = c.named.len() > 0 || c.flags != 0 || c.name is Some || c.visits is Some
        || c.turn_index is Some;
    let last = if has_extra {
        JsonView::Object(container_dict(c, named_json(c.named)))
    } else {
        JsonView::Null
    };
    JsonView::Array(objs_json(c.content).push(last))
}

/// A container is written as an array of its objects followed by one
/// last element: `null` when it has no named sub-containers, flags, name,
/// visits or turn index, else a dict.
pub proof fn law_container_json_shape(c: ContainerView)
    ensures
        container_json(c) is Array,
        container_json(c)->Array_0.len() == c.content.len() + 1,
        ({
            let last = container_json(c)->Array_0.last();
            if c.named.len() == 0 && c.flags == 0 && c.name is None && c.visits is None
                && c.turn_index is None {
                last is Null
            } else {
                last is Object
            }
        }),
{
    lemma_objs_json_len(c.content);
}

pub proof fn lemma_objs_json_len(s: Seq<InkObjectView>)
    ensures
        objs_json(s).len() == s.len(),
    decreases s.len(),
{
    if s.len() > 0 {
        lemma_objs_json_len(s.drop_last());
    }
}

/// Text objects are written with a `^` in front.
pub proof fn law_text_has_caret(s: Seq<char>)
    ensures
        obj_json(InkObjectView::String(s)) == JsonView::Str(seq!['^'] + s),
{
}

/// Serialize any InkObject to a JSON Value.
pub fn serialize_object(obj: &InkObject) -> (r: JsonValue)
    ensures
        r@ == obj_json(obj@),
    decreases obj,
{
    match obj {
        InkObject::Container(c) => serialize_container(c),
        InkObject::ControlCommand(cmd) => JsonValue::Str(String::from_str(cmd.as_str())),
        InkObject::NativeFuncCall(f) => JsonValue::Str(String::from_str(f.as_str())),
        InkObject::Divert(d) => serialize_divert(d),
        InkObject::VariableAssignment(a) => serialize_variable_assignment(a),
        InkObject::VariableReference(r) => serialize_variable_reference(r),
        InkObject::ChoicePoint(c) => serialize_choice_point(c),
        InkObject::Tag(t) => serialize_tag(t),
        InkObject::Void => JsonValue::Str(String::from_str("void")),
        InkObject::String(s) => {
            let mut t = String::new();
            t.push('^');
            t.append(s.as_str());
            assert(t@ =~= seq!['^'] + s@);
            JsonValue::Str(t)
        },
        InkObject::DivertTarget(path) => {
            let mut m: Vec<(String, JsonValue)> = Vec::new();
            assert(entries_view(m@) =~= Seq::<(Seq<char>, JsonView)>::empty());
            push_entry(&mut m, "^->", JsonValue::Str(String::from_str(path.as_str())));
            assert(entries_view(m@) =~= object_entries(obj_json(obj@)));
            let r = JsonValue::Object(m);
            assert(r@ =~= obj_json(obj@));
            r
        },
        InkObject::VariablePointer { varname, context_index } => {
            let mut m: Vec<(String, JsonValue)> = Vec::new();
            assert(entries_view(m@) =~= Seq::<(Seq<char>, JsonView)>::empty());
            push_entry(&mut m, "^var", JsonValue::Str(String::from_str(varname.as_str())));
            push_entry(&mut m, "ci", JsonValue::Int(*context_index as i64));
            assert(entries_view(m@) =~= object_entries(obj_json(obj@)));
            let r = JsonValue::Object(m);
            assert(r@ =~= obj_json(obj@));
            r
        },
        InkObject::Int(n) => JsonValue::Int(*n),
        InkObject::Float(f) => JsonValue::Float(json_number_of(f.as_str())),
    }
}

fn serialize_objects(objs: &Vec<InkObject>) -> (r: Vec<JsonValue>)
    ensures
        jsons_view(r@) == objs_json(objs_view(objs@)),
    decreases objs,
{
    let mut out: Vec<JsonValue> = Vec::new();
    let mut i: usize = 0;
    assert(jsons_view(out@) =~= objs_json(objs_view(objs@.take(0)))) by {
        assert(objs@.take(0) =~= Seq::<InkObject>::empty());
    }
    while i < objs.len()
        invariant
            i <= objs@.len(),
            jsons_view(out@) == objs_json(objs_view(objs@.take(i as int))),
        decreases objs.len() - i,
    {
        let v = serialize_object(&objs[i]);
        push_item(&mut out, v);
        proof {
            assert(objs@.take(i + 1) =~= objs@.take(i as int).push(objs@[i as int]));
            crate::compiler::runtime_types::lemma_objs_view_push(objs@.take(i as int), objs@[i as int]);
            let w = objs_view(objs@.take(i + 1));
            assert(w.drop_last() =~= objs_view(objs@.take(i as int)));
        }
        i = i + 1;
    }
    assert(objs@.take(i as int) =~= objs@);
    out
}

fn serialize_named(named: &Vec<(String, Container)>) -> (r: Vec<(String, JsonValue)>)
    ensures
        entries_view(r@) == named_json(named_view(named@)),
    decreases named,
{
    let mut out: Vec<(String, JsonValue)> = Vec::new();
    let mut i: usize = 0;
    assert(entries_view(out@) =~= named_json(named_view(named@.take(0)))) by {
        assert(named@.take(0) =~= Seq::<(String, Container)>::empty());
    }
    while i < named.len()
        invariant
            i <= named@.len(),
            entries_view(out@) == named_json(named_view(named@.take(i as int))),
        decreases named.len() - i,
    {
        let v = serialize_container(&named[i].1);
        insert_entry(&mut out, named[i].0.as_str(), v);
        proof {
            assert(named@.take(i + 1) =~= named@.take(i as int).push(named@[i as int]));
            crate::compiler::runtime_types::lemma_named_view_push(named@.take(i as int), named@[i as int]);
            let w = named_view(named@.take(i + 1));
            assert(w.drop_last() =~= named_view(named@.take(i as int)));
        }
        i = i + 1;
    }
    assert(named@.take(i as int) =~= named@);
    out
}

/// Serialize a Container to a JSON Value.
pub fn serialize_container(container: &Container) -> (r: JsonValue)
    ensures
        r@ == container_json(container@),
    decreases container,
{
    let mut content_values = serialize_objects(&container.content);

    // The final element carries named containers and flags
    let has_named = container.named.len() > 0;
    let has_flags = !container.flags.is_empty();
    let has_name = container.name.is_some();
    let has_extra = has_named || has_flags || has_name || container.visits.is_some()
        || container.turn_index.is_some();
    proof {
        crate::compiler::runtime_types::lemma_named_view_len(container.named@);
    }
    let final_element = if has_extra {
        let mut dict = serialize_named(&container.named);
        // Flags
        if has_flags {
            insert_entry(&mut dict, "#f", JsonValue::UInt(container.flags.value() as u64));
        }
        // Name
        if let Some(name) = &container.name {
            let found = crate::compiler::runtime_types::find_named_in(&container.named, name.as_str());
            if !found {
                insert_entry(&mut dict, "#n", JsonValue::Str(String::from_str(name.as_str())));
            }
        }
        // Visits
        if let Some(v) = container.visits {
            insert_entry(&mut dict, "#v", JsonValue::Int(v as i64));
        }
        // Turn index
        if let Some(t) = container.turn_index {
            insert_entry(&mut dict, "#t", JsonValue::Int(t as i64));
        }
        JsonValue::Object(dict)
    } else {
        JsonValue::Null
    };
    push_item(&mut content_values, final_element);
    json_array(content_values)
}

// ---------------------------------------------------------------------------
// The story
// ---------------------------------------------------------------------------

/// A story: `inkVersion`, the root container as `root`, the global
/// declarations as `globalDeclaration` and the lists under `listDefs`
/// (each only when there are any).
pub open spec fn story_json(st: StoryView) -> JsonView {
    let d1 = seq![("inkVersion"@, JsonView::Int(st.ink_version as int)), ("root"@, container_json(st.root))];
    let d2 = if st.variables.len() > 0 {
        d1.push(
            ("globalDeclaration"@, JsonView::Array(
                st.variables.map_values(|v: VariableAssignmentView| variable_declaration_json(v)),
            )),
        )
    } else {
        d1
    };
    let d3 = if st.lists.len() > 0 {
        d2.push(
            ("listDefs"@, JsonView::Object(
                seq![
                    ("lists"@, JsonView::Array(
                        st.lists.map_values(|l: ListDefinitionView| list_definition_json(l)),
                    )),
                ],
            )),
        )
    } else {
        d2
    };
    JsonView::Object(d3)
}

/// Serialize a Story to a JSON Value.
pub fn serialize_story(story: &Story) -> (r: JsonValue)
    ensures
        r@ == story_json(story@),
{
    let mut root_dict: Vec<(String, JsonValue)> = Vec::new();
    assert(entries_view(root_dict@) =~= Seq::<(Seq<char>, JsonView)>::empty());
    push_entry(&mut root_dict, "inkVersion", JsonValue::Int(story.ink_version as i64));

    // Serialize root container
    let root_value = serialize_container(&story.root);
    push_entry(&mut root_dict, "root", root_value);

    // Global variable declarations (in root)
    if story.variables.len() > 0 {
        let mut vars: Vec<JsonValue> = Vec::new();
        let mut i: usize = 0;
        while i < story.variables.len()
            invariant
                i <= story.variables@.len(),
                jsons_view(vars@) == story@.variables.take(i as int).map_values(
                    |v: VariableAssignmentView| variable_declaration_json(v),
                ),
            decreases story.variables.len() - i,
        {
            let v = serialize_variable_declaration(&story.variables[i]);
            push_item(&mut vars, v);
            proof {
                let f = |v: VariableAssignmentView| variable_declaration_json(v);
                assert(story@.variables.take(i + 1).map_values(f) =~= story@.variables.take(
                    i as int,
                ).map_values(f).push(f(story@.variables[i as int])));
            }
            i = i + 1;
        }
        assert(story@.variables.take(i as int) =~= story@.variables);
        push_entry(&mut root_dict, "globalDeclaration", json_array(vars));
    }
    // List declarations

    if story.lists.len() > 0 {
        let mut lists: Vec<JsonValue> = Vec::new();
        let mut i: usize = 0;
        while i < story.lists.len()
            invariant
                i <= story.lists@.len(),
                jsons_view(lists@) == story@.lists.take(i as int).map_values(
                    |l: ListDefinitionView| list_definition_json(l),
                ),
            decreases story.lists.len() - i,
        {
            let l = serialize_list_definition(&story.lists[i]);
            push_item(&mut lists, l);
            proof {
                let f = |l: ListDefinitionView| list_definition_json(l);
                assert(story@.lists.take(i + 1).map_values(f) =~= story@.lists.take(i as int).map_values(
                    f,
                ).push(f(story@.lists[i as int])));
            }
            i = i + 1;
        }
        assert(story@.lists.take(i as int) =~= story@.lists);
        let mut lists_dict: Vec<(String, JsonValue)> = Vec::new();
        assert(entries_view(lists_dict@) =~= Seq::<(Seq<char>, JsonView)>::empty());
        push_entry(&mut lists_dict, "lists", json_array(lists));
        push_entry(&mut root_dict, "listDefs", JsonValue::Object(lists_dict));
    }
    assert(entries_view(root_dict@) =~= object_entries(story_json(story@)));
    let r = JsonValue::Object(root_dict);
    assert(r@ =~= story_json(story@));
    r
}

/// Serialize a Story to a JSON string.
pub fn story_to_json(story: &Story) -> (r: String)
    ensures
        r@ == json_output_text(story_json(story@)),
{
    let value = serialize_story(story);
    to_pretty_text(&value)
}

/// How a divert is written in ink JSON is fixed by its kind: the first key
/// is `x()` for an external call, `f()` for a function call, `->t->` for a
/// tunnel, and `->` for any other divert (a variable divert whose target
/// is unknown aside), each with the target as its value; the object ends
/// with `"c": true` exactly when the divert is conditional. So a tunnel to
/// a target is never written as the plain divert to it.
pub proof fn law_divert_json_keys(d: DivertView)
    ensures
        match obj_json(InkObjectView::Divert(d)) {
            JsonView::Object(es) => {
                let target_json = match d.target {
                    Some(t) => JsonView::Str(t),
                    None => JsonView::Null,
                };
                &&& (d.is_external && d.target is Some) ==> es[0] == ("x()"@, target_json)
                &&& (!d.is_external && d.is_function_call && d.target is Some) ==> es[0] == ("f()"@,
                    target_json)
                &&& (!d.is_external && !d.is_function_call && d.is_tunnel) ==> es[0] == ("->t->"@, target_json)
                &&& (!d.is_external && !d.is_function_call && !d.is_tunnel && (d.target is Some
                    || !d.is_variable)) ==> es[0] == ("->"@, target_json)
                &&& (!d.is_external && !d.is_function_call && !d.is_tunnel && d.is_variable) ==> es.contains(
                    ("var"@, JsonView::Bool(true)),
                )
                &&& d.is_conditional <==> (es.len() > 0 && es.last() == ("c"@, JsonView::Bool(true)))
            },
            _ => false,
        },
{
    reveal_strlit("c");
    reveal_strlit("->");
    reveal_strlit("->t->");
    reveal_strlit("x()");
    reveal_strlit("f()");
    reveal_strlit("var");
    reveal_strlit("exArgs");
    let target_json = match d.target {
        Some(t) => JsonView::Str(t),
        None => JsonView::Null,
    };
    let base: Seq<(Seq<char>, JsonView)> = if d.is_external {
        (match d.target {
            Some(t) => seq![("x()"@, JsonView::Str(t))],
            None => Seq::empty(),
        }) + (match d.external_args {
            Some(n) => seq![("exArgs"@, JsonView::Int(n as int))],
            None => Seq::empty(),
        })
    } else if d.is_function_call {
        match d.target {
            Some(t) => seq![("f()"@, JsonView::Str(t))],
            None => Seq::empty(),
        }
    } else if d.is_tunnel {
        seq![("->t->"@, target_json)]
    } else if d.is_variable {
        (match d.target {
            Some(t) => seq![("->"@, JsonView::Str(t))],
            None => Seq::empty(),
        }) + seq![("var"@, JsonView::Bool(true))]
    } else {
        seq![("->"@, target_json)]
    };
    let es = if d.is_conditional {
        base.push(("c"@, JsonView::Bool(true)))
    } else {
        base
    };
    assert(obj_json(InkObjectView::Divert(d)) == JsonView::Object(es));
    assert("c"@.len() == 1);
    assert("->"@.len() == 2);
    assert("->t->"@.len() == 5);
    assert("x()"@.len() == 3);
    assert("f()"@.len() == 3);
    assert("var"@.len() == 3);
    assert("exArgs"@.len() == 6);
    assert forall|k: int| 0 <= k < base.len() implies (#[trigger] base[k]).0.len() >= 2 by {
        if d.is_external {
            let a: Seq<(Seq<char>, JsonView)> = match d.target {
                Some(t) => seq![("x()"@, JsonView::Str(t))],
                None => Seq::empty(),
            };
            if k < a.len() {
                assert(base[k] == a[k]);
            }
        } else if !d.is_function_call && !d.is_tunnel && d.is_variable {
            let a: Seq<(Seq<char>, JsonView)> = match d.target {
                Some(t) => seq![("->"@, JsonView::Str(t))],
                None => Seq::empty(),
            };
            if k < a.len() {
                assert(base[k] == a[k]);
            }
        }
    }
    if !d.is_conditional && es.len() > 0 {
        assert(es.last() == base[base.len() - 1]);
    }
    if !d.is_external && !d.is_function_call && !d.is_tunnel && d.is_variable {
        let k = if d.target is Some { 1int } else { 0int };
        assert(es[k] == ("var"@, JsonView::Bool(true)));
    }
}

/// A tunnel call and a plain divert to the same target are written
/// differently.
pub proof fn law_tunnel_differs_from_divert(target: Seq<char>)
    ensures
        obj_json(InkObjectView::Divert(DivertView { target: Some(target), is_tunnel: true, ..plain_divert() }))
            != obj_json(InkObjectView::Divert(DivertView { target: Some(target), ..plain_divert() })),
{
    law_divert_json_keys(DivertView { target: Some(target), is_tunnel: true, ..plain_divert() });
    law_divert_json_keys(DivertView { target: Some(target), ..plain_divert() });
    reveal_strlit("->");
    reveal_strlit("->t->");
    assert("->t->"@.len() != "->"@.len());
}

} // verus!
