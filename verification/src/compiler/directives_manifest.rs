//! The directives manifest: every `@` directive of a story, keyed by its
//! ink runtime path.

use vstd::prelude::*;
use crate::compiler::json::{JsonValue, JsonView, entries_view, insert_entry, json_array, jsons_view, push_entry, push_item};
use crate::compiler::runtime_types::{find_key, named_insert, normalize_name, underscored};
use crate::ink_parser::ir::{Directive, DirectiveView, ParsedStory, ParsedStoryView, StoryNode, StoryNodeView, branches_view, directive_type_name, nodes_view};
use crate::text::{decimal, push_decimal, str_equal};

verus! {

/// A directive as JSON: its type, name, arguments as `arg0`, `arg1`, ...
/// (when it has any), modifiers by key (when it has any) and its source
/// location.
pub open spec fn directive_json(d: DirectiveView) -> JsonView {
    let d1 = seq![("type"@, JsonView::Str(directive_type_name(d.directive_type))), ("name"@, JsonView::Str(d.name))];
    let d2 = if d.args.len() > 0 {
        d1.push(("args"@, JsonView::Object(args_entries(d.args.map_values(|a: crate::ink_parser::ir::DirectiveArgView| a.value)))))
    } else {
        d1
    };
    let d3 = if d.modifiers.len() > 0 {
        d2.push(("modifiers"@, JsonView::Object(modifier_entries(d.modifiers))))
    } else {
        d2
    };
    JsonView::Object(
        d3.push(
            ("source"@, JsonView::Object(
                seq![
                    ("file"@, JsonView::Str(d.location.file)),
                    ("line"@, JsonView::Int(d.location.line as int)),
                    ("column"@, JsonView::Int(d.location.column as int)),
                ],
            )),
        ),
    )
}

/// `arg<i>` for each argument value in order.
pub open spec fn args_entries(values: Seq<Seq<char>>) -> Seq<(Seq<char>, JsonView)>
    decreases values.len(),
{
    if values.len() == 0 {
        Seq::empty()
    } else {
        args_entries(values.drop_last()).push(
            ("arg"@ + decimal((values.len() - 1) as nat), JsonView::Str(values.last())),
        )
    }
}

/// The modifiers by key; a later modifier replaces an earlier one with the
/// same key.
pub open spec fn modifier_entries(ms: Seq<crate::ink_parser::ir::DirectiveModifierView>) -> Seq<
    (Seq<char>, JsonView),
>
    decreases ms.len(),
{
    if ms.len() == 0 {
        Seq::empty()
    } else {
        named_insert(modifier_entries(ms.drop_last()), ms.last().key, JsonView::Str(ms.last().value))
    }
}

/// Serialize a single Directive to JSON.
fn serialize_directive(dir: &Directive) -> (r: JsonValue)
    ensures
        r@ == directive_json(dir@),
{
    let mut obj: Vec<(String, JsonValue)> = Vec::new();
    assert(entries_view(obj@) =~= Seq::<(Seq<char>, JsonView)>::empty());
    push_entry(&mut obj, "type", JsonValue::Str(String::from_str(dir.directive_type.as_str())));
    push_entry(&mut obj, "name", JsonValue::Str(String::from_str(dir.name.as_str())));
    let ghost d1 = entries_view(obj@);
    if dir.args.len() > 0 {
        let ghost values = dir@.args.map_values(|a: crate::ink_parser::ir::DirectiveArgView| a.value);
        let mut args: Vec<(String, JsonValue)> = Vec::new();
        let mut i: usize = 0;
        assert(entries_view(args@) =~= args_entries(values.take(0)));
        while i < dir.args.len()
            invariant
                i <= dir.args@.len(),
                values == dir@.args.map_values(|a: crate::ink_parser::ir::DirectiveArgView| a.value),
                entries_view(args@) == args_entries(values.take(i as int)),
            decreases dir.args.len() - i,
        {
            let mut key = String::from_str("arg");
            push_decimal(&mut key, i);
            push_entry(&mut args, key.as_str(), JsonValue::Str(String::from_str(dir.args[i].value.as_str())));
            proof {
                assert(values.take(i + 1).drop_last() =~= values.take(i as int));
                assert(values.take(i + 1).last() == dir.args@[i as int].value@);
            }
            i = i + 1;
        }
        assert(values.take(i as int) =~= values);
        push_entry(&mut obj, "args", JsonValue::Object(args));
    }
    let ghost d2 = entries_view(obj@);
    if dir.modifiers.len() > 0 {
        let ghost ms = dir@.modifiers;
        let mut mods: Vec<(String, JsonValue)> = Vec::new();
        let mut i: usize = 0;
        assert(entries_view(mods@) =~= modifier_entries(ms.take(0)));
        while i < dir.modifiers.len()
            invariant
                i <= dir.modifiers@.len(),
                ms == dir@.modifiers,
                entries_view(mods@) == modifier_entries(ms.take(i as int)),
            decreases dir.modifiers.len() - i,
        {
            let m = &dir.modifiers[i];
            insert_entry(&mut mods, m.key.as_str(), JsonValue::Str(String::from_str(m.value.as_str())));
            proof {
                assert(ms.take(i + 1).drop_last() =~= ms.take(i as int));
                assert(ms.take(i + 1).last() == m@);
            }
            i = i + 1;
        }
        assert(ms.take(i as int) =~= ms);
        push_entry(&mut obj, "modifiers", JsonValue::Object(mods));
    }
    let mut src: Vec<(String, JsonValue)> = Vec::new();
    assert(entries_view(src@) =~= Seq::<(Seq<char>, JsonView)>::empty());
    push_entry(&mut src, "file", JsonValue::Str(String::from_str(dir.location.file.as_str())));
    push_entry(&mut src, "line", JsonValue::UInt(dir.location.line as u64));
    push_entry(&mut src, "column", JsonValue::UInt(dir.location.column as u64));
    let ghost src_entries = entries_view(src@);
    push_entry(&mut obj, "source", JsonValue::Object(src));
    proof {
        let expected = match directive_json(dir@) {
            JsonView::Object(e) => e,
            _ => Seq::empty(),
        };
        assert(src_entries =~= seq![
            ("file"@, JsonView::Str(dir@.location.file)),
            ("line"@, JsonView::Int(dir@.location.line as int)),
            ("column"@, JsonView::Int(dir@.location.column as int)),
        ]);
        assert(entries_view(obj@) =~= expected);
    }
    JsonValue::Object(obj)
}

/// Adds a directive under a path: to the end of the list already there, or
/// as a new list.
pub open spec fn add_directive(
    m: Seq<(Seq<char>, JsonView)>,
    key: Seq<char>,
    v: JsonView,
) -> Seq<(Seq<char>, JsonView)> {
    match find_key(m, key) {
        Some(i) => match m[i].1 {
            JsonView::Array(a) => m.update(i, (key, JsonView::Array(a.push(v)))),
            _ => m,
        },
        None => m.push((key, JsonView::Array(seq![v]))),
    }
}

fn add_directive_exec(m: &mut Vec<(String, JsonValue)>, key: &str, v: JsonValue)
    ensures
        entries_view(final(m)@) == add_directive(entries_view(old(m)@), key@, v@),
{
    let ghost before = m@;
    proof {
        crate::compiler::json::lemma_entries_view_len(before);
        crate::compiler::runtime_types::lemma_find_key(entries_view(before), key@);
    }
    let mut i: usize = 0;
    while i < m.len()
        invariant
            m@ == before,
            before == old(m)@,
            i <= before.len(),
            entries_view(before).len() == before.len(),
            forall|j: int| 0 <= j < before.len() ==> (#[trigger] entries_view(before)[j]).0 == before[j].0@,
            forall|j: int| 0 <= j < i ==> (#[trigger] entries_view(before)[j]).0 != key@,
            match find_key(entries_view(before), key@) {
                Some(k) => 0 <= k < before.len() && entries_view(before)[k].0 == key@ && forall|j: int|
                    0 <= j < k ==> (#[trigger] entries_view(before)[j]).0 != key@,
                None => forall|j: int|
                    0 <= j < before.len() ==> (#[trigger] entries_view(before)[j]).0 != key@,
            },
        decreases m.len() - i,
    {
        assert(entries_view(before)[i as int].0 == before[i as int].0@);
        if str_equal(m[i].0.as_str(), key) {
            proof {
                match find_key(entries_view(before), key@) {
                    Some(k) => {
                        if k < i {
                            assert(entries_view(before)[k].0 != key@);
                        } else if k > i {
                            assert(entries_view(before)[i as int].0 != key@);
                        }
                    },
                    None => {
                        assert(entries_view(before)[i as int].0 != key@);
                    },
                }
                crate::compiler::json::lemma_entries_view_len(before);
                assert(entries_view(before)[i as int] == (before[i as int].0@, crate::compiler::json::json_view(before[i as int].1))) by {
                    lemma_entries_view_index(before, i as int);
                }
            }
            let mut entry = m.remove(i);
            match &mut entry.1 {
                JsonValue::Array(items) => {
                    push_item(items, v);
                },
                _ => {},
            }
            m.insert(i, entry);
            proof {
                assert(m@ =~= before.update(i as int, m@[i as int]));
                crate::compiler::json::lemma_entries_view_update(before, i as int, m@[i as int]);
                assert(m@[i as int].0@ == key@);
            }
            return;
        }
        i = i + 1;
    }
    let mut items: Vec<JsonValue> = Vec::new();
    assert(jsons_view(items@) =~= Seq::<JsonView>::empty());
    push_item(&mut items, v);
    push_entry(m, key, json_array(items));
    assert(jsons_view(items@) =~= seq![v@]);
}

pub proof fn lemma_entries_view_index(s: Seq<(String, JsonValue)>, i: int)
    requires
        0 <= i < s.len(),
    ensures
        entries_view(s)[i] == (s[i].0@, crate::compiler::json::json_view(s[i].1)),
    decreases s.len(),
{
    crate::compiler::json::lemma_entries_view_len(s);
    if i < s.len() - 1 {
        lemma_entries_view_index(s.drop_last(), i);
    }
}

/// The path of node `i` under `path`: the index alone at the top, else
/// `path.i`.
pub open spec fn top_key(path: Seq<char>, i: nat) -> Seq<char> {
    if path.len() == 0 {
        decimal(i)
    } else {
        path + seq!['.'] + decimal(i)
    }
}

/// Directives of top-level nodes: a knot's content is read under its name;
/// a directive goes under its path; a logic block's nodes are read in turn.
pub open spec fn collect_top(
    nodes: Seq<StoryNodeView>,
    path: Seq<char>,
    m: Seq<(Seq<char>, JsonView)>,
) -> Seq<(Seq<char>, JsonView)>
    decreases nodes,
{
    if nodes.len() == 0 {
        m
    } else {
        let m1 = collect_top(nodes.drop_last(), path, m);
        let i = (nodes.len() - 1) as nat;
        match nodes.last() {
            StoryNodeView::Knot(k) => {
                let sub = if path.len() == 0 {
                    underscored(k.identifier.name)
                } else {
                    path + seq!['.'] + underscored(k.identifier.name)
                };
                collect_content(k.content, sub, m1)
            },
            StoryNodeView::Directive(d) => add_directive(m1, top_key(path, i), directive_json(d)),
            StoryNodeView::Logic(l) => collect_top(l.content, path, m1),
            _ => m1,
        }
    }
}

/// Directives of a knot's content: stitches are read under `path.name`;
/// a directive goes under `path.i`; logic blocks and conditional branches
/// are read in turn.
pub open spec fn collect_content(
    nodes: Seq<StoryNodeView>,
    path: Seq<char>,
    m: Seq<(Seq<char>, JsonView)>,
) -> Seq<(Seq<char>, JsonView)>
    decreases nodes,
{
    if nodes.len() == 0 {
        m
    } else {
        let m1 = collect_content(nodes.drop_last(), path, m);
        let i = (nodes.len() - 1) as nat;
        match nodes.last() {
            StoryNodeView::Knot(st) => collect_content(
                st.content,
                path + seq!['.'] + underscored(st.identifier.name),
                m1,
            ),
            StoryNodeView::Directive(d) => add_directive(
                m1,
                path + seq!['.'] + decimal(i),
                directive_json(d),
            ),
            StoryNodeView::Logic(l) => collect_content(l.content, path, m1),
            StoryNodeView::Conditional(c) => collect_branches(c.branches, path, m1),
            _ => m1,
        }
    }
}

pub open spec fn collect_branches(
    bs: Seq<crate::ink_parser::ir::ConditionalBranchView>,
    path: Seq<char>,
    m: Seq<(Seq<char>, JsonView)>,
) -> Seq<(Seq<char>, JsonView)>
    decreases bs,
{
    if bs.len() == 0 {
        m
    } else {
        collect_content(bs.last().content, path, collect_branches(bs.drop_last(), path, m))
    }
}

fn path_join(path: &str, name: &str) -> (r: String)
    ensures
        r@ == path@ + seq!['.'] + name@,
{
    let mut s = String::from_str(path);
    s.push('.');
    s.append(name);
    s
}

/// Recursively collect directives from story nodes, tracking the current ink path.
fn collect_directives(nodes: &Vec<StoryNode>, current_path: &str, map: &mut Vec<(String, JsonValue)>)
    ensures
        entries_view(final(map)@) == collect_top(nodes_view(nodes@), current_path@, entries_view(old(map)@)),
    decreases nodes,
{
    let mut i: usize = 0;
    assert(nodes@.take(0) =~= Seq::<StoryNode>::empty());
    while i < nodes.len()
        invariant
            i <= nodes@.len(),
            entries_view(map@) == collect_top(
                nodes_view(nodes@.take(i as int)),
                current_path@,
                entries_view(old(map)@),
            ),
        decreases nodes.len() - i,
    {
        match &nodes[i] {
            StoryNode::Knot(knot) => {
                let name = normalize_name(knot.identifier.name.as_str());
                let sub = if current_path.unicode_len() == 0 {
                    name
                } else {
                    path_join(current_path, name.as_str())
                };
                collect_directives_from_content(&knot.content, sub.as_str(), map);
            },
            StoryNode::Directive(dir) => {
                let mut path = String::new();
                if current_path.unicode_len() > 0 {
                    path.append(current_path);
                    path.push('.');
                }
                push_decimal(&mut path, i);
                assert(path@ =~= top_key(current_path@, i as nat));
                let directive_val = serialize_directive(dir);
                add_directive_exec(map, path.as_str(), directive_val);
            },
            // Other node types may contain nested directives
            StoryNode::Logic(logic) => {
                collect_directives(&logic.content, current_path, map);
            },
            _ => {},
        }
        proof {
            assert(nodes@.take(i + 1) =~= nodes@.take(i as int).push(nodes@[i as int]));
            crate::ink_parser::ir::lemma_nodes_view_push(nodes@.take(i as int), nodes@[i as int]);
            let v = nodes_view(nodes@.take(i + 1));
            assert(v.drop_last() =~= nodes_view(nodes@.take(i as int)));
            crate::ink_parser::ir::lemma_nodes_view_len(nodes@.take(i + 1));
            assert(v.len() == i + 1);
        }
        i = i + 1;
    }
    assert(nodes@.take(i as int) =~= nodes@);
}

/// Collect directives from knot content (which uses StoryNode directly).
fn collect_directives_from_content(
    nodes: &Vec<StoryNode>,
    current_path: &str,
    map: &mut Vec<(String, JsonValue)>,
)
    ensures
        entries_view(final(map)@) == collect_content(nodes_view(nodes@), current_path@, entries_view(old(map)@)),
    decreases nodes,
{
    let mut i: usize = 0;
    while i < nodes.len()
        invariant
            i <= nodes@.len(),
            entries_view(map@) == collect_content(
                nodes_view(nodes@.take(i as int)),
                current_path@,
                entries_view(old(map)@),
            ),
        decreases nodes.len() - i,
    {
        match &nodes[i] {
            StoryNode::Knot(stitch) => {
                let name = normalize_name(stitch.identifier.name.as_str());
                let sub = path_join(current_path, name.as_str());
                collect_directives_from_content(&stitch.content, sub.as_str(), map);
            },
            StoryNode::Directive(dir) => {
                let mut path = String::from_str(current_path);
                path.push('.');
                push_decimal(&mut path, i);
                assert(path@ =~= current_path@ + seq!['.'] + decimal(i as nat));
                let directive_val = serialize_directive(dir);
                add_directive_exec(map, path.as_str(), directive_val);
            },
            StoryNode::Logic(logic) => {
                collect_directives_from_content(&logic.content, current_path, map);
            },
            StoryNode::Conditional(cond) => {
                collect_directives_from_branches(&cond.branches, current_path, map);
            },
            _ => {},
        }
        proof {
            assert(nodes@.take(i + 1) =~= nodes@.take(i as int).push(nodes@[i as int]));
            crate::ink_parser::ir::lemma_nodes_view_push(nodes@.take(i as int), nodes@[i as int]);
            let v = nodes_view(nodes@.take(i + 1));
            assert(v.drop_last() =~= nodes_view(nodes@.take(i as int)));
            crate::ink_parser::ir::lemma_nodes_view_len(nodes@.take(i + 1));
            assert(v.len() == i + 1);
        }
        i = i + 1;
    }
    assert(nodes@.take(i as int) =~= nodes@);
}

fn collect_directives_from_branches(
    branches: &Vec<crate::ink_parser::ir::ConditionalBranch>,
    current_path: &str,
    map: &mut Vec<(String, JsonValue)>,
)
    ensures
        entries_view(final(map)@) == collect_branches(
            branches_view(branches@),
            current_path@,
            entries_view(old(map)@),
        ),
    decreases branches,
{
    let mut b: usize = 0;
    while b < branches.len()
        invariant
            b <= branches@.len(),
            entries_view(map@) == collect_branches(
                branches_view(branches@.take(b as int)),
                current_path@,
                entries_view(old(map)@),
            ),
        decreases branches.len() - b,
    {
        collect_directives_from_content(&branches[b].content, current_path, map);
        proof {
            let t = branches@.take(b + 1);
            assert(t =~= branches@.take(b as int).push(branches@[b as int]));
            crate::ink_parser::ir::lemma_branches_view_push(branches@.take(b as int), branches@[b as int]);
            assert(branches_view(t).drop_last() =~= branches_view(branches@.take(b as int)));
        }
        b = b + 1;
    }
    assert(branches@.take(b as int) =~= branches@);
}

/// The manifest: version 1, the source file, and the directives by path.
pub open spec fn manifest_json(story: ParsedStoryView, source_filename: Seq<char>) -> JsonView {
    JsonView::Object(
        seq![
            ("version"@, JsonView::Int(1)),
            ("source"@, JsonView::Str(source_filename)),
            ("directives"@, JsonView::Object(collect_top(story.content, Seq::empty(), Seq::empty()))),
        ],
    )
}

/// Generate the directives manifest JSON from a ParsedStory.
/// Directives are keyed by their ink runtime path.
pub fn generate_manifest(story: &ParsedStory, source_filename: &str) -> (r: JsonValue)
    ensures
        r@ == manifest_json(story@, source_filename@),
{
    let mut directives_map: Vec<(String, JsonValue)> = Vec::new();
    assert(entries_view(directives_map@) =~= Seq::<(Seq<char>, JsonView)>::empty());
    let current_path = String::new();
    collect_directives(&story.content, current_path.as_str(), &mut directives_map);
    let mut root: Vec<(String, JsonValue)> = Vec::new();
    assert(entries_view(root@) =~= Seq::<(Seq<char>, JsonView)>::empty());
    push_entry(&mut root, "version", JsonValue::Int(1));
    push_entry(&mut root, "source", JsonValue::Str(String::from_str(source_filename)));
    push_entry(&mut root, "directives", JsonValue::Object(directives_map));
    proof {
        let expected = match manifest_json(story@, source_filename@) {
            JsonView::Object(e) => e,
            _ => Seq::empty(),
        };
        assert(entries_view(root@) =~= expected);
    }
    JsonValue::Object(root)
}

} // verus!
