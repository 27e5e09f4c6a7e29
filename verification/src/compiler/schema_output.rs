//! The definitions schema: definitions normalized for the engine, with
//! asset references resolved to the assets' paths and types.

use vstd::prelude::*;
use crate::compiler::json::{JsonValue, JsonView, entries_view, insert_entry, json_array, jsons_view, push_entry, push_item};
use crate::compiler::runtime_types::named_insert;
use crate::def_parser::types::{ActionDef, ActionDefView, AssetDef, AssetDefView, CharacterDef, CharacterDefView, DefaultValue, DefaultValueView, Definitions, DefinitionsView, EventDef, EventDefView, FloatValue, FloatValueView, ParamDef, ParamDefView, SceneDef, SceneDefView, StateVarDef, StateVarDefView, find_entry, key_seq, lemma_find_key_keys, lookup};

verus! {

/// The entries of an object (none for other values).
pub open spec fn entries_of(v: JsonView) -> Seq<(Seq<char>, JsonView)> {
    match v {
        JsonView::Object(e) => e,
        _ => Seq::empty(),
    }
}

/// A float as JSON: its number, or `null` when it is not finite.
pub open spec fn float_json(f: FloatValueView) -> JsonView {
    match f {
        FloatValueView::Finite(t) => JsonView::Float(t),
        FloatValueView::NotFinite => JsonView::Null,
    }
}

fn float_value_json(f: &FloatValue) -> (r: JsonValue)
    ensures
        r@ == float_json(f@),
{
    match f {
        FloatValue::Finite(t) => JsonValue::Float(String::from_str(t.as_str())),
        FloatValue::NotFinite => JsonValue::Null,
    }
}

/// A default value as JSON; sequences and mappings become `null`.
pub open spec fn default_json(d: DefaultValueView) -> JsonView {
    match d {
        DefaultValueView::Null => JsonView::Null,
        DefaultValueView::Bool(b) => JsonView::Bool(b),
        DefaultValueView::Int(n) => JsonView::Int(n as int),
        DefaultValueView::Float(f) => float_json(f),
        DefaultValueView::Str(s) => JsonView::Str(s),
        DefaultValueView::Other => JsonView::Null,
    }
}

fn value_to_json(val: &DefaultValue) -> (r: JsonValue)
    ensures
        r@ == default_json(val@),
{
    match val {
        DefaultValue::Null => JsonValue::Null,
        DefaultValue::Bool(b) => JsonValue::Bool(*b),
        DefaultValue::Int(n) => JsonValue::Int(*n),
        DefaultValue::Float(f) => float_value_json(f),
        DefaultValue::Str(s) => JsonValue::Str(String::from_str(s.as_str())),
        DefaultValue::Other => JsonValue::Null,
    }
}

/// An asset: type and path, then duration, width, height and loop where
/// given.
pub open spec fn asset_json(a: AssetDefView) -> JsonView {
    let e1 = seq![("type"@, JsonView::Str(a.asset_type)), ("path"@, JsonView::Str(a.path))];
    let e2 = match a.duration {
        Some(d) => e1.push(("duration"@, float_json(d))),
        None => e1,
    };
    let e3 = match a.width {
        Some(w) => e2.push(("width"@, JsonView::Int(w as int))),
        None => e2,
    };
    let e4 = match a.height {
        Some(h) => e3.push(("height"@, JsonView::Int(h as int))),
        None => e3,
    };
    JsonView::Object(
        match a.loop_ {
            Some(l) => e4.push(("loop"@, JsonView::Bool(l))),
            None => e4,
        },
    )
}

fn asset_to_json(asset: &AssetDef) -> (r: JsonValue)
    ensures
        r@ == asset_json(asset@),
{
    let mut a: Vec<(String, JsonValue)> = Vec::new();
    assert(entries_view(a@) =~= Seq::<(Seq<char>, JsonView)>::empty());
    push_entry(&mut a, "type", JsonValue::Str(String::from_str(asset.asset_type.as_str())));
    push_entry(&mut a, "path", JsonValue::Str(String::from_str(asset.path.as_str())));
    if let Some(d) = &asset.duration {
        push_entry(&mut a, "duration", float_value_json(d));
    }
    if let Some(w) = asset.width {
        push_entry(&mut a, "width", JsonValue::UInt(w as u64));
    }
    if let Some(h) = asset.height {
        push_entry(&mut a, "height", JsonValue::UInt(h as u64));
    }
    if let Some(l) = asset.loop_ {
        push_entry(&mut a, "loop", JsonValue::Bool(l));
    }
    assert(entries_view(a@) =~= entries_of(asset_json(asset@)));
    JsonValue::Object(a)
}

/// A reference to an asset, resolved to `{path, type}` where the asset is
/// defined, else the name as given.
pub open spec fn resolved_json(r: Seq<char>, assets: Seq<(Seq<char>, AssetDefView)>) -> JsonView {
    match lookup(assets, r) {
        Some(a) => JsonView::Object(
            seq![("path"@, JsonView::Str(a.path)), ("type"@, JsonView::Str(a.asset_type))],
        ),
        None => JsonView::Str(r),
    }
}

fn resolve_asset(defs: &Definitions, r: &str) -> (j: JsonValue)
    ensures
        j@ == resolved_json(r@, defs@.assets),
{
    let found = find_entry(&defs.assets, r);
    proof {
        lemma_find_key_keys(defs@.assets, key_seq(defs.assets@), r@);
    }
    match found {
        Some(i) => {
            let asset = &defs.assets[i].1;
            let mut p: Vec<(String, JsonValue)> = Vec::new();
            assert(entries_view(p@) =~= Seq::<(Seq<char>, JsonView)>::empty());
            push_entry(&mut p, "path", JsonValue::Str(String::from_str(asset.path.as_str())));
            push_entry(&mut p, "type", JsonValue::Str(String::from_str(asset.asset_type.as_str())));
            assert(entries_view(p@) =~= entries_of(resolved_json(r@, defs@.assets)));
            JsonValue::Object(p)
        },
        None => JsonValue::Str(String::from_str(r)),
    }
}

/// A character: display name, then portrait (resolved), color and style
/// where given.
pub open spec fn character_json(c: CharacterDefView, assets: Seq<(Seq<char>, AssetDefView)>) -> JsonView {
    let e1 = seq![("display_name"@, JsonView::Str(c.display_name))];
    let e2 = match c.portrait {
        Some(p) => e1.push(("portrait"@, resolved_json(p, assets))),
        None => e1,
    };
    let e3 = match c.color {
        Some(col) => e2.push(("color"@, JsonView::Str(col))),
        None => e2,
    };
    JsonView::Object(
        match c.style {
            Some(s) => e3.push(("style"@, JsonView::Str(s))),
            None => e3,
        },
    )
}

fn character_to_json(defs: &Definitions, ch: &CharacterDef) -> (r: JsonValue)
    ensures
        r@ == character_json(ch@, defs@.assets),
{
    let mut c: Vec<(String, JsonValue)> = Vec::new();
    assert(entries_view(c@) =~= Seq::<(Seq<char>, JsonView)>::empty());
    push_entry(&mut c, "display_name", JsonValue::Str(String::from_str(ch.display_name.as_str())));
    if let Some(portrait) = &ch.portrait {
        // Resolve portrait reference to actual asset
        push_entry(&mut c, "portrait", resolve_asset(defs, portrait.as_str()));
    }
    if let Some(color) = &ch.color {
        push_entry(&mut c, "color", JsonValue::Str(String::from_str(color.as_str())));
    }
    if let Some(style) = &ch.style {
        push_entry(&mut c, "style", JsonValue::Str(String::from_str(style.as_str())));
    }
    assert(entries_view(c@) =~= entries_of(character_json(ch@, defs@.assets)));
    JsonValue::Object(c)
}

/// A scene: background and ambient (resolved) where given, and its
/// characters when there are any.
pub open spec fn scene_json(s: SceneDefView, assets: Seq<(Seq<char>, AssetDefView)>) -> JsonView {
    let e1: Seq<(Seq<char>, JsonView)> = match s.background {
        Some(bg) => seq![("background"@, resolved_json(bg, assets))],
        None => Seq::empty(),
    };
    let e2 = match s.ambient {
        Some(a) => e1.push(("ambient"@, resolved_json(a, assets))),
        None => e1,
    };
    JsonView::Object(
        if s.characters.len() > 0 {
            e2.push(
                ("characters"@, JsonView::Array(s.characters.map_values(|c: Seq<char>| JsonView::Str(c)))),
            )
        } else {
            e2
        },
    )
}

fn scene_to_json(defs: &Definitions, scene: &SceneDef) -> (r: JsonValue)
    ensures
        r@ == scene_json(scene@, defs@.assets),
{
    let mut s: Vec<(String, JsonValue)> = Vec::new();
    assert(entries_view(s@) =~= Seq::<(Seq<char>, JsonView)>::empty());
    if let Some(bg) = &scene.background {
        push_entry(&mut s, "background", resolve_asset(defs, bg.as_str()));
    }
    if let Some(amb) = &scene.ambient {
        push_entry(&mut s, "ambient", resolve_asset(defs, amb.as_str()));
    }
    if scene.characters.len() > 0 {
        let mut chars: Vec<JsonValue> = Vec::new();
        let ghost cv = scene@.characters;
        let mut i: usize = 0;
        while i < scene.characters.len()
            invariant
                i <= scene.characters@.len(),
                cv == scene@.characters,
                jsons_view(chars@) == cv.take(i as int).map_values(|c: Seq<char>| JsonView::Str(c)),
            decreases scene.characters.len() - i,
        {
            push_item(&mut chars, JsonValue::Str(String::from_str(scene.characters[i].as_str())));
            assert(cv.take(i + 1).map_values(|c: Seq<char>| JsonView::Str(c)) =~= cv.take(
                i as int,
            ).map_values(|c: Seq<char>| JsonView::Str(c)).push(JsonView::Str(cv[i as int])));
            i = i + 1;
        }
        assert(cv.take(i as int) =~= cv);
        push_entry(&mut s, "characters", json_array(chars));
    }
    assert(entries_view(s@) =~= entries_of(scene_json(scene@, defs@.assets)));
    JsonValue::Object(s)
}

/// A parameter: name, type, whether required, and (when asked and given)
/// its default.
pub open spec fn param_json(p: ParamDefView, with_default: bool) -> JsonView {
    let e = seq![
        ("name"@, JsonView::Str(p.name)),
        ("type"@, JsonView::Str(p.param_type)),
        ("required"@, JsonView::Bool(p.required)),
    ];
    JsonView::Object(
        match p.default {
            Some(d) => if with_default {
                e.push(("default"@, default_json(d)))
            } else {
                e
            },
            None => e,
        },
    )
}

fn params_to_json(params: &Vec<ParamDef>, with_default: bool) -> (r: JsonValue)
    ensures
        r@ == JsonView::Array(params@.map_values(|p: ParamDef| param_json(p@, with_default))),
{
    let mut out: Vec<JsonValue> = Vec::new();
    let mut i: usize = 0;
    while i < params.len()
        invariant
            i <= params@.len(),
            jsons_view(out@) == params@.take(i as int).map_values(|p: ParamDef| param_json(p@, with_default)),
        decreases params.len() - i,
    {
        let p = &params[i];
        let mut pm: Vec<(String, JsonValue)> = Vec::new();
        assert(entries_view(pm@) =~= Seq::<(Seq<char>, JsonView)>::empty());
        push_entry(&mut pm, "name", JsonValue::Str(String::from_str(p.name.as_str())));
        push_entry(&mut pm, "type", JsonValue::Str(String::from_str(p.param_type.as_str())));
        push_entry(&mut pm, "required", JsonValue::Bool(p.required));
        if with_default {
            if let Some(def) = &p.default {
                push_entry(&mut pm, "default", value_to_json(def));
            }
        }
        assert(entries_view(pm@) =~= entries_of(param_json(p@, with_default)));
        push_item(&mut out, JsonValue::Object(pm));
        assert(params@.take(i + 1).map_values(|p: ParamDef| param_json(p@, with_default)) =~= params@.take(
            i as int,
        ).map_values(|p: ParamDef| param_json(p@, with_default)).push(param_json(p@, with_default)));
        i = i + 1;
    }
    assert(params@.take(i as int) =~= params@);
    json_array(out)
}

/// An action: its parameters (when it has any) and what it returns.
pub open spec fn action_json(a: ActionDefView) -> JsonView {
    let e: Seq<(Seq<char>, JsonView)> = if a.params.len() > 0 {
        seq![("params"@, JsonView::Array(a.params.map_values(|p: ParamDefView| param_json(p, true))))]
    } else {
        Seq::empty()
    };
    JsonView::Object(e.push(("returns"@, JsonView::Str(a.returns))))
}

fn action_to_json(action: &ActionDef) -> (r: JsonValue)
    ensures
        r@ == action_json(action@),
{
    let mut a: Vec<(String, JsonValue)> = Vec::new();
    assert(entries_view(a@) =~= Seq::<(Seq<char>, JsonView)>::empty());
    if action.params.len() > 0 {
        let params = params_to_json(&action.params, true);
        assert(action.params@.map_values(|p: ParamDef| param_json(p@, true)) =~= action@.params.map_values(
            |p: ParamDefView| param_json(p, true),
        ));
        push_entry(&mut a, "params", params);
    }
    push_entry(&mut a, "returns", JsonValue::Str(String::from_str(action.returns.as_str())));
    assert(entries_view(a@) =~= entries_of(action_json(action@)));
    JsonValue::Object(a)
}

/// A state variable: its type, then default, min and max where given.
pub open spec fn state_json(s: StateVarDefView) -> JsonView {
    let e1 = seq![("type"@, JsonView::Str(s.var_type))];
    let e2 = match s.default {
        Some(d) => e1.push(("default"@, default_json(d))),
        None => e1,
    };
    let e3 = match s.min {
        Some(m) => e2.push(("min"@, JsonView::Int(m as int))),
        None => e2,
    };
    JsonView::Object(
        match s.max {
            Some(m) => e3.push(("max"@, JsonView::Int(m as int))),
            None => e3,
        },
    )
}

fn state_to_json(sv: &StateVarDef) -> (r: JsonValue)
    ensures
        r@ == state_json(sv@),
{
    let mut s: Vec<(String, JsonValue)> = Vec::new();
    assert(entries_view(s@) =~= Seq::<(Seq<char>, JsonView)>::empty());
    push_entry(&mut s, "type", JsonValue::Str(String::from_str(sv.var_type.as_str())));
    if let Some(def) = &sv.default {
        push_entry(&mut s, "default", value_to_json(def));
    }
    if let Some(min) = sv.min {
        push_entry(&mut s, "min", JsonValue::Int(min));
    }
    if let Some(max) = sv.max {
        push_entry(&mut s, "max", JsonValue::Int(max));
    }
    assert(entries_view(s@) =~= entries_of(state_json(sv@)));
    JsonValue::Object(s)
}

/// An event: its parameters (without defaults) when it has any.
pub open spec fn event_json(e: EventDefView) -> JsonView {
    JsonView::Object(
        if e.params.len() > 0 {
            seq![("params"@, JsonView::Array(e.params.map_values(|p: ParamDefView| param_json(p, false))))]
        } else {
            Seq::empty()
        },
    )
}

fn event_to_json(event: &EventDef) -> (r: JsonValue)
    ensures
        r@ == event_json(event@),
{
    let mut e: Vec<(String, JsonValue)> = Vec::new();
    assert(entries_view(e@) =~= Seq::<(Seq<char>, JsonView)>::empty());
    if event.params.len() > 0 {
        let params = params_to_json(&event.params, false);
        assert(event.params@.map_values(|p: ParamDef| param_json(p@, false)) =~= event@.params.map_values(
            |p: ParamDefView| param_json(p, false),
        ));
        push_entry(&mut e, "params", params);
    }
    assert(entries_view(e@) =~= entries_of(event_json(event@)));
    JsonValue::Object(e)
}

/// The entries of a kind inserted one after another into a dict, each as
/// `f` renders it.
pub open spec fn section<X>(entries: Seq<(Seq<char>, X)>, f: spec_fn(X) -> JsonView) -> Seq<
    (Seq<char>, JsonView),
>
    decreases entries.len(),
{
    if entries.len() == 0 {
        Seq::empty()
    } else {
        named_insert(section(entries.drop_last(), f), entries.last().0, f(entries.last().1))
    }
}

/// The schema: the version, then assets, characters, scenes, actions,
/// state and events, each only when there are any.
pub open spec fn schema_json(d: DefinitionsView) -> JsonView {
    let e1 = seq![("version"@, JsonView::Int(d.version as int))];
    let e2 = if d.assets.len() > 0 {
        e1.push(("assets"@, JsonView::Object(section(d.assets, |a: AssetDefView| asset_json(a)))))
    } else {
        e1
    };
    let e3 = if d.characters.len() > 0 {
        e2.push(
            ("characters"@, JsonView::Object(
                section(d.characters, |c: CharacterDefView| character_json(c, d.assets)),
            )),
        )
    } else {
        e2
    };
    let e4 = if d.scenes.len() > 0 {
        e3.push(("scenes"@, JsonView::Object(section(d.scenes, |s: SceneDefView| scene_json(s, d.assets)))))
    } else {
        e3
    };
    let e5 = if d.actions.len() > 0 {
        e4.push(("actions"@, JsonView::Object(section(d.actions, |a: ActionDefView| action_json(a)))))
    } else {
        e4
    };
    let e6 = if d.state.len() > 0 {
        e5.push(("state"@, JsonView::Object(section(d.state, |s: StateVarDefView| state_json(s)))))
    } else {
        e5
    };
    JsonView::Object(
        if d.events.len() > 0 {
            e6.push(("events"@, JsonView::Object(section(d.events, |e: EventDefView| event_json(e)))))
        } else {
            e6
        },
    )
}

/// Generate the definitions schema JSON from a Definitions struct.
pub fn generate_schema(defs: &Definitions) -> (r: JsonValue)
    ensures
        r@ == schema_json(defs@),
{
    let mut root: Vec<(String, JsonValue)> = Vec::new();
    assert(entries_view(root@) =~= Seq::<(Seq<char>, JsonView)>::empty());
    push_entry(&mut root, "version", JsonValue::Int(defs.version));

    // Assets
    if defs.assets.len() > 0 {
        let ghost f = |a: AssetDefView| asset_json(a);
        let mut m: Vec<(String, JsonValue)> = Vec::new();
        let mut i: usize = 0;
        assert(entries_view(m@) =~= section(defs@.assets.take(0), f));
        while i < defs.assets.len()
            invariant
                i <= defs.assets@.len(),
                f == (|a: AssetDefView| asset_json(a)),
                entries_view(m@) == section(defs@.assets.take(i as int), f),
            decreases defs.assets.len() - i,
        {
            let v = asset_to_json(&defs.assets[i].1);
            insert_entry(&mut m, defs.assets[i].0.as_str(), v);
            assert(defs@.assets.take(i + 1).drop_last() =~= defs@.assets.take(i as int));
            i = i + 1;
        }
        assert(defs@.assets.take(i as int) =~= defs@.assets);
        push_entry(&mut root, "assets", JsonValue::Object(m));
    }
    // Characters (with resolved portrait)

    if defs.characters.len() > 0 {
        let ghost f = |c: CharacterDefView| character_json(c, defs@.assets);
        let mut m: Vec<(String, JsonValue)> = Vec::new();
        let mut i: usize = 0;
        assert(entries_view(m@) =~= section(defs@.characters.take(0), f));
        while i < defs.characters.len()
            invariant
                i <= defs.characters@.len(),
                f == (|c: CharacterDefView| character_json(c, defs@.assets)),
                entries_view(m@) == section(defs@.characters.take(i as int), f),
            decreases defs.characters.len() - i,
        {
            let v = character_to_json(defs, &defs.characters[i].1);
            insert_entry(&mut m, defs.characters[i].0.as_str(), v);
            assert(defs@.characters.take(i + 1).drop_last() =~= defs@.characters.take(i as int));
            i = i + 1;
        }
        assert(defs@.characters.take(i as int) =~= defs@.characters);
        push_entry(&mut root, "characters", JsonValue::Object(m));
    }
    // Scenes

    if defs.scenes.len() > 0 {
        let ghost f = |s: SceneDefView| scene_json(s, defs@.assets);
        let mut m: Vec<(String, JsonValue)> = Vec::new();
        let mut i: usize = 0;
        assert(entries_view(m@) =~= section(defs@.scenes.take(0), f));
        while i < defs.scenes.len()
            invariant
                i <= defs.scenes@.len(),
                f == (|s: SceneDefView| scene_json(s, defs@.assets)),
                entries_view(m@) == section(defs@.scenes.take(i as int), f),
            decreases defs.scenes.len() - i,
        {
            let v = scene_to_json(defs, &defs.scenes[i].1);
            insert_entry(&mut m, defs.scenes[i].0.as_str(), v);
            assert(defs@.scenes.take(i + 1).drop_last() =~= defs@.scenes.take(i as int));
            i = i + 1;
        }
        assert(defs@.scenes.take(i as int) =~= defs@.scenes);
        push_entry(&mut root, "scenes", JsonValue::Object(m));
    }
    // Actions

    if defs.actions.len() > 0 {
        let ghost f = |a: ActionDefView| action_json(a);
        let mut m: Vec<(String, JsonValue)> = Vec::new();
        let mut i: usize = 0;
        assert(entries_view(m@) =~= section(defs@.actions.take(0), f));
        while i < defs.actions.len()
            invariant
                i <= defs.actions@.len(),
                f == (|a: ActionDefView| action_json(a)),
                entries_view(m@) == section(defs@.actions.take(i as int), f),
            decreases defs.actions.len() - i,
        {
            let v = action_to_json(&defs.actions[i].1);
            insert_entry(&mut m, defs.actions[i].0.as_str(), v);
            assert(defs@.actions.take(i + 1).drop_last() =~= defs@.actions.take(i as int));
            i = i + 1;
        }
        assert(defs@.actions.take(i as int) =~= defs@.actions);
        push_entry(&mut root, "actions", JsonValue::Object(m));
    }
    // State

    if defs.state.len() > 0 {
        let ghost f = |s: StateVarDefView| state_json(s);
        let mut m: Vec<(String, JsonValue)> = Vec::new();
        let mut i: usize = 0;
        assert(entries_view(m@) =~= section(defs@.state.take(0), f));
        while i < defs.state.len()
            invariant
                i <= defs.state@.len(),
                f == (|s: StateVarDefView| state_json(s)),
                entries_view(m@) == section(defs@.state.take(i as int), f),
            decreases defs.state.len() - i,
        {
            let v = state_to_json(&defs.state[i].1);
            insert_entry(&mut m, defs.state[i].0.as_str(), v);
            assert(defs@.state.take(i + 1).drop_last() =~= defs@.state.take(i as int));
            i = i + 1;
        }
        assert(defs@.state.take(i as int) =~= defs@.state);
        push_entry(&mut root, "state", JsonValue::Object(m));
    }
    // Events

    if defs.events.len() > 0 {
        let ghost f = |e: EventDefView| event_json(e);
        let mut m: Vec<(String, JsonValue)> = Vec::new();
        let mut i: usize = 0;
        assert(entries_view(m@) =~= section(defs@.events.take(0), f));
        while i < defs.events.len()
            invariant
                i <= defs.events@.len(),
                f == (|e: EventDefView| event_json(e)),
                entries_view(m@) == section(defs@.events.take(i as int), f),
            decreases defs.events.len() - i,
        {
            let v = event_to_json(&defs.events[i].1);
            insert_entry(&mut m, defs.events[i].0.as_str(), v);
            assert(defs@.events.take(i + 1).drop_last() =~= defs@.events.take(i as int));
            i = i + 1;
        }
        assert(defs@.events.take(i as int) =~= defs@.events);
        push_entry(&mut root, "events", JsonValue::Object(m));
    }
    assert(entries_view(root@) =~= entries_of(schema_json(defs@)));
    JsonValue::Object(root)
}

} // verus!
