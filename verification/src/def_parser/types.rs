//! The definitions of a `.inkdef.yaml` file: assets, characters, scenes,
//! actions, state variables and events, each under its name.

use vstd::prelude::*;
use crate::compiler::runtime_types::{find_key, law_named_insert_unique, named_insert, unique_keys};
use crate::text::str_equal;

verus! {

/// A floating-point number of the definitions, by the shortest decimal
/// text that reads back as it; infinities and NaN have no such text.
#[derive(Debug)]
pub enum FloatValue {
    Finite(String),
    NotFinite,
}

pub enum FloatValueView {
    Finite(Seq<char>),
    NotFinite,
}

impl View for FloatValue {
    type V = FloatValueView;

    open spec fn view(&self) -> FloatValueView {
        match self {
            FloatValue::Finite(t) => FloatValueView::Finite(t@),
            FloatValue::NotFinite => FloatValueView::NotFinite,
        }
    }
}

/// A scalar default value; sequences and mappings count as `Other`.
#[derive(Debug)]
pub enum DefaultValue {
    Null,
    Bool(bool),
    Int(i64),
    Float(FloatValue),
    Str(String),
    Other,
}

pub enum DefaultValueView {
    Null,
    Bool(bool),
    Int(i64),
    Float(FloatValueView),
    Str(Seq<char>),
    Other,
}

impl View for DefaultValue {
    type V = DefaultValueView;

    open spec fn view(&self) -> DefaultValueView {
        match self {
            DefaultValue::Null => DefaultValueView::Null,
            DefaultValue::Bool(b) => DefaultValueView::Bool(*b),
            DefaultValue::Int(n) => DefaultValueView::Int(*n),
            DefaultValue::Float(f) => DefaultValueView::Float(f@),
            DefaultValue::Str(s) => DefaultValueView::Str(s@),
            DefaultValue::Other => DefaultValueView::Other,
        }
    }
}

#[derive(Debug)]
pub struct AssetDef {
    pub asset_type: String,
    pub path: String,
    pub duration: Option<FloatValue>,
    pub width: Option<u32>,
    pub height: Option<u32>,
    pub loop_: Option<bool>,
}

pub struct AssetDefView {
    pub asset_type: Seq<char>,
    pub path: Seq<char>,
    pub duration: Option<FloatValueView>,
    pub width: Option<u32>,
    pub height: Option<u32>,
    pub loop_: Option<bool>,
}

impl View for AssetDef {
    type V = AssetDefView;

    open spec fn view(&self) -> AssetDefView {
        AssetDefView {
            asset_type: self.asset_type@,
            path: self.path@,
            duration: match self.duration {
                Some(d) => Some(d@),
                None => None,
            },
            width: self.width,
            height: self.height,
            loop_: self.loop_,
        }
    }
}

#[derive(Debug)]
pub struct CharacterDef {
    pub display_name: String,
    pub portrait: Option<String>,
    pub color: Option<String>,
    pub style: Option<String>,
}

pub struct CharacterDefView {
    pub display_name: Seq<char>,
    pub portrait: Option<Seq<char>>,
    pub color: Option<Seq<char>>,
    pub style: Option<Seq<char>>,
}

impl View for CharacterDef {
    type V = CharacterDefView;

    open spec fn view(&self) -> CharacterDefView {
        CharacterDefView {
            display_name: self.display_name@,
            portrait: crate::compiler::runtime_types::opt_string_view(self.portrait),
            color: crate::compiler::runtime_types::opt_string_view(self.color),
            style: crate::compiler::runtime_types::opt_string_view(self.style),
        }
    }
}

#[derive(Debug)]
pub struct SceneDef {
    pub background: Option<String>,
    pub ambient: Option<String>,
    pub characters: Vec<String>,
}

pub struct SceneDefView {
    pub background: Option<Seq<char>>,
    pub ambient: Option<Seq<char>>,
    pub characters: Seq<Seq<char>>,
}

impl View for SceneDef {
    type V = SceneDefView;

    open spec fn view(&self) -> SceneDefView {
        SceneDefView {
            background: crate::compiler::runtime_types::opt_string_view(self.background),
            ambient: crate::compiler::runtime_types::opt_string_view(self.ambient),
            characters: self.characters@.map_values(|c: String| c@),
        }
    }
}

#[derive(Debug)]
pub struct ParamDef {
    pub name: String,
    pub param_type: String,
    pub required: bool,
    pub default: Option<DefaultValue>,
}

pub struct ParamDefView {
    pub name: Seq<char>,
    pub param_type: Seq<char>,
    pub required: bool,
    pub default: Option<DefaultValueView>,
}

impl View for ParamDef {
    type V = ParamDefView;

    open spec fn view(&self) -> ParamDefView {
        ParamDefView {
            name: self.name@,
            param_type: self.param_type@,
            required: self.required,
            default: match self.default {
                Some(d) => Some(d@),
                None => None,
            },
        }
    }
}

#[derive(Debug)]
pub struct ActionDef {
    pub params: Vec<ParamDef>,
    pub returns: String,
}

pub struct ActionDefView {
    pub params: Seq<ParamDefView>,
    pub returns: Seq<char>,
}

impl View for ActionDef {
    type V = ActionDefView;

    open spec fn view(&self) -> ActionDefView {
        ActionDefView { params: self.params@.map_values(|p: ParamDef| p@), returns: self.returns@ }
    }
}

#[derive(Debug)]
pub struct StateVarDef {
    pub var_type: String,
    pub default: Option<DefaultValue>,
    pub min: Option<i64>,
    pub max: Option<i64>,
}

pub struct StateVarDefView {
    pub var_type: Seq<char>,
    pub default: Option<DefaultValueView>,
    pub min: Option<i64>,
    pub max: Option<i64>,
}

impl View for StateVarDef {
    type V = StateVarDefView;

    open spec fn view(&self) -> StateVarDefView {
        StateVarDefView {
            var_type: self.var_type@,
            default: match self.default {
                Some(d) => Some(d@),
                None => None,
            },
            min: self.min,
            max: self.max,
        }
    }
}

#[derive(Debug)]
pub struct EventDef {
    pub params: Vec<ParamDef>,
}

pub struct EventDefView {
    pub params: Seq<ParamDefView>,
}

impl View for EventDef {
    type V = EventDefView;

    open spec fn view(&self) -> EventDefView {
        EventDefView { params: self.params@.map_values(|p: ParamDef| p@) }
    }
}

/// The definitions of one file, each kind keyed by name.
#[derive(Debug)]
pub struct Definitions {
    pub version: i64,
    pub assets: Vec<(String, AssetDef)>,
    pub characters: Vec<(String, CharacterDef)>,
    pub scenes: Vec<(String, SceneDef)>,
    pub actions: Vec<(String, ActionDef)>,
    pub state: Vec<(String, StateVarDef)>,
    pub events: Vec<(String, EventDef)>,
}

pub struct DefinitionsView {
    pub version: i64,
    pub assets: Seq<(Seq<char>, AssetDefView)>,
    pub characters: Seq<(Seq<char>, CharacterDefView)>,
    pub scenes: Seq<(Seq<char>, SceneDefView)>,
    pub actions: Seq<(Seq<char>, ActionDefView)>,
    pub state: Seq<(Seq<char>, StateVarDefView)>,
    pub events: Seq<(Seq<char>, EventDefView)>,
}

impl View for Definitions {
    type V = DefinitionsView;

    open spec fn view(&self) -> DefinitionsView {
        DefinitionsView {
            version: self.version,
            assets: self.assets@.map_values(|e: (String, AssetDef)| (e.0@, e.1@)),
            characters: self.characters@.map_values(|e: (String, CharacterDef)| (e.0@, e.1@)),
            scenes: self.scenes@.map_values(|e: (String, SceneDef)| (e.0@, e.1@)),
            actions: self.actions@.map_values(|e: (String, ActionDef)| (e.0@, e.1@)),
            state: self.state@.map_values(|e: (String, StateVarDef)| (e.0@, e.1@)),
            events: self.events@.map_values(|e: (String, EventDef)| (e.0@, e.1@)),
        }
    }
}

impl DefinitionsView {
    /// Each name occurs once per kind.
    pub open spec fn wf(self) -> bool {
        &&& unique_keys(self.assets)
        &&& unique_keys(self.characters)
        &&& unique_keys(self.scenes)
        &&& unique_keys(self.actions)
        &&& unique_keys(self.state)
        &&& unique_keys(self.events)
    }
}

/// The entry under `key`, if any.
pub open spec fn lookup<V>(m: Seq<(Seq<char>, V)>, key: Seq<char>) -> Option<V> {
    match find_key(m, key) {
        Some(i) => Some(m[i].1),
        None => None,
    }
}

/// The keys of a map in order.
pub open spec fn key_seq<V>(m: Seq<(String, V)>) -> Seq<(Seq<char>, ())> {
    m.map_values(|e: (String, V)| (e.0@, ()))
}

/// The position of the entry under `key`, if any.
pub fn find_entry<V>(m: &Vec<(String, V)>, key: &str) -> (r: Option<usize>)
    ensures
        match r {
            Some(i) => find_key(key_seq(m@), key@) == Some(i as int) && i < m@.len(),
            None => find_key(key_seq(m@), key@) is None,
        },
{
    let ghost ks = key_seq(m@);
    proof {
        crate::compiler::runtime_types::lemma_find_key(ks, key@);
    }
    let mut i: usize = 0;
    while i < m.len()
        invariant
            ks == key_seq(m@),
            i <= m@.len(),
            forall|j: int| 0 <= j < i ==> (#[trigger] ks[j]).0 != key@,
            match find_key(ks, key@) {
                Some(k) => 0 <= k < ks.len() && ks[k].0 == key@ && forall|j: int|
                    0 <= j < k ==> (#[trigger] ks[j]).0 != key@,
                None => forall|j: int| 0 <= j < ks.len() ==> (#[trigger] ks[j]).0 != key@,
            },
        decreases m.len() - i,
    {
        assert(ks[i as int].0 == m@[i as int].0@);
        if str_equal(m[i].0.as_str(), key) {
            proof {
                match find_key(ks, key@) {
                    Some(k) => {
                        if k < i {
                            assert(ks[k].0 != key@);
                        } else if k > i {
                            assert(ks[i as int].0 != key@);
                        }
                    },
                    None => {
                        assert(ks[i as int].0 != key@);
                    },
                }
            }
            return Some(i);
        }
        i = i + 1;
    }
    None
}

/// `find_key` looks only at the keys.
pub proof fn lemma_find_key_keys<V, W>(m: Seq<(Seq<char>, V)>, n: Seq<(Seq<char>, W)>, key: Seq<char>)
    requires
        m.len() == n.len(),
        forall|i: int| 0 <= i < m.len() ==> (#[trigger] m[i]).0 == n[i].0,
    ensures
        find_key(m, key) == find_key(n, key),
    decreases m.len(),
{
    if m.len() > 0 {
        assert forall|i: int| 0 <= i < m.len() - 1 implies (#[trigger] m.drop_last()[i]).0
            == n.drop_last()[i].0 by {
            assert(m[i].0 == n[i].0);
        }
        lemma_find_key_keys(m.drop_last(), n.drop_last(), key);
    }
}


// ---------------------------------------------------------------------------
// Entries kept as a map keeps them
// ---------------------------------------------------------------------------

/// The entries as a map holds them: a later entry under a name replaces
/// the earlier one's value, in the earlier one's place.
pub open spec fn distinct_entries<V>(m: Seq<(Seq<char>, V)>) -> Seq<(Seq<char>, V)>
    decreases m.len(),
{
    if m.len() == 0 {
        m
    } else {
        named_insert(distinct_entries(m.drop_last()), m.last().0, m.last().1)
    }
}

/// The definitions with each kind held as a map: one entry per name, the
/// last one given.
pub open spec fn distinct_definitions(d: DefinitionsView) -> DefinitionsView {
    DefinitionsView {
        version: d.version,
        assets: distinct_entries(d.assets),
        characters: distinct_entries(d.characters),
        scenes: distinct_entries(d.scenes),
        actions: distinct_entries(d.actions),
        state: distinct_entries(d.state),
        events: distinct_entries(d.events),
    }
}

pub proof fn lemma_distinct_entries_unique<V>(m: Seq<(Seq<char>, V)>)
    ensures
        unique_keys(distinct_entries(m)),
    decreases m.len(),
{
    if m.len() > 0 {
        lemma_distinct_entries_unique(m.drop_last());
        law_named_insert_unique(distinct_entries(m.drop_last()), m.last().0, m.last().1);
    }
}

/// Definitions held as maps are well formed: each name occurs once per
/// kind.
pub proof fn law_distinct_definitions_wf(d: DefinitionsView)
    ensures
        distinct_definitions(d).wf(),
{
    lemma_distinct_entries_unique(d.assets);
    lemma_distinct_entries_unique(d.characters);
    lemma_distinct_entries_unique(d.scenes);
    lemma_distinct_entries_unique(d.actions);
    lemma_distinct_entries_unique(d.state);
    lemma_distinct_entries_unique(d.events);
}

/// The view of a vector of named entries.
pub open spec fn entries_of<V: View>(m: Seq<(String, V)>) -> Seq<(Seq<char>, V::V)> {
    m.map_values(|e: (String, V)| (e.0@, e.1@))
}

/// The entries of `m` as a map holds them.
pub fn distinct<V: View>(m: Vec<(String, V)>) -> (r: Vec<(String, V)>)
    ensures
        entries_of(r@) == distinct_entries(entries_of(m@)),
{
    let ghost orig = m@;
    let mut rest = m;
    let mut out: Vec<(String, V)> = Vec::new();
    let ghost mut taken: int = 0;
    assert(entries_of(out@) =~= distinct_entries(entries_of(orig).take(0)));
    while rest.len() > 0
        invariant
            0 <= taken <= orig.len(),
            rest@ == orig.subrange(taken, orig.len() as int),
            entries_of(out@) == distinct_entries(entries_of(orig).take(taken)),
        decreases rest.len(),
    {
        let e = rest.remove(0);
        let ghost before = entries_of(out@);
        let ghost ev = (e.0@, e.1@);
        proof {
            assert(e == orig[taken]);
            let t1 = entries_of(orig).take(taken + 1);
            assert(t1.drop_last() =~= entries_of(orig).take(taken));
            assert(t1.last() == ev);
            lemma_find_key_keys(key_seq(out@), entries_of(out@), e.0@);
            assert forall|i: int| 0 <= i < out@.len() implies (#[trigger] key_seq(out@)[i]).0 == entries_of(
                out@,
            )[i].0 by {}
        }
        let found = find_entry(&out, e.0.as_str());
        match found {
            Some(i) => {
                out.set(i, e);
                proof {
                    assert(entries_of(out@) =~= before.update(i as int, ev));
                }
            },
            None => {
                out.push(e);
                proof {
                    assert(entries_of(out@) =~= before.push(ev));
                }
            },
        }
        proof {
            taken = taken + 1;
            assert(rest@ =~= orig.subrange(taken, orig.len() as int));
        }
    }
    assert(entries_of(orig).take(taken) =~= entries_of(orig));
    out
}

/// The definitions with each kind held as a map.
pub fn distinct_defs(d: Definitions) -> (r: Definitions)
    ensures
        r@ == distinct_definitions(d@),
{
    let ghost dv = d@;
    proof {
        assert(entries_of(d.assets@) =~= dv.assets);
        assert(entries_of(d.characters@) =~= dv.characters);
        assert(entries_of(d.scenes@) =~= dv.scenes);
        assert(entries_of(d.actions@) =~= dv.actions);
        assert(entries_of(d.state@) =~= dv.state);
        assert(entries_of(d.events@) =~= dv.events);
    }
    let r = Definitions {
        version: d.version,
        assets: distinct(d.assets),
        characters: distinct(d.characters),
        scenes: distinct(d.scenes),
        actions: distinct(d.actions),
        state: distinct(d.state),
        events: distinct(d.events),
    };
    proof {
        assert(entries_of(r.assets@) =~= r@.assets);
        assert(entries_of(r.characters@) =~= r@.characters);
        assert(entries_of(r.scenes@) =~= r@.scenes);
        assert(entries_of(r.actions@) =~= r@.actions);
        assert(entries_of(r.state@) =~= r@.state);
        assert(entries_of(r.events@) =~= r@.events);
    }
    r
}

} // verus!
