//! Referential integrity of definitions: the schema version, the assets
//! that characters and scenes name (and their types), the characters that
//! scenes name, and the types of action and event parameters.

use vstd::prelude::*;
use crate::compiler::runtime_types::find_key;
use crate::def_parser::error::{DefinitionError, DefinitionErrorView};
use crate::def_parser::types::{ActionDefView, AssetDef, AssetDefView, CharacterDefView, Definitions, DefinitionsView, EventDefView, ParamDef, ParamDefView, SceneDefView, find_entry, key_seq, lemma_find_key_keys, lookup};
use crate::text::str_equal;

verus! {

/// The parameter types of the definitions' type system.
pub open spec fn valid_param_type(t: Seq<char>) -> bool {
    ||| t == "string"@
    ||| t == "int"@
    ||| t == "float"@
    ||| t == "bool"@
    ||| t == "audio"@
    ||| t == "image"@
    ||| t == "scene"@
    ||| t == "character"@
    ||| t == "asset"@
    ||| t == "void"@
}

/// Known parameter types in the definitions type system.
pub fn is_valid_param_type(t: &str) -> (r: bool)
    ensures
        r == valid_param_type(t@),
{
    str_equal(t, "string") || str_equal(t, "int") || str_equal(t, "float") || str_equal(t, "bool")
        || str_equal(t, "audio") || str_equal(t, "image") || str_equal(t, "scene") || str_equal(
        t,
        "character",
    ) || str_equal(t, "asset") || str_equal(t, "void")
}

/// An asset reference must name an asset of the expected type.
pub open spec fn asset_ref_errors(
    r: Seq<char>,
    expected: Seq<char>,
    referenced_by: Seq<char>,
    assets: Seq<(Seq<char>, AssetDefView)>,
    filename: Seq<char>,
) -> Seq<DefinitionErrorView> {
    match lookup(assets, r) {
        Some(a) => if a.asset_type != expected {
            seq![
                DefinitionErrorView::TypeMismatch {
                    expected,
                    actual: a.asset_type,
                    name: r,
                    referenced_by,
                    filename,
                },
            ]
        } else {
            Seq::empty()
        },
        None => seq![
            DefinitionErrorView::UndefinedReference {
                kind: "asset"@,
                name: r,
                referenced_by,
                filename,
            },
        ],
    }
}

/// `<kind> '<name>'<suffix>`, the way errors name what refers.
pub open spec fn referrer(kind: Seq<char>, name: Seq<char>, suffix: Seq<char>) -> Seq<char> {
    kind + " '"@ + name + "'"@ + suffix
}

/// Each character's portrait must be an image asset.
pub open spec fn character_errors(
    chars: Seq<(Seq<char>, CharacterDefView)>,
    assets: Seq<(Seq<char>, AssetDefView)>,
    filename: Seq<char>,
) -> Seq<DefinitionErrorView>
    decreases chars.len(),
{
    if chars.len() == 0 {
        Seq::empty()
    } else {
        let (name, c) = chars.last();
        character_errors(chars.drop_last(), assets, filename) + match c.portrait {
            Some(p) => asset_ref_errors(
                p,
                "image"@,
                referrer("character"@, name, ".portrait"@),
                assets,
                filename,
            ),
            None => Seq::empty(),
        }
    }
}

/// Each character a scene names must be defined.
pub open spec fn scene_character_errors(
    cs: Seq<Seq<char>>,
    scene: Seq<char>,
    chars: Seq<(Seq<char>, CharacterDefView)>,
    filename: Seq<char>,
) -> Seq<DefinitionErrorView>
    decreases cs.len(),
{
    if cs.len() == 0 {
        Seq::empty()
    } else {
        scene_character_errors(cs.drop_last(), scene, chars, filename) + if find_key(
            chars,
            cs.last(),
        ) is None {
            seq![
                DefinitionErrorView::UndefinedReference {
                    kind: "character"@,
                    name: cs.last(),
                    referenced_by: referrer("scene"@, scene, ".characters"@),
                    filename,
                },
            ]
        } else {
            Seq::empty()
        }
    }
}

/// Each scene's background must be an image asset, its ambient an audio
/// asset, and its characters defined.
pub open spec fn scene_errors(d: DefinitionsView, scenes: Seq<(Seq<char>, SceneDefView)>, filename: Seq<char>) -> Seq<
    DefinitionErrorView,
>
    decreases scenes.len(),
{
    if scenes.len() == 0 {
        Seq::empty()
    } else {
        let (name, s) = scenes.last();
        scene_errors(d, scenes.drop_last(), filename) + (match s.background {
            Some(bg) => asset_ref_errors(
                bg,
                "image"@,
                referrer("scene"@, name, ".background"@),
                d.assets,
                filename,
            ),
            None => Seq::empty(),
        }) + (match s.ambient {
            Some(a) => asset_ref_errors(
                a,
                "audio"@,
                referrer("scene"@, name, ".ambient"@),
                d.assets,
                filename,
            ),
            None => Seq::empty(),
        }) + scene_character_errors(s.characters, name, d.characters, filename)
    }
}

/// Each parameter's type must be a known type.
pub open spec fn param_errors(params: Seq<ParamDefView>, owner: Seq<char>, filename: Seq<char>) -> Seq<
    DefinitionErrorView,
>
    decreases params.len(),
{
    if params.len() == 0 {
        Seq::empty()
    } else {
        let p = params.last();
        param_errors(params.drop_last(), owner, filename) + if valid_param_type(p.param_type) {
            Seq::empty()
        } else {
            seq![
                DefinitionErrorView::TypeMismatch {
                    expected: "valid type"@,
                    actual: p.param_type,
                    name: p.param_type,
                    referenced_by: owner + ".param '"@ + p.name + "'"@,
                    filename,
                },
            ]
        }
    }
}

pub open spec fn action_errors(actions: Seq<(Seq<char>, ActionDefView)>, filename: Seq<char>) -> Seq<
    DefinitionErrorView,
>
    decreases actions.len(),
{
    if actions.len() == 0 {
        Seq::empty()
    } else {
        let (name, a) = actions.last();
        action_errors(actions.drop_last(), filename) + param_errors(
            a.params,
            "action '"@ + name + "'"@,
            filename,
        )
    }
}

pub open spec fn event_errors(events: Seq<(Seq<char>, EventDefView)>, filename: Seq<char>) -> Seq<
    DefinitionErrorView,
>
    decreases events.len(),
{
    if events.len() == 0 {
        Seq::empty()
    } else {
        let (name, e) = events.last();
        event_errors(events.drop_last(), filename) + param_errors(
            e.params,
            "event '"@ + name + "'"@,
            filename,
        )
    }
}

/// Every problem with the definitions: a version other than 1 alone, or
/// else the character, scene, action and event errors in that order.
pub open spec fn validate_spec(d: DefinitionsView, filename: Seq<char>) -> Seq<DefinitionErrorView> {
    if d.version != 1 {
        seq![DefinitionErrorView::InvalidSchemaVersion { version: d.version, filename }]
    } else {
        character_errors(d.characters, d.assets, filename) + scene_errors(d, d.scenes, filename)
            + action_errors(d.actions, filename) + event_errors(d.events, filename)
    }
}

/// The view of a list of errors.
pub open spec fn errors_view(errors: Seq<DefinitionError>) -> Seq<DefinitionErrorView> {
    errors.map_values(|e: DefinitionError| e@)
}

fn push_error(errors: &mut Vec<DefinitionError>, e: DefinitionError)
    ensures
        errors_view(final(errors)@) == errors_view(old(errors)@).push(e@),
{
    errors.push(e);
    assert(errors_view(errors@) =~= errors_view(old(errors)@).push(e@));
}

/// `kind '<name>'suffix`.
fn referrer_text(kind: &str, name: &str, suffix: &str) -> (r: String)
    ensures
        r@ == referrer(kind@, name@, suffix@),
{
    let mut s = String::from_str(kind);
    s.append(" '");
    s.append(name);
    s.append("'");
    s.append(suffix);
    assert(s@ =~= referrer(kind@, name@, suffix@));
    s
}

fn check_asset_ref(
    defs: &Definitions,
    r: &str,
    expected: &str,
    referenced_by: String,
    filename: &str,
    errors: &mut Vec<DefinitionError>,
)
    ensures
        errors_view(final(errors)@) == errors_view(old(errors)@) + asset_ref_errors(
            r@,
            expected@,
            referenced_by@,
            defs@.assets,
            filename@,
        ),
{
    let found = find_entry(&defs.assets, r);
    proof {
        lemma_find_key_keys(defs@.assets, key_seq(defs.assets@), r@);
    }
    match found {
        Some(i) => {
            let asset: &AssetDef = &defs.assets[i].1;
            if !str_equal(asset.asset_type.as_str(), expected) {
                push_error(
                    errors,
                    DefinitionError::TypeMismatch {
                        expected: String::from_str(expected),
                        actual: String::from_str(asset.asset_type.as_str()),
                        name: String::from_str(r),
                        referenced_by,
                        filename: String::from_str(filename),
                    },
                );
            }
        },
        None => {
            push_error(
                errors,
                DefinitionError::UndefinedReference {
                    kind: String::from_str("asset"),
                    name: String::from_str(r),
                    referenced_by,
                    filename: String::from_str(filename),
                },
            );
        },
    }
    assert(errors_view(errors@) =~= errors_view(old(errors)@) + asset_ref_errors(
        r@,
        expected@,
        referenced_by@,
        defs@.assets,
        filename@,
    ));
}

fn validate_param_type(param_type: &str, context: &str, filename: &str, errors: &mut Vec<DefinitionError>)
    ensures
        errors_view(final(errors)@) == errors_view(old(errors)@) + if valid_param_type(param_type@) {
            Seq::empty()
        } else {
            seq![
                DefinitionErrorView::TypeMismatch {
                    expected: "valid type"@,
                    actual: param_type@,
                    name: param_type@,
                    referenced_by: context@,
                    filename: filename@,
                },
            ]
        },
{
    if !is_valid_param_type(param_type) {
        push_error(
            errors,
            DefinitionError::TypeMismatch {
                expected: String::from_str("valid type"),
                actual: String::from_str(param_type),
                name: String::from_str(param_type),
                referenced_by: String::from_str(context),
                filename: String::from_str(filename),
            },
        );
    }
    assert(errors_view(errors@) =~= errors_view(old(errors)@) + if valid_param_type(param_type@) {
        Seq::empty()
    } else {
        seq![
            DefinitionErrorView::TypeMismatch {
                expected: "valid type"@,
                actual: param_type@,
                name: param_type@,
                referenced_by: context@,
                filename: filename@,
            },
        ]
    });
}

fn check_params(params: &Vec<ParamDef>, owner: &str, filename: &str, errors: &mut Vec<DefinitionError>)
    ensures
        errors_view(final(errors)@) == errors_view(old(errors)@) + param_errors(
            params@.map_values(|p: ParamDef| p@),
            owner@,
            filename@,
        ),
{
    let ghost pv = params@.map_values(|p: ParamDef| p@);
    let mut i: usize = 0;
    assert(errors_view(errors@) =~= errors_view(old(errors)@) + param_errors(pv.take(0), owner@, filename@));
    while i < params.len()
        invariant
            pv == params@.map_values(|p: ParamDef| p@),
            i <= params@.len(),
            errors_view(errors@) == errors_view(old(errors)@) + param_errors(pv.take(i as int), owner@, filename@),
        decreases params.len() - i,
    {
        let param = &params[i];
        let mut context = String::from_str(owner);
        context.append(".param '");
        context.append(param.name.as_str());
        context.append("'");
        let ghost before = errors_view(errors@);
        validate_param_type(param.param_type.as_str(), context.as_str(), filename, errors);
        proof {
            assert(pv.take(i + 1).drop_last() =~= pv.take(i as int));
            assert(pv.take(i + 1).last() == param@);
            assert(context@ =~= owner@ + ".param '"@ + param.name@ + "'"@);
            assert(errors_view(errors@) =~= errors_view(old(errors)@) + param_errors(
                pv.take(i + 1),
                owner@,
                filename@,
            ));
        }
        i = i + 1;
    }
    assert(pv.take(i as int) =~= pv);
}

/// Validate internal referential integrity of a Definitions struct.
/// Returns a list of errors (empty if valid).
pub fn validate(defs: &Definitions, filename: &str) -> (r: Vec<DefinitionError>)
    ensures
        errors_view(r@) == validate_spec(defs@, filename@),
{
    let mut errors: Vec<DefinitionError> = Vec::new();
    // Schema version must be 1
    if defs.version != 1 {
        push_error(
            &mut errors,
            DefinitionError::InvalidSchemaVersion { version: defs.version, filename: String::from_str(filename) },
        );
        assert(errors_view(errors@) =~= validate_spec(defs@, filename@));
        return errors;
    }
    assert(errors_view(errors@) =~= Seq::<DefinitionErrorView>::empty());

    // Validate character portraits reference existing image assets
    let mut i: usize = 0;
    assert(defs@.characters.take(0) =~= Seq::<(Seq<char>, CharacterDefView)>::empty());
    while i < defs.characters.len()
        invariant
            i <= defs.characters@.len(),
            defs.version == 1,
            errors_view(errors@) == character_errors(defs@.characters.take(i as int), defs@.assets, filename@),
        decreases defs.characters.len() - i,
    {
        let (char_name, character) = (&defs.characters[i].0, &defs.characters[i].1);
        let ghost before = errors_view(errors@);
        if let Some(portrait) = &character.portrait {
            let by = referrer_text("character", char_name.as_str(), ".portrait");
            check_asset_ref(defs, portrait.as_str(), "image", by, filename, &mut errors);
        }
        proof {
            let cs = defs@.characters.take(i + 1);
            assert(cs.drop_last() =~= defs@.characters.take(i as int));
            assert(cs.last() == defs@.characters[i as int]);
            assert(errors_view(errors@) =~= character_errors(cs, defs@.assets, filename@));
        }
        i = i + 1;
    }
    assert(defs@.characters.take(i as int) =~= defs@.characters);
    let ghost after_chars = errors_view(errors@);

    // Validate scene backgrounds, ambients and characters
    let mut i: usize = 0;
    assert(defs@.scenes.take(0) =~= Seq::<(Seq<char>, SceneDefView)>::empty());
    assert(after_chars + scene_errors(defs@, defs@.scenes.take(0), filename@) =~= after_chars);
    while i < defs.scenes.len()
        invariant
            i <= defs.scenes@.len(),
            errors_view(errors@) == after_chars + scene_errors(defs@, defs@.scenes.take(i as int), filename@),
        decreases defs.scenes.len() - i,
    {
        let (scene_name, scene) = (&defs.scenes[i].0, &defs.scenes[i].1);
        let ghost before = errors_view(errors@);
        if let Some(bg) = &scene.background {
            let by = referrer_text("scene", scene_name.as_str(), ".background");
            check_asset_ref(defs, bg.as_str(), "image", by, filename, &mut errors);
        }
        let ghost after_bg = errors_view(errors@);
        if let Some(ambient) = &scene.ambient {
            let by = referrer_text("scene", scene_name.as_str(), ".ambient");
            check_asset_ref(defs, ambient.as_str(), "audio", by, filename, &mut errors);
        }
        let ghost after_amb = errors_view(errors@);
        // Validate scene characters reference existing characters
        let ghost cv = scene@.characters;
        let mut j: usize = 0;
        assert(after_amb + scene_character_errors(cv.take(0), scene_name@, defs@.characters, filename@)
            =~= after_amb);
        while j < scene.characters.len()
            invariant
                j <= scene.characters@.len(),
                cv == scene@.characters,
                errors_view(errors@) == after_amb + scene_character_errors(
                    cv.take(j as int),
                    scene_name@,
                    defs@.characters,
                    filename@,
                ),
            decreases scene.characters.len() - j,
        {
            let char_ref = &scene.characters[j];
            let found = find_entry(&defs.characters, char_ref.as_str());
            proof {
                lemma_find_key_keys(defs@.characters, key_seq(defs.characters@), char_ref@);
            }
            if found.is_none() {
                let by = referrer_text("scene", scene_name.as_str(), ".characters");
                push_error(
                    &mut errors,
                    DefinitionError::UndefinedReference {
                        kind: String::from_str("character"),
                        name: String::from_str(char_ref.as_str()),
                        referenced_by: by,
                        filename: String::from_str(filename),
                    },
                );
            }
            proof {
                assert(cv.take(j + 1).drop_last() =~= cv.take(j as int));
                assert(cv.take(j + 1).last() == char_ref@);
                assert(errors_view(errors@) =~= after_amb + scene_character_errors(
                    cv.take(j + 1),
                    scene_name@,
                    defs@.characters,
                    filename@,
                ));
            }
            j = j + 1;
        }
        proof {
            assert(cv.take(j as int) =~= cv);
            let ss = defs@.scenes.take(i + 1);
            assert(ss.drop_last() =~= defs@.scenes.take(i as int));
            assert(ss.last() == defs@.scenes[i as int]);
            assert(errors_view(errors@) =~= after_chars + scene_errors(defs@, ss, filename@));
        }
        i = i + 1;
    }
    assert(defs@.scenes.take(i as int) =~= defs@.scenes);
    let ghost after_scenes = errors_view(errors@);

    // Validate action param types
    let mut i: usize = 0;
    assert(defs@.actions.take(0) =~= Seq::<(Seq<char>, ActionDefView)>::empty());
    assert(after_scenes + action_errors(defs@.actions.take(0), filename@) =~= after_scenes);
    while i < defs.actions.len()
        invariant
            i <= defs.actions@.len(),
            errors_view(errors@) == after_scenes + action_errors(defs@.actions.take(i as int), filename@),
        decreases defs.actions.len() - i,
    {
        let (action_name, action) = (&defs.actions[i].0, &defs.actions[i].1);
        let mut owner = String::from_str("action '");
        owner.append(action_name.as_str());
        owner.append("'");
        check_params(&action.params, owner.as_str(), filename, &mut errors);
        proof {
            let s = defs@.actions.take(i + 1);
            assert(s.drop_last() =~= defs@.actions.take(i as int));
            assert(s.last() == defs@.actions[i as int]);
            assert(owner@ =~= "action '"@ + action_name@ + "'"@);
            assert(errors_view(errors@) =~= after_scenes + action_errors(s, filename@));
        }
        i = i + 1;
    }
    assert(defs@.actions.take(i as int) =~= defs@.actions);
    let ghost after_actions = errors_view(errors@);

    // Validate event param types
    let mut i: usize = 0;
    assert(defs@.events.take(0) =~= Seq::<(Seq<char>, EventDefView)>::empty());
    assert(after_actions + event_errors(defs@.events.take(0), filename@) =~= after_actions);
    while i < defs.events.len()
        invariant
            i <= defs.events@.len(),
            errors_view(errors@) == after_actions + event_errors(defs@.events.take(i as int), filename@),
        decreases defs.events.len() - i,
    {
        let (event_name, event) = (&defs.events[i].0, &defs.events[i].1);
        let mut owner = String::from_str("event '");
        owner.append(event_name.as_str());
        owner.append("'");
        check_params(&event.params, owner.as_str(), filename, &mut errors);
        proof {
            let s = defs@.events.take(i + 1);
            assert(s.drop_last() =~= defs@.events.take(i as int));
            assert(s.last() == defs@.events[i as int]);
            assert(owner@ =~= "event '"@ + event_name@ + "'"@);
            assert(errors_view(errors@) =~= after_actions + event_errors(s, filename@));
        }
        i = i + 1;
    }
    assert(defs@.events.take(i as int) =~= defs@.events);
    assert(errors_view(errors@) =~= validate_spec(defs@, filename@));
    errors
}

// ---------------------------------------------------------------------------
// Parameter types
// ---------------------------------------------------------------------------

/// The ten parameter types named by the definitions' type system.
pub open spec fn is_listed_type(t: Seq<char>) -> bool {
    t == "string"@ || t == "int"@ || t == "float"@ || t == "bool"@ || t == "audio"@ || t == "image"@
        || t == "scene"@ || t == "character"@ || t == "asset"@ || t == "void"@
}

/// Parameters whose types are all among the ten known types give no error;
/// each parameter whose type is not among them is reported as a type
/// mismatch naming the type and the parameter.
pub proof fn law_parameter_types(params: Seq<ParamDefView>, owner: Seq<char>, filename: Seq<char>)
    ensures
        (forall|i: int| 0 <= i < params.len() ==> is_listed_type(#[trigger] params[i].param_type))
            ==> param_errors(params, owner, filename).len() == 0,
        forall|i: int|
            0 <= i < params.len() && !is_listed_type(#[trigger] params[i].param_type) ==> param_errors(
                params,
                owner,
                filename,
            ).contains(
                DefinitionErrorView::TypeMismatch {
                    expected: "valid type"@,
                    actual: params[i].param_type,
                    name: params[i].param_type,
                    referenced_by: owner + ".param '"@ + params[i].name + "'"@,
                    filename,
                },
            ),
    decreases params.len(),
{
    if params.len() > 0 {
        let prev = params.drop_last();
        law_parameter_types(prev, owner, filename);
        let p = params.last();
        let a = param_errors(prev, owner, filename);
        let b: Seq<DefinitionErrorView> = if valid_param_type(p.param_type) {
            Seq::empty()
        } else {
            seq![
                DefinitionErrorView::TypeMismatch {
                    expected: "valid type"@,
                    actual: p.param_type,
                    name: p.param_type,
                    referenced_by: owner + ".param '"@ + p.name + "'"@,
                    filename,
                },
            ]
        };
        assert(param_errors(params, owner, filename) == a + b);
        assert(valid_param_type(p.param_type) == is_listed_type(p.param_type));
        if forall|i: int| 0 <= i < params.len() ==> is_listed_type(#[trigger] params[i].param_type) {
            assert forall|i: int| 0 <= i < prev.len() implies is_listed_type(#[trigger] prev[i].param_type) by {
                assert(prev[i] == params[i]);
            }
            assert(is_listed_type(params[params.len() - 1].param_type));
        }
        assert forall|i: int|
            0 <= i < params.len() && !is_listed_type(#[trigger] params[i].param_type) implies (a + b).contains(
            DefinitionErrorView::TypeMismatch {
                expected: "valid type"@,
                actual: params[i].param_type,
                name: params[i].param_type,
                referenced_by: owner + ".param '"@ + params[i].name + "'"@,
                filename,
            },
        ) by {
            let e = DefinitionErrorView::TypeMismatch {
                expected: "valid type"@,
                actual: params[i].param_type,
                name: params[i].param_type,
                referenced_by: owner + ".param '"@ + params[i].name + "'"@,
                filename,
            };
            if i < params.len() - 1 {
                assert(prev[i] == params[i]);
                assert(!is_listed_type(prev[i].param_type));
                let k = choose|k: int| 0 <= k < a.len() && a[k] == e;
                assert((a + b)[k] == e);
            } else {
                assert(params[i] == p);
                assert((a + b)[a.len() as int] == e);
            }
        }
    }
}

proof fn lemma_listed_actions(actions: Seq<(Seq<char>, ActionDefView)>, filename: Seq<char>)
    requires
        forall|i: int, j: int|
            0 <= i < actions.len() && 0 <= j < actions[i].1.params.len() ==> is_listed_type(
                #[trigger] actions[i].1.params[j].param_type,
            ),
    ensures
        action_errors(actions, filename).len() == 0,
    decreases actions.len(),
{
    if actions.len() > 0 {
        let prev = actions.drop_last();
        assert forall|i: int, j: int|
            0 <= i < prev.len() && 0 <= j < prev[i].1.params.len() implies is_listed_type(
            #[trigger] prev[i].1.params[j].param_type,
        ) by {
            assert(prev[i] == actions[i]);
        }
        lemma_listed_actions(prev, filename);
        let (name, a) = actions.last();
        assert forall|j: int| 0 <= j < a.params.len() implies is_listed_type(#[trigger] a.params[j].param_type) by {
            assert(actions[actions.len() - 1].1.params[j] == a.params[j]);
        }
        law_parameter_types(a.params, "action '"@ + name + "'"@, filename);
    }
}

proof fn lemma_listed_events(events: Seq<(Seq<char>, EventDefView)>, filename: Seq<char>)
    requires
        forall|i: int, j: int|
            0 <= i < events.len() && 0 <= j < events[i].1.params.len() ==> is_listed_type(
                #[trigger] events[i].1.params[j].param_type,
            ),
    ensures
        event_errors(events, filename).len() == 0,
    decreases events.len(),
{
    if events.len() > 0 {
        let prev = events.drop_last();
        assert forall|i: int, j: int|
            0 <= i < prev.len() && 0 <= j < prev[i].1.params.len() implies is_listed_type(
            #[trigger] prev[i].1.params[j].param_type,
        ) by {
            assert(prev[i] == events[i]);
        }
        lemma_listed_events(prev, filename);
        let (name, e) = events.last();
        assert forall|j: int| 0 <= j < e.params.len() implies is_listed_type(#[trigger] e.params[j].param_type) by {
            assert(events[events.len() - 1].1.params[j] == e.params[j]);
        }
        law_parameter_types(e.params, "event '"@ + name + "'"@, filename);
    }
}

/// Definitions of schema version 1 that hold only actions and events (and
/// assets and state), each parameter of one of the ten known types, have
/// nothing wrong with them.
pub proof fn law_known_parameter_types_validate(d: DefinitionsView, filename: Seq<char>)
    requires
        d.version == 1,
        d.characters.len() == 0,
        d.scenes.len() == 0,
        forall|i: int, j: int|
            0 <= i < d.actions.len() && 0 <= j < d.actions[i].1.params.len() ==> is_listed_type(
                #[trigger] d.actions[i].1.params[j].param_type,
            ),
        forall|i: int, j: int|
            0 <= i < d.events.len() && 0 <= j < d.events[i].1.params.len() ==> is_listed_type(
                #[trigger] d.events[i].1.params[j].param_type,
            ),
    ensures
        validate_spec(d, filename).len() == 0,
{
    lemma_listed_actions(d.actions, filename);
    lemma_listed_events(d.events, filename);
}

} // verus!
