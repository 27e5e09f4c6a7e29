use narrative::compiler::{compile_full, CompilationOutput};
use narrative::def_parser;
use narrative::def_parser::error::DefinitionError;
use narrative::def_parser::types::{
    ActionDef, AssetDef, CharacterDef, DefaultValue, Definitions, EventDef, FloatValue, ParamDef,
    SceneDef, StateVarDef,
};

// ---------------------------------------------------------------------------
// Reading definitions YAML into the library's types
// ---------------------------------------------------------------------------

fn field<'a>(m: &'a serde_yaml::Mapping, key: &str) -> Option<&'a serde_yaml::Value> {
    m.get(&serde_yaml::Value::String(key.to_string()))
}

fn req_str(m: &serde_yaml::Mapping, key: &str) -> Result<String, String> {
    match field(m, key) {
        Some(serde_yaml::Value::String(s)) => Ok(s.clone()),
        Some(_) => Err(format!("invalid type for `{}`", key)),
        None => Err(format!("missing field `{}`", key)),
    }
}

fn opt_str(m: &serde_yaml::Mapping, key: &str) -> Result<Option<String>, String> {
    match field(m, key) {
        Some(serde_yaml::Value::String(s)) => Ok(Some(s.clone())),
        Some(serde_yaml::Value::Null) | None => Ok(None),
        Some(_) => Err(format!("invalid type for `{}`", key)),
    }
}

fn float_value(f: f64) -> FloatValue {
    if f.is_finite() {
        FloatValue::Finite(format!("{:?}", f))
    } else {
        FloatValue::NotFinite
    }
}

fn default_value(v: &serde_yaml::Value) -> DefaultValue {
    match v {
        serde_yaml::Value::Null => DefaultValue::Null,
        serde_yaml::Value::Bool(b) => DefaultValue::Bool(*b),
        serde_yaml::Value::Number(n) => {
            if let Some(i) = n.as_i64() {
                DefaultValue::Int(i)
            } else if let Some(f) = n.as_f64() {
                DefaultValue::Float(float_value(f))
            } else {
                DefaultValue::Null
            }
        }
        serde_yaml::Value::String(s) => DefaultValue::Str(s.clone()),
        _ => DefaultValue::Other,
    }
}

fn entries(m: &serde_yaml::Mapping, key: &str) -> Result<Vec<(String, serde_yaml::Mapping)>, String> {
    let mut out = Vec::new();
    match field(m, key) {
        None | Some(serde_yaml::Value::Null) => {}
        Some(serde_yaml::Value::Mapping(items)) => {
            for (k, v) in items {
                let name = k.as_str().ok_or_else(|| format!("invalid key in `{}`", key))?.to_string();
                let body = v.as_mapping().cloned().ok_or_else(|| format!("invalid entry `{}`", name))?;
                out.push((name, body));
            }
        }
        Some(_) => return Err(format!("invalid type for `{}`", key)),
    }
    Ok(out)
}

fn params(m: &serde_yaml::Mapping) -> Result<Vec<ParamDef>, String> {
    let mut out = Vec::new();
    match field(m, "params") {
        None | Some(serde_yaml::Value::Null) => {}
        Some(serde_yaml::Value::Sequence(items)) => {
            for item in items {
                let p = item.as_mapping().ok_or("invalid parameter")?;
                out.push(ParamDef {
                    name: req_str(p, "name")?,
                    param_type: req_str(p, "type")?,
                    required: field(p, "required").and_then(|v| v.as_bool()).unwrap_or(false),
                    default: field(p, "default").map(default_value),
                });
            }
        }
        Some(_) => return Err("invalid type for `params`".to_string()),
    }
    Ok(out)
}

fn read_yaml(source: &str) -> Result<Definitions, String> {
    let doc: serde_yaml::Value = serde_yaml::from_str(source).map_err(|e| e.to_string())?;
    let m = doc.as_mapping().ok_or("expected a mapping")?;
    let version = field(m, "version").and_then(|v| v.as_i64()).ok_or("missing field `version`")?;
    let mut assets = Vec::new();
    for (name, a) in entries(m, "assets")? {
        assets.push((name, AssetDef {
            asset_type: req_str(&a, "type")?,
            path: req_str(&a, "path")?,
            duration: field(&a, "duration").and_then(|v| v.as_f64()).map(float_value),
            width: field(&a, "width").and_then(|v| v.as_u64()).map(|w| w as u32),
            height: field(&a, "height").and_then(|v| v.as_u64()).map(|h| h as u32),
            loop_: field(&a, "loop").and_then(|v| v.as_bool()),
        }));
    }
    let mut characters = Vec::new();
    for (name, c) in entries(m, "characters")? {
        characters.push((name, CharacterDef {
            display_name: req_str(&c, "display_name")?,
            portrait: opt_str(&c, "portrait")?,
            color: opt_str(&c, "color")?,
            style: opt_str(&c, "style")?,
        }));
    }
    let mut scenes = Vec::new();
    for (name, s) in entries(m, "scenes")? {
        let chars = match field(&s, "characters") {
            Some(serde_yaml::Value::Sequence(items)) => items
                .iter()
                .map(|c| c.as_str().map(|t| t.to_string()).ok_or("invalid character".to_string()))
                .collect::<Result<Vec<String>, String>>()?,
            _ => Vec::new(),
        };
        scenes.push((name, SceneDef {
            background: opt_str(&s, "background")?,
            ambient: opt_str(&s, "ambient")?,
            characters: chars,
        }));
    }
    let mut actions = Vec::new();
    for (name, a) in entries(m, "actions")? {
        actions.push((name, ActionDef { params: params(&a)?, returns: req_str(&a, "returns")? }));
    }
    let mut state = Vec::new();
    for (name, s) in entries(m, "state")? {
        state.push((name, StateVarDef {
            var_type: req_str(&s, "type")?,
            default: field(&s, "default").map(default_value),
            min: field(&s, "min").and_then(|v| v.as_i64()),
            max: field(&s, "max").and_then(|v| v.as_i64()),
        }));
    }
    let mut events = Vec::new();
    for (name, e) in entries(m, "events")? {
        events.push((name, EventDef { params: params(&e)? }));
    }
    Ok(Definitions { version, assets, characters, scenes, actions, state, events })
}

fn parse_definitions(source: &str, filename: &str) -> Result<Definitions, Vec<DefinitionError>> {
    def_parser::parse_definitions(read_yaml(source), filename)
}

fn get<'a, T>(m: &'a [(String, T)], key: &str) -> Option<&'a T> {
    m.iter().find(|(k, _)| k == key).map(|(_, v)| v)
}

fn as_f64(f: &Option<FloatValue>) -> Option<f64> {
    match f {
        Some(FloatValue::Finite(t)) => t.parse::<f64>().ok(),
        _ => None,
    }
}

fn compile_full_yaml(
    ink: &str,
    ink_file: &str,
    defs: &str,
    defs_file: &str,
) -> Result<CompilationOutput, Vec<String>> {
    compile_full(ink, ink_file, read_yaml(defs), defs_file)
}


#[test]
fn test_parse_minimal_definitions() {
    let yaml = "version: 1\n";
    let result = parse_definitions(yaml, "test.inkdef.yaml");
    assert!(result.is_ok());
    let defs = result.unwrap();
    assert_eq!(defs.version, 1);
    assert!(defs.assets.is_empty());
    assert!(defs.characters.is_empty());
}

#[test]
fn test_parse_with_assets() {
    let yaml = r#"
version: 1
assets:
  creak_door:
    type: audio
    path: audio/creak_door.ogg
    duration: 2.5
  haunted_manor:
    type: image
    path: backgrounds/haunted_manor.png
    width: 1920
    height: 1080
"#;
    let result = parse_definitions(yaml, "test.inkdef.yaml");
    assert!(result.is_ok());
    let defs = result.unwrap();

    let door = get(&defs.assets, "creak_door").unwrap();
    assert_eq!(door.asset_type, "audio");
    assert_eq!(door.path, "audio/creak_door.ogg");
    assert_eq!(as_f64(&door.duration), Some(2.5));

    let manor = get(&defs.assets, "haunted_manor").unwrap();
    assert_eq!(manor.asset_type, "image");
    assert_eq!(manor.width, Some(1920));
}

#[test]
fn test_parse_with_characters() {
    let yaml = r#"
version: 1
characters:
  elara:
    display_name: "Elara"
    portrait: elara_portrait
    color: blue
  narrator:
    display_name: ""
    style: italic
"#;
    // May fail validation (portrait ref undefined) but parsing should work
    let defs: Definitions = read_yaml(yaml).unwrap();
    let elara = get(&defs.characters, "elara").unwrap();
    assert_eq!(elara.display_name, "Elara");
    assert_eq!(elara.portrait, Some("elara_portrait".to_string()));
}

#[test]
fn test_parse_with_scenes() {
    let yaml = r#"
version: 1
scenes:
  haunted_manor:
    background: haunted_manor_bg
    ambient: eerie_ambient
    characters: [elara]
"#;
    let defs: Definitions = read_yaml(yaml).unwrap();
    let scene = get(&defs.scenes, "haunted_manor").unwrap();
    assert_eq!(scene.background, Some("haunted_manor_bg".to_string()));
    assert_eq!(scene.characters, vec!["elara"]);
}

#[test]
fn test_parse_with_actions() {
    let yaml = r#"
version: 1
actions:
  play_sound:
    params:
      - name: asset
        type: audio
        required: true
    returns: void
  shake_screen:
    params:
      - name: intensity
        type: float
        required: false
        default: 0.5
    returns: void
"#;
    let defs: Definitions = read_yaml(yaml).unwrap();
    let action = get(&defs.actions, "play_sound").unwrap();
    assert_eq!(action.params.len(), 1);
    assert_eq!(action.params[0].name, "asset");
    assert_eq!(action.params[0].param_type, "audio");
    assert!(action.params[0].required);
    assert_eq!(action.returns, "void");
}

#[test]
fn test_parse_with_state() {
    let yaml = r#"
version: 1
state:
  suspicion_level:
    type: int
    default: 0
    min: 0
    max: 100
  has_map:
    type: bool
    default: false
"#;
    let defs: Definitions = read_yaml(yaml).unwrap();
    let suspicion = get(&defs.state, "suspicion_level").unwrap();
    assert_eq!(suspicion.var_type, "int");
    assert_eq!(suspicion.min, Some(0));
    assert_eq!(suspicion.max, Some(100));
}

#[test]
fn test_parse_with_events() {
    let yaml = r#"
version: 1
events:
  on_enter_scene:
    params:
      - name: scene
        type: scene
        required: true
"#;
    let defs: Definitions = read_yaml(yaml).unwrap();
    let event = get(&defs.events, "on_enter_scene").unwrap();
    assert_eq!(event.params.len(), 1);
    assert_eq!(event.params[0].param_type, "scene");
}

#[test]
fn test_parse_invalid_yaml() {
    let yaml = "version: 1\nassets: [\n";
    let result = parse_definitions(yaml, "test.inkdef.yaml");
    assert!(result.is_err());
}

#[test]
fn test_parse_wrong_version() {
    // Validation will catch this in Task 4
    // For now, just verify it deserializes without crashing
    let yaml = "version: 99\n";
    let result = parse_definitions(yaml, "test.inkdef.yaml");
    // Will fail once validation is implemented in Task 4
    assert!(result.is_err() || result.unwrap().version == 99);
}

#[test]
fn test_valid_full_definitions() {
    let yaml = r#"
version: 1
assets:
  creak_door:
    type: audio
    path: audio/creak_door.ogg
  elara_portrait:
    type: image
    path: portraits/elara.png
  haunted_manor_bg:
    type: image
    path: bg/haunted_manor.png
  eerie_ambient:
    type: audio
    path: audio/eerie_loop.ogg
characters:
  elara:
    display_name: "Elara"
    portrait: elara_portrait
scenes:
  haunted_manor:
    background: haunted_manor_bg
    ambient: eerie_ambient
    characters: [elara]
actions:
  play_sound:
    params:
      - name: asset
        type: audio
        required: true
    returns: void
state:
  suspicion_level:
    type: int
    default: 0
    min: 0
    max: 100
events:
  on_enter_scene:
    params:
      - name: scene
        type: scene
        required: true
"#;
    let result = parse_definitions(yaml, "test.inkdef.yaml");
    assert!(result.is_ok(), "Expected valid, got errors: {:?}", result.err());
}

#[test]
fn test_undefined_character_portrait() {
    let yaml = r#"
version: 1
characters:
  elara:
    display_name: "Elara"
    portrait: nonexistent_asset
"#;
    let result = parse_definitions(yaml, "test.inkdef.yaml");
    assert!(result.is_err());
    let errors = result.unwrap_err();
    assert!(errors.iter().any(|e| matches!(e, DefinitionError::UndefinedReference { kind, .. } if kind == "asset")));
}

#[test]
fn test_portrait_not_image_type() {
    let yaml = r#"
version: 1
assets:
  creak_door:
    type: audio
    path: audio/creak_door.ogg
characters:
  elara:
    display_name: "Elara"
    portrait: creak_door
"#;
    let result = parse_definitions(yaml, "test.inkdef.yaml");
    assert!(result.is_err());
    let errors = result.unwrap_err();
    assert!(errors.iter().any(|e| matches!(e, DefinitionError::TypeMismatch { expected, .. } if expected == "image")));
}

#[test]
fn test_undefined_scene_background() {
    let yaml = r#"
version: 1
scenes:
  haunted_manor:
    background: nonexistent_bg
"#;
    let result = parse_definitions(yaml, "test.inkdef.yaml");
    assert!(result.is_err());
    let errors = result.unwrap_err();
    assert!(errors.iter().any(|e| matches!(e, DefinitionError::UndefinedReference { kind, .. } if kind == "asset")));
}

#[test]
fn test_scene_ambient_not_audio() {
    let yaml = r#"
version: 1
assets:
  portrait:
    type: image
    path: img/portrait.png
scenes:
  scene1:
    ambient: portrait
"#;
    let result = parse_definitions(yaml, "test.inkdef.yaml");
    assert!(result.is_err());
    let errors = result.unwrap_err();
    assert!(errors.iter().any(|e| matches!(e, DefinitionError::TypeMismatch { expected, .. } if expected == "audio")));
}

#[test]
fn test_undefined_scene_character() {
    let yaml = r#"
version: 1
scenes:
  scene1:
    characters: [ghost]
"#;
    let result = parse_definitions(yaml, "test.inkdef.yaml");
    assert!(result.is_err());
    let errors = result.unwrap_err();
    assert!(errors.iter().any(|e| matches!(e, DefinitionError::UndefinedReference { kind, .. } if kind == "character")));
}

#[test]
fn test_invalid_param_type() {
    let yaml = r#"
version: 1
actions:
  bad_action:
    params:
      - name: x
        type: nonexistent_type
        required: true
    returns: void
"#;
    let result = parse_definitions(yaml, "test.inkdef.yaml");
    assert!(result.is_err());
}

#[test]
fn test_wrong_schema_version() {
    let yaml = "version: 2\n";
    let result = parse_definitions(yaml, "test.inkdef.yaml");
    assert!(result.is_err());
    let errors = result.unwrap_err();
    assert!(errors.iter().any(|e| matches!(e, DefinitionError::InvalidSchemaVersion { .. })));
}

#[test]
fn test_full_definitions_roundtrip() {
    let yaml = r#"
version: 1
assets:
  creak_door:
    type: audio
    path: audio/creak_door.ogg
    duration: 2.5
  haunted_manor:
    type: image
    path: backgrounds/haunted_manor.png
    width: 1920
    height: 1080
  elara_portrait:
    type: image
    path: portraits/elara.png
  eerie_ambient:
    type: audio
    path: audio/eerie_loop.ogg
    loop: true
characters:
  elara:
    display_name: "Elara"
    portrait: elara_portrait
  narrator:
    display_name: ""
    style: italic
scenes:
  haunted_manor:
    background: haunted_manor
    ambient: eerie_ambient
    characters: [elara]
actions:
  play_sound:
    params:
      - name: asset
        type: audio
        required: true
    returns: void
  start_minigame:
    params:
      - name: name
        type: string
        required: true
      - name: difficulty
        type: int
        required: false
        default: 1
    returns: bool
  shake_screen:
    params:
      - name: intensity
        type: float
        required: false
        default: 0.5
    returns: void
state:
  suspicion_level:
    type: int
    default: 0
    min: 0
    max: 100
  current_companion:
    type: string
    default: ""
  has_map:
    type: bool
    default: false
events:
  on_enter_scene:
    params:
      - name: scene
        type: scene
        required: true
  on_choice_made:
    params:
      - name: choice_text
        type: string
        required: true
"#;

    let defs = parse_definitions(yaml, "game.inkdef.yaml")
        .expect("Should parse and validate successfully");

    assert_eq!(defs.assets.len(), 4);
    assert_eq!(get(&defs.assets, "creak_door").unwrap().asset_type, "audio");
    assert_eq!(get(&defs.assets, "haunted_manor").unwrap().asset_type, "image");
    assert!(get(&defs.assets, "eerie_ambient").unwrap().loop_ == Some(true));

    assert_eq!(defs.characters.len(), 2);
    assert_eq!(get(&defs.characters, "elara").unwrap().portrait, Some("elara_portrait".to_string()));

    assert_eq!(defs.scenes.len(), 1);
    let scene = get(&defs.scenes, "haunted_manor").unwrap();
    assert_eq!(scene.background, Some("haunted_manor".to_string()));
    assert_eq!(scene.ambient, Some("eerie_ambient".to_string()));

    assert_eq!(defs.actions.len(), 3);
    let play_sound = get(&defs.actions, "play_sound").unwrap();
    assert_eq!(play_sound.params.len(), 1);
    assert!(play_sound.params[0].required);
    assert_eq!(play_sound.returns, "void");

    assert_eq!(defs.state.len(), 3);
    let suspicion = get(&defs.state, "suspicion_level").unwrap();
    assert_eq!(suspicion.var_type, "int");
    assert_eq!(suspicion.max, Some(100));

    assert_eq!(defs.events.len(), 2);
}

#[test]
fn test_multiple_validation_errors() {
    let yaml = r#"
version: 1
characters:
  elara:
    display_name: Elara
    portrait: missing_portrait
scenes:
  manor:
    background: missing_bg
    ambient: missing_audio
    characters: [missing_char]
"#;
    let result = parse_definitions(yaml, "bad.inkdef.yaml");
    assert!(result.is_err());
    let errors = result.unwrap_err();
    assert!(errors.len() >= 4, "Expected at least 4 errors, got {}: {:?}", errors.len(), errors);
}

#[test]
fn test_empty_definitions_are_valid() {
    let yaml = "version: 1\n";
    let defs = parse_definitions(yaml, "empty.inkdef.yaml").unwrap();
    assert_eq!(defs.version, 1);
    assert!(defs.assets.is_empty());
    assert!(defs.characters.is_empty());
    assert!(defs.scenes.is_empty());
    assert!(defs.actions.is_empty());
    assert!(defs.state.is_empty());
    assert!(defs.events.is_empty());
}

#[test]
fn test_full_compilation_pipeline() {
    let ink = r#"@ scene: haunted_manor
@ character: elara
@ action: play_sound(creak_door)
The door creaked open.
-> END
"#;
    let defs = r#"version: 1
assets:
  creak_door:
    type: audio
    path: audio/creak_door.ogg
  haunted_manor:
    type: image
    path: bg/haunted_manor.png
characters:
  elara:
    display_name: "Elara"
scenes:
  haunted_manor:
    background: haunted_manor
actions:
  play_sound:
    params:
      - name: asset
        type: audio
        required: true
    returns: void
"#;
    let output = compile_full_yaml(ink, "test.ink", defs, "test.inkdef.yaml").unwrap();

    // Ink JSON should exist and be valid
    let ink_json: serde_json::Value = serde_json::from_str(&output.ink_json).unwrap();
    assert_eq!(ink_json["inkVersion"], 21);

    // Directives manifest should exist and be valid
    let manifest: serde_json::Value = serde_json::from_str(&output.directives_manifest).unwrap();
    assert_eq!(manifest["version"], 1);

    // Definitions schema should exist and be valid
    let schema: serde_json::Value = serde_json::from_str(&output.definitions_schema).unwrap();
    assert_eq!(schema["version"], 1);
}

#[test]
fn test_directive_validation_catches_bad_reference() {
    let ink = "@ action: nonexistent_action\nHello.\n-> END";
    let defs = "version: 1\n";
    let result = compile_full_yaml(ink, "test.ink", defs, "test.inkdef.yaml");
    assert!(result.is_err());
    let errors = result.unwrap_err();
    assert!(errors.iter().any(|e| e.contains("Undefined action")));
}