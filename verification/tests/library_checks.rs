//! Checks of the library's laws on concrete values, its edge cases and its
//! error texts.

use narrative::compiler::runtime_types::{normalize_name, Container, ControlCommand, NativeFuncCall};
use narrative::compiler::json::{to_pretty_text, JsonValue};
use narrative::compiler::codegen::{compile, compile_from};
use narrative::compiler::json_output::story_to_json;
use narrative::compiler::{compile_full, compile_ink};
use narrative::def_parser::error::DefinitionError;
use narrative::def_parser::types::{ActionDef, Definitions, ParamDef};
use narrative::def_parser::{parse_definitions, parse_definitions_unvalidated};
use narrative::diagnostics::get_diagnostics;
use narrative::ink_parser::includes::{parse_include, DefaultFileHandler, FileHandler, MemoryFileHandler};
use narrative::ink_parser::tags::parse_tags;
use narrative::ink_parser::ir::{DirectiveType, StoryNode};
use narrative::ink_parser::parse_story;
use narrative::ink_parser::parser::Parser;

fn empty_definitions() -> Definitions {
    Definitions {
        version: 1,
        assets: Vec::new(),
        characters: Vec::new(),
        scenes: Vec::new(),
        actions: Vec::new(),
        state: Vec::new(),
        events: Vec::new(),
    }
}

#[test]
fn failed_rule_puts_the_cursor_back() {
    let mut p = Parser::new("alpha beta", "t.ink");
    let id = p.begin_rule();
    assert_eq!(p.parse_identifier(), Some("alpha".to_string()));
    assert_eq!(p.position(), 5);
    p.fail_rule(id);
    assert_eq!(p.position(), 0);
    assert_eq!(p.parse_identifier(), Some("alpha".to_string()));
}

#[test]
fn succeeded_rule_keeps_the_cursor() {
    let mut p = Parser::new("alpha beta", "t.ink");
    let id = p.begin_rule();
    assert_eq!(p.parse_identifier(), Some("alpha".to_string()));
    p.succeed_rule(id);
    assert_eq!(p.position(), 5);
    assert_eq!(p.parse_identifier(), Some("beta".to_string()));
}

#[test]
fn optional_and_expect_run_the_rule() {
    let mut p = Parser::new("name 42", "t.ink");
    assert_eq!(p.optional(Parser::parse_identifier), Some("name".to_string()));
    assert!(!p.has_errors());
    assert_eq!(p.expect(Parser::parse_identifier, "a name"), None);
    assert!(p.has_errors());
    assert_eq!(p.errors()[0].message, "Expected a name");
    assert_eq!(p.parse_int(), Some(42));
}

#[test]
fn named_container_reads_back_what_was_added() {
    let mut c = Container::new();
    let mut first = Container::new();
    first.set_name("first");
    c.add_named("a", first);
    c.add_named("b", Container::new());
    let mut again = Container::new();
    again.set_name("second");
    c.add_named("a", again);
    assert_eq!(c.named.len(), 2);
    assert_eq!(c.named[0].0, "a");
    assert_eq!(c.named[0].1.name, Some("second".to_string()));
    assert_eq!(c.named[1].0, "b");
}

#[test]
fn native_function_names_read_back() {
    let all = [
        NativeFuncCall::Add,
        NativeFuncCall::Subtract,
        NativeFuncCall::Divide,
        NativeFuncCall::Multiply,
        NativeFuncCall::Modulo,
        NativeFuncCall::Negate,
        NativeFuncCall::Equal,
        NativeFuncCall::Greater,
        NativeFuncCall::Less,
        NativeFuncCall::GreaterEq,
        NativeFuncCall::LessEq,
        NativeFuncCall::NotEqual,
        NativeFuncCall::Not,
        NativeFuncCall::And,
        NativeFuncCall::Or,
        NativeFuncCall::Min,
        NativeFuncCall::Max,
    ];
    for f in all.iter() {
        assert_eq!(NativeFuncCall::from_str(f.as_str()), Some(*f));
    }
    assert_eq!(NativeFuncCall::Add.as_str(), "+");
    assert_eq!(NativeFuncCall::from_str("&&"), Some(NativeFuncCall::And));
    assert_eq!(NativeFuncCall::from_str("nope"), None);
}

#[test]
fn directive_type_names_read_back() {
    for name in ["action", "scene", "character", "state", "event", "asset"] {
        let t = DirectiveType::from_str(name).unwrap();
        assert_eq!(t.as_str(), name);
    }
    assert!(DirectiveType::from_str("music").is_none());
}

#[test]
fn control_command_names() {
    assert_eq!(ControlCommand::EvalStart.as_str(), "ev");
    assert_eq!(ControlCommand::EvalEnd.as_str(), "/ev");
    assert_eq!(ControlCommand::Done.as_str(), "done");
    assert_eq!(ControlCommand::End.as_str(), "end");
}

#[test]
fn directive_bracket_gives_arguments_and_modifiers() {
    let story = parse_story("@ character: elara(expression: angry)\n@ action: play_sound(creak_door, loud)\nHi\n", "t.ink");
    assert!(!story.has_errors());
    match &story.content[0] {
        StoryNode::Directive(d) => {
            assert_eq!(d.name, "elara");
            assert!(d.args.is_empty());
            assert_eq!(d.modifiers.len(), 1);
            assert_eq!(d.modifiers[0].key, "expression");
            assert_eq!(d.modifiers[0].value, "angry");
        }
        _ => panic!("expected a directive"),
    }
    match &story.content[1] {
        StoryNode::Directive(d) => {
            assert_eq!(d.name, "play_sound");
            assert_eq!(d.args.len(), 2);
            assert_eq!(d.args[0].value, "creak_door");
            assert_eq!(d.args[1].value, "loud");
        }
        _ => panic!("expected a directive"),
    }
}

#[test]
fn compiled_story_declares_ink_version_21() {
    let json = compile_ink("Hello.\n-> END\n", "t.ink").unwrap();
    assert!(json.starts_with("{\n  \"inkVersion\": 21,\n"));
    let v: serde_json::Value = serde_json::from_str(&json).unwrap();
    assert_eq!(v["inkVersion"], 21);
    assert!(json.contains("\"^Hello.\\n\""));
}

#[test]
fn compile_reports_parse_errors() {
    let errors = compile_ink("@ scene haunted\n", "t.ink").unwrap_err();
    assert_eq!(errors.len(), 1);
    assert!(errors[0].contains("Expected ':'"));
}

#[test]
fn unreadable_definitions_give_one_yaml_error() {
    let errors = parse_definitions(Err("bad indentation".to_string()), "d.yaml").unwrap_err();
    assert_eq!(errors.len(), 1);
    assert_eq!(errors[0].to_display_string(), "YAML error in d.yaml: bad indentation");
    let e = parse_definitions_unvalidated(Err("oops".to_string()), "d.yaml").unwrap_err();
    assert_eq!(e.to_display_string(), "YAML error in d.yaml: oops");
}

#[test]
fn definition_error_texts() {
    let f = "d.yaml".to_string();
    let cases = vec![
        (
            DefinitionError::UndefinedReference {
                kind: "asset".to_string(),
                name: "door".to_string(),
                referenced_by: "scene 'hall'".to_string(),
                filename: f.clone(),
            },
            "ERROR in d.yaml: Undefined asset 'door' referenced by scene 'hall'",
        ),
        (
            DefinitionError::TypeMismatch {
                expected: "audio".to_string(),
                actual: "image".to_string(),
                name: "door".to_string(),
                referenced_by: "scene 'hall'".to_string(),
                filename: f.clone(),
            },
            "ERROR in d.yaml: Type mismatch for 'door': expected audio but got image, referenced by scene 'hall'",
        ),
        (
            DefinitionError::MissingRequiredField {
                definition_kind: "asset".to_string(),
                definition_name: "door".to_string(),
                field: "path".to_string(),
                filename: f.clone(),
            },
            "ERROR in d.yaml: asset 'door' missing required field 'path'",
        ),
        (
            DefinitionError::DuplicateName { kind: "asset".to_string(), name: "door".to_string(), filename: f.clone() },
            "ERROR in d.yaml: Duplicate asset name 'door'",
        ),
        (
            DefinitionError::InvalidSchemaVersion { version: -3, filename: f.clone() },
            "ERROR in d.yaml: Invalid schema version -3 (expected 1)",
        ),
    ];
    for (e, text) in cases {
        assert!(e.is_error());
        assert_eq!(e.to_display_string(), text);
    }
}

#[test]
fn undefined_scene_is_reported_with_its_place() {
    let errors = compile_full("Hi\n@ scene: hall\n", "s.ink", Ok(empty_definitions()), "d.yaml").unwrap_err();
    assert_eq!(errors, vec!["Undefined scene 'hall' at s.ink:2".to_string()]);
}

#[test]
fn missing_action_argument_is_reported() {
    let defs = || {
        let mut defs = empty_definitions();
        defs.actions.push((
            "shake".to_string(),
            ActionDef {
                params: vec![ParamDef {
                    name: "strength".to_string(),
                    param_type: "int".to_string(),
                    required: true,
                    default: None,
                }],
                returns: "void".to_string(),
            },
        ));
        defs
    };
    let errors = compile_full("@ action: shake\nHi\n", "s.ink", Ok(defs()), "d.yaml").unwrap_err();
    assert_eq!(errors, vec!["Missing required param 'strength' on action 'shake' at s.ink:1".to_string()]);
    assert!(compile_full("@ action: shake(strong)\nHi\n", "s.ink", Ok(defs()), "d.yaml").is_ok());
    assert!(compile_full("@ action: shake(strength)\nHi\n", "s.ink", Ok(defs()), "d.yaml").is_ok());
}

#[test]
fn outputs_are_pretty_printed_json() {
    let out = compile_full("Hi\n", "s.ink", Ok(empty_definitions()), "d.yaml").unwrap();
    assert!(out.directives_manifest.contains("\n  \"version\": 1"));
    assert!(out.definitions_schema.contains("\n  \"version\": 1"));
    let manifest: serde_json::Value = serde_json::from_str(&out.directives_manifest).unwrap();
    assert_eq!(manifest["source"], "s.ink");
}

#[test]
fn diagnostics_sit_one_before_the_error_location() {
    let source = "Hello\n@ scene haunted\n";
    let story = parse_story(source, "t.ink");
    assert_eq!(story.errors.len(), 1);
    let e = &story.errors[0];
    let d = get_diagnostics("t.ink", source);
    assert_eq!(d.len(), 1);
    assert_eq!(d[0].start_line as usize, e.location.line - 1);
    assert_eq!(d[0].start_character as usize, e.location.column - 1);
    assert_eq!(d[0].end_line, d[0].start_line);
    assert_eq!(d[0].end_character, d[0].start_character + 1);
    assert!(d[0].is_error);
    assert_eq!(d[0].message, "Expected ':'");
    assert_eq!(d[0].start_line, 1);
}

#[test]
fn file_handlers_resolve_and_read() {
    let h = DefaultFileHandler::new("/stories");
    assert_eq!(h.resolve("b.ink", "dir/sub/a.ink"), "dir/sub/b.ink");
    assert_eq!(h.resolve("b.ink", "a.ink"), "b.ink");
    let m = MemoryFileHandler::new(vec![
        ("x.ink".to_string(), "one".to_string()),
        ("x.ink".to_string(), "two".to_string()),
    ]);
    assert_eq!(m.resolve("x.ink", "dir/a.ink"), "x.ink");
    assert_eq!(m.read("x.ink"), Ok("two".to_string()));
    assert_eq!(m.read("y.ink"), Err("File not found: y.ink".to_string()));
}

#[test]
fn directives_leave_no_trace_in_compiled_json() {
    let with = compile_ink(
        "@ scene: hall\nHi\n=== door ===\n@ action: knock(twice)\nKnock.\n-> END\n",
        "t.ink",
    )
    .unwrap();
    let without = compile_ink("Hi\n=== door ===\nKnock.\n-> END\n", "t.ink").unwrap();
    assert_eq!(with, without);
}

#[test]
fn normalized_names_have_no_spaces_and_stay_put() {
    let once = normalize_name("the old  manor");
    assert_eq!(once, "the_old__manor");
    assert_eq!(normalize_name(&once), once);
}

#[test]
fn include_names_the_whole_file() {
    let mut p = Parser::new("INCLUDE other.ink  \nHello world.\n", "test.ink");
    assert_eq!(parse_include(&mut p), Some("other.ink".to_string()));
    assert_eq!(p.remaining(), "Hello world.\n");
    let story = parse_story("INCLUDE other.ink\nHello world.\n", "test.ink");
    assert_eq!(story.content.len(), 2);
    match &story.content[0] {
        StoryNode::Include(name) => assert_eq!(name, "other.ink"),
        _ => panic!("expected an include"),
    }
    let mut q = Parser::new("INCLUDE   \n", "test.ink");
    assert_eq!(parse_include(&mut q), None);
}

#[test]
fn each_hash_starts_a_tag() {
    let mut p = Parser::new("# tag1 # tag2", "t.ink");
    assert_eq!(parse_tags(&mut p).map(|v| v.len()), Some(2));
    assert!(p.is_end());
    let mut q = Parser::new("#a\nrest", "t.ink");
    assert_eq!(parse_tags(&mut q).map(|v| v.len()), Some(1));
    assert_eq!(q.remaining(), "\nrest");
    let mut r = Parser::new("no tags", "t.ink");
    assert!(parse_tags(&mut r).is_none());
}

#[test]
fn unclosed_parameter_lists_end_with_an_error() {
    let story = parse_story("=== greet(name ===\nHi\n", "t.ink");
    assert!(story.errors.iter().any(|e| e.message == "Expected ')'"));
    let story = parse_story("EXTERNAL f(a", "t.ink");
    assert!(story.errors.iter().any(|e| e.message == "Expected ')'"));
    let d = get_diagnostics("t.ink", "=== greet(name ===\nHi\n");
    assert!(d.iter().any(|x| x.message == "Expected ')'"));
}

#[test]
fn lone_carriage_return_ends_parsing_with_an_error() {
    let story = parse_story("Hello\rWorld\n", "t.ink");
    assert!(story.errors.iter().any(|e| e.message == "Unexpected content"));
    assert!(compile_ink("Hello\rWorld\n", "t.ink").is_err());
}

#[test]
fn list_numbering_wraps_at_the_end_of_i32() {
    let story = parse_story("LIST big = a:2147483647, b\n", "t.ink");
    assert!(!story.has_errors());
    match &story.content[0] {
        StoryNode::ListDeclaration(l) => {
            assert_eq!(l.items.len(), 2);
            assert_eq!(l.items[0].value, Some(i32::MAX));
            assert_eq!(l.items[1].value, Some(i32::MIN + 1));
        }
        _ => panic!("expected a list declaration"),
    }
}

#[test]
fn position_counts_bytes() {
    let mut p = Parser::new("éa", "t.ink");
    assert_eq!(p.position(), 0);
    assert_eq!(p.parse_single_character(), Some('é'));
    assert_eq!(p.position(), 2);
    assert_eq!(p.parse_single_character(), Some('a'));
    assert_eq!(p.position(), 3);
}

#[test]
fn a_later_definition_under_a_name_replaces_the_earlier() {
    use_later_definition();
}

fn use_later_definition() {
    let mut defs = empty_definitions();
    let character = |name: &str| narrative::def_parser::types::CharacterDef {
        display_name: name.to_string(),
        portrait: None,
        color: None,
        style: None,
    };
    defs.characters.push(("elara".to_string(), character("First")));
    defs.characters.push(("mira".to_string(), character("Mira")));
    defs.characters.push(("elara".to_string(), character("Second")));
    let d = parse_definitions(Ok(defs), "d.yaml").unwrap();
    assert_eq!(d.characters.len(), 2);
    assert_eq!(d.characters[0].0, "elara");
    assert_eq!(d.characters[0].1.display_name, "Second");
    assert_eq!(d.characters[1].0, "mira");
}

#[test]
fn deep_and_precise_json_is_pretty_printed() {
    // A literal with more digits than an f64 holds is written as the f64
    // nearest to it, as a parsed float is.
    let precise = JsonValue::Float("3.14159265358979323846".to_string());
    assert_eq!(to_pretty_text(&precise), format!("{}", 3.14159265358979323846f64));
    assert_eq!(to_pretty_text(&JsonValue::Float("0.30000000000000004".to_string())), "0.30000000000000004");
    // Nesting deeper than 128 levels is still pretty printed.
    let mut v = JsonValue::Int(1);
    for _ in 0..200 {
        v = JsonValue::Array(vec![v]);
    }
    let text = to_pretty_text(&v);
    assert!(text.starts_with("[\n  [\n    ["));
}

#[test]
fn a_shared_counter_numbers_choices_across_compilations() {
    let story = parse_story("-> k\n=== k ===\n* Hello\n* Bye\n", "t.ink");
    let mut counter = 0usize;
    let first = story_to_json(&compile_from(&story, &mut counter));
    assert_eq!(counter, 2);
    let second = story_to_json(&compile_from(&story, &mut counter));
    assert_eq!(counter, 4);
    assert!(first.contains("c_1") && first.contains("c_2") && !first.contains("c_3"));
    assert!(second.contains("c_3") && second.contains("c_4") && !second.contains("c_1"));
    assert_eq!(story_to_json(&compile(&story)), first);
}
