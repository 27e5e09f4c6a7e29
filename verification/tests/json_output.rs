use narrative::compiler::json::to_compact_text;
use narrative::compiler::json_output::{serialize_object, story_to_json};
use narrative::compiler::runtime_types::{
    ChoicePoint, Container, ControlCommand, Divert, InkObject, Story,
};

#[test]
fn test_string_serialization() {
    let story = Story::new();
    let json = story_to_json(&story);
    assert!(json.contains("\"inkVersion\": 21"));
}

#[test]
fn test_knot_in_output() {
    let mut story = Story::new();
    let mut knot = Container::new();
    knot.push(InkObject::String("Hello world".to_string()));
    knot.push(InkObject::ControlCommand(ControlCommand::End));
    story.add_knot("greeting", knot);

    let json = story_to_json(&story);
    assert!(json.contains("greeting"));
}

#[test]
fn test_divert_serialization() {
    let obj = InkObject::Divert(Divert::new("somewhere"));
    let value = serialize_object(&obj);
    let s = to_compact_text(&value);
    assert!(s.contains("\"->\":\"somewhere\""));
}

#[test]
fn test_conditional_divert() {
    let mut d = Divert::new("target");
    d.is_conditional = true;
    let obj = InkObject::Divert(d);
    let value = serialize_object(&obj);
    let s = to_compact_text(&value);
    assert!(s.contains("\"c\":true"));
}

#[test]
fn test_function_divert() {
    let obj = InkObject::Divert(Divert::function("my_func"));
    let value = serialize_object(&obj);
    let s = to_compact_text(&value);
    assert!(s.contains("\"f()\":\"my_func\""));
}

#[test]
fn test_choice_point() {
    let cp = ChoicePoint::new(".^.c").has_start_content().has_choice_only_content();
    let obj = InkObject::ChoicePoint(cp);
    let value = serialize_object(&obj);
    let s = to_compact_text(&value);
    assert!(s.contains("\"*\":\".^.c\""));
    assert!(s.contains("\"flg\":22")); // start + choice-only + once-only
}
