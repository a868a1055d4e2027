use entity_core::pipeline::{IfModifier, Modifier, Pipeline};
use entity_core::stage::Stage;
use entity_core::value::Value;

fn text(s: &str) -> Value {
    Value::Text(s.to_string())
}

#[test]
fn process_threads_stages_in_order() {
    let p = Pipeline {
        modifiers: vec![
            Modifier::Assign(text("FIRST")),
            Modifier::Lowercase,
        ],
    };
    let out = p.process(Stage::Value(Value::Null));
    match out {
        Stage::Value(Value::Text(s)) => assert_eq!(s, "first"),
        _ => panic!("expected a text value stage"),
    }
}

#[test]
fn invalid_is_not_short_circuited_but_propagates() {
    let p = Pipeline {
        modifiers: vec![
            Modifier::Invalid("broken".to_string()),
            Modifier::Lowercase,
            Modifier::Assign(Value::Int(1)),
        ],
    };
    let out = p.process(Stage::Value(Value::Int(9)));
    match out {
        Stage::Invalid(msg) => assert_eq!(msg, "broken"),
        _ => panic!("a pipeline that went invalid must end invalid"),
    }
}

#[test]
fn empty_pipeline_returns_input() {
    let p = Pipeline { modifiers: vec![] };
    assert!(!p.has_any_modifier());
    let out = p.process(Stage::Value(Value::Int(3)));
    assert!(matches!(out, Stage::Value(Value::Int(3))));
}

#[test]
fn has_any_modifier_sees_one() {
    let p = Pipeline { modifiers: vec![Modifier::Lowercase] };
    assert!(p.has_any_modifier());
}

#[test]
fn if_modifier_valid_probe_yields_condition_true_with_original_value() {
    let nested = Pipeline { modifiers: vec![Modifier::Assign(Value::Int(1))] };
    let m = IfModifier::new(nested);
    let out = m.call(Stage::Value(text("keep me")));
    match out {
        Stage::ConditionTrue(Value::Text(s)) => assert_eq!(s, "keep me"),
        _ => panic!("expected ConditionTrue carrying the original value"),
    }
}

#[test]
fn if_modifier_invalid_probe_yields_condition_false_with_original_value() {
    let nested = Pipeline { modifiers: vec![Modifier::Invalid("no".to_string())] };
    let m = IfModifier::new(nested);
    let out = m.call(Stage::Value(text("keep me")));
    match out {
        Stage::ConditionFalse(Value::Text(s)) => assert_eq!(s, "keep me"),
        _ => panic!("expected ConditionFalse carrying the original value"),
    }
}

#[test]
fn modifier_names_are_stable() {
    assert_eq!(Modifier::Lowercase.name(), "lowercase");
    assert_eq!(Modifier::Invalid("x".to_string()).name(), "invalid");
    assert_eq!(Modifier::Assign(Value::Null).name(), "assign");
    let nested = Pipeline { modifiers: vec![] };
    assert_eq!(Modifier::If(IfModifier::new(nested)).name(), "if");
}

#[test]
fn lowercase_leaves_non_text_unchanged() {
    let p = Pipeline { modifiers: vec![Modifier::Lowercase] };
    let out = p.process(Stage::Value(Value::Int(5)));
    assert!(matches!(out, Stage::Value(Value::Int(5))));
}

#[test]
fn stage_value_and_validity() {
    let s = Stage::ConditionFalse(Value::Bool(true));
    assert!(s.is_valid());
    assert!(matches!(s.value(), Some(Value::Bool(true))));
    let inv = Stage::Invalid("m".to_string());
    assert!(!inv.is_valid());
    assert!(inv.value().is_none());
}

#[test]
fn value_equality_is_structural() {
    assert!(text("a").value_eq(&text("a")));
    assert!(!text("a").value_eq(&text("b")));
    assert!(Value::Null.value_eq(&Value::Null));
    assert!(!Value::Int(1).value_eq(&Value::Bool(true)));
    assert!(Value::Null.is_null());
    assert!(!Value::Int(0).is_null());
}
