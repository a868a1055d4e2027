use entity_core::error::ActionError;
use entity_core::field::{Argument, Field, FieldType};
use entity_core::model::Model;
use entity_core::model_builder::ModelBuilder;
use entity_core::object::{Connector, Object};
use entity_core::pipeline::{Modifier, Pipeline};
use entity_core::value::Value;

fn text(s: &str) -> Value {
    Value::Text(s.to_string())
}

fn key(s: &str) -> String {
    s.to_string()
}

/// id (primary int), name (text), email (text, lower-cased on save),
/// age (int).
fn user_model() -> Model {
    let mut b = ModelBuilder::new("User".to_string());
    let mut id = Field::new(key("id"), FieldType::Int);
    id.primary = true;
    b.field(id);
    b.field(Field::new(key("name"), FieldType::Text));
    let mut email = Field::new(key("email"), FieldType::Text);
    email.on_save_pipeline = Pipeline { modifiers: vec![Modifier::Lowercase] };
    b.field(email);
    b.field(Field::new(key("age"), FieldType::Int));
    b.build().unwrap()
}

struct RecordingConnector {
    saved_email: Option<Value>,
    saves: usize,
}

impl Connector for RecordingConnector {
    fn save_object(&mut self, object: &Object) -> Result<(), ActionError> {
        self.saved_email = object.get_value(&key("email")).unwrap();
        self.saves += 1;
        Ok(())
    }

    fn delete_object(&mut self, _object: &Object) -> Result<(), ActionError> {
        Ok(())
    }
}

struct FailingConnector;

impl Connector for FailingConnector {
    fn save_object(&mut self, _object: &Object) -> Result<(), ActionError> {
        Err(ActionError::connector_failure("disk on fire".to_string()))
    }

    fn delete_object(&mut self, _object: &Object) -> Result<(), ActionError> {
        Err(ActionError::connector_failure("still on fire".to_string()))
    }
}

#[test]
fn to_json_omits_null_and_absent_fields() {
    let mut o = Object::new(user_model());
    o.set_value(&key("id"), Value::Int(1)).unwrap();
    o.set_value(&key("name"), text("Ann")).unwrap();
    o.set_value(&key("age"), Value::Int(7)).unwrap();
    o.set_value(&key("age"), Value::Null).unwrap();
    let json = o.to_json();
    let keys: Vec<&str> = json.iter().map(|p| p.0.as_str()).collect();
    assert_eq!(keys, vec!["id", "name"]);
    assert!(json.iter().all(|p| !p.1.is_null()));
}

#[test]
fn set_value_outside_save_keys_is_refused() {
    let mut o = Object::new(user_model());
    let r = o.set_value(&key("nope"), Value::Int(1));
    assert!(matches!(r, Err(ActionError::KeysUnallowed)));
}

#[test]
fn set_value_marks_dirty_once_no_longer_new() {
    let model = user_model();
    let mut o = Object::new(model);
    o.is_new = false;
    assert!(!o.is_modified);
    o.set_value(&key("name"), text("Ann")).unwrap();
    o.set_value(&key("age"), Value::Int(30)).unwrap();
    assert!(o.is_modified);
    assert!(o.modified_fields.contains(&key("name")));
    assert!(o.modified_fields.contains(&key("age")));
}

#[test]
fn new_entity_does_not_mark_dirty() {
    let mut o = Object::new(user_model());
    o.set_value(&key("name"), text("Ann")).unwrap();
    assert!(!o.is_modified);
    assert!(o.modified_fields.is_empty());
}

#[test]
fn null_set_value_unsets_for_later_reads() {
    let mut o = Object::new(user_model());
    o.set_value(&key("name"), text("Ann")).unwrap();
    assert!(matches!(o.get_value(&key("name")), Ok(Some(_))));
    o.set_value(&key("name"), Value::Null).unwrap();
    assert!(matches!(o.get_value(&key("name")), Ok(None)));
}

#[test]
fn get_value_outside_declared_fields_is_refused() {
    let o = Object::new(user_model());
    assert!(matches!(o.get_value(&key("ghost")), Err(ActionError::KeysUnallowed)));
}

#[test]
fn set_json_with_unallowed_key_changes_nothing() {
    let mut o = Object::new(user_model());
    o.set_value(&key("name"), text("Ann")).unwrap();
    let payload = vec![(key("name"), text("Bob")), (key("intruder"), Value::Int(1))];
    let r = o.set_json(&payload);
    assert!(matches!(r, Err(ActionError::KeysUnallowed)));
    match o.get_value(&key("name")).unwrap() {
        Some(Value::Text(s)) => assert_eq!(s, "Ann"),
        other => panic!("name was disturbed: {:?}", other),
    }
    assert!(!o.is_initialized);
}

#[test]
fn update_json_running_invalid_pipeline_reports_field_and_message() {
    let mut b = ModelBuilder::new("User".to_string());
    let mut id = Field::new(key("id"), FieldType::Int);
    id.primary = true;
    b.field(id);
    let mut age = Field::new(key("age"), FieldType::Int);
    age.on_set_pipeline = Pipeline { modifiers: vec![Modifier::Invalid("bad".to_string())] };
    b.field(age);
    let mut o = Object::new(b.build().unwrap());
    o.set_value(&key("age"), Value::Int(30)).unwrap();
    let r = o.update_json(&vec![(key("age"), Value::Int(10))]);
    match r {
        Err(ActionError::InvalidInput { key: k, message }) => {
            assert_eq!(k, "age");
            assert_eq!(message, "bad");
        },
        other => panic!("expected an invalid-input error, got {:?}", other),
    }
    match o.get_value(&key("age")).unwrap() {
        Some(Value::Int(n)) => assert_eq!(n, 30),
        other => panic!("age was disturbed: {:?}", other),
    }
}

#[test]
fn set_json_decodes_against_declared_types() {
    let mut o = Object::new(user_model());
    let r = o.set_json(&vec![(key("age"), text("not a number"))]);
    match r {
        Err(ActionError::InvalidInput { key: k, message }) => {
            assert_eq!(k, "age");
            assert_eq!(message, "invalid value type");
        },
        other => panic!("expected an invalid-input error, got {:?}", other),
    }
}

#[test]
fn set_json_applies_defaults_on_first_initialization() {
    let mut b = ModelBuilder::new("User".to_string());
    let mut id = Field::new(key("id"), FieldType::Int);
    id.primary = true;
    b.field(id);
    let mut plan = Field::new(key("plan"), FieldType::Text);
    plan.default = Some(Argument::ValueArgument(text("free")));
    b.field(plan);
    let mut tag = Field::new(key("tag"), FieldType::Text);
    tag.default = Some(Argument::PipelineArgument(Pipeline {
        modifiers: vec![Modifier::Assign(text("FRESH")), Modifier::Lowercase],
    }));
    b.field(tag);
    let mut o = Object::new(b.build().unwrap());
    o.set_json(&vec![(key("id"), Value::Int(5))]).unwrap();
    assert!(o.is_initialized);
    match o.get_value(&key("plan")).unwrap() {
        Some(Value::Text(s)) => assert_eq!(s, "free"),
        other => panic!("default literal missing: {:?}", other),
    }
    match o.get_value(&key("tag")).unwrap() {
        Some(Value::Text(s)) => assert_eq!(s, "fresh"),
        other => panic!("pipeline default missing: {:?}", other),
    }
}

#[test]
fn initialized_entity_ingests_only_payload_keys() {
    let mut o = Object::new(user_model());
    o.set_json(&vec![(key("id"), Value::Int(5)), (key("name"), text("Ann"))]).unwrap();
    o.set_json(&vec![(key("name"), text("Bea"))]).unwrap();
    match o.get_value(&key("name")).unwrap() {
        Some(Value::Text(s)) => assert_eq!(s, "Bea"),
        other => panic!("name not updated: {:?}", other),
    }
    match o.get_value(&key("id")).unwrap() {
        Some(Value::Int(n)) => assert_eq!(n, 5),
        other => panic!("id disturbed: {:?}", other),
    }
}

#[test]
fn save_runs_on_save_pipelines_then_resets_lifecycle() {
    let mut o = Object::new(user_model());
    o.set_value(&key("id"), Value::Int(1)).unwrap();
    o.set_value(&key("email"), text("A@B.COM")).unwrap();
    let mut c = RecordingConnector { saved_email: None, saves: 0 };
    o.save(&mut c).unwrap();
    assert_eq!(c.saves, 1);
    match c.saved_email {
        Some(Value::Text(s)) => assert_eq!(s, "a@b.com"),
        ref other => panic!("connector saw {:?}", other),
    }
    assert!(!o.is_new);
    assert!(!o.is_modified);
    assert!(o.modified_fields.is_empty());
}

#[test]
fn failed_connector_save_keeps_lifecycle_flags() {
    let mut o = Object::new(user_model());
    o.set_value(&key("id"), Value::Int(1)).unwrap();
    let r = o.save(&mut FailingConnector);
    match r {
        Err(ActionError::ConnectorFailure { message }) => assert_eq!(message, "disk on fire"),
        other => panic!("expected the connector's error, got {:?}", other),
    }
    assert!(o.is_new);
    assert!(!o.is_modified);
}

#[test]
fn save_aborts_on_invalid_on_save_stage_before_connector() {
    let mut b = ModelBuilder::new("User".to_string());
    let mut id = Field::new(key("id"), FieldType::Int);
    id.primary = true;
    id.on_save_pipeline = Pipeline { modifiers: vec![Modifier::Invalid("never".to_string())] };
    b.field(id);
    let mut o = Object::new(b.build().unwrap());
    let mut c = RecordingConnector { saved_email: None, saves: 0 };
    let r = o.save(&mut c);
    match r {
        Err(ActionError::InvalidInput { key: k, message }) => {
            assert_eq!(k, "id");
            assert_eq!(message, "never");
        },
        other => panic!("expected an invalid-input error, got {:?}", other),
    }
    assert_eq!(c.saves, 0);
    assert!(o.is_new);
}

#[test]
fn delete_delegates_to_connector() {
    let o = Object::new(user_model());
    assert!(o.delete(&mut RecordingConnector { saved_email: None, saves: 0 }).is_ok());
    match o.delete(&mut FailingConnector) {
        Err(ActionError::ConnectorFailure { message }) => assert_eq!(message, "still on fire"),
        other => panic!("expected the connector's error, got {:?}", other),
    }
}

#[test]
fn identifier_returns_primary_field_value() {
    let mut o = Object::new(user_model());
    o.set_value(&key("id"), Value::Int(42)).unwrap();
    assert!(matches!(o.identifier(), Value::Int(42)));
}

#[test]
fn select_and_deselect_manage_the_selection_set() {
    let mut o = Object::new(user_model());
    o.select(vec![key("id"), key("name")]).unwrap();
    assert_eq!(o.selected_fields.len(), 2);
    o.select(vec![key("id")]).unwrap();
    assert_eq!(o.selected_fields.len(), 2);
    o.deselect(vec![key("name")]).unwrap();
    assert_eq!(o.selected_fields, vec![key("id")]);
}

#[test]
fn deselect_seeds_from_output_keys_on_first_use() {
    let mut o = Object::new(user_model());
    o.deselect(vec![key("email")]).unwrap();
    assert_eq!(o.selected_fields, vec![key("id"), key("name"), key("age")]);
}

#[test]
fn is_instance_of_compares_model_names() {
    let o = Object::new(user_model());
    assert!(o.is_instance_of(&key("User")));
    assert!(!o.is_instance_of(&key("Post")));
}

#[test]
fn entities_are_equal_by_model_identity_and_primary_key() {
    let mut a = Object::new(user_model());
    let mut b = Object::new(user_model());
    a.set_value(&key("id"), Value::Int(42)).unwrap();
    b.set_value(&key("id"), Value::Int(42)).unwrap();
    b.set_value(&key("name"), text("someone else")).unwrap();
    assert!(a == b);
    b.set_value(&key("id"), Value::Int(43)).unwrap();
    assert!(a != b);
    let mut c = Object::new({
        let mut mb = ModelBuilder::new("Post".to_string());
        let mut id = Field::new(key("id"), FieldType::Int);
        id.primary = true;
        mb.field(id);
        mb.build().unwrap()
    });
    c.set_value(&key("id"), Value::Int(42)).unwrap();
    assert!(a != c);
    let fresh = Object::new(user_model());
    assert!(fresh != a);
}
