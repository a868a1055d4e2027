use entity_core::decorators::{before_delete_decorator, setter_decorator, Property};
use entity_core::field::{Argument, Field, FieldType};
use entity_core::model_builder::ModelBuilder;
use entity_core::object::Object;
use entity_core::pipeline::{Modifier, Pipeline};
use entity_core::relation::RelationManipulation;
use entity_core::value::Value;

fn small_object(name: &str) -> Object {
    let mut b = ModelBuilder::new(name.to_string());
    let mut id = Field::new("id".to_string(), FieldType::Int);
    id.primary = true;
    b.field(id);
    Object::new(b.build().unwrap())
}

#[test]
fn relation_manipulation_exposes_its_target() {
    let ops = vec![
        RelationManipulation::Connect(small_object("A")),
        RelationManipulation::Disconnect(small_object("B")),
        RelationManipulation::Replace(small_object("C")),
        RelationManipulation::Keep(small_object("D")),
    ];
    let names: Vec<String> = ops.iter().map(|op| op.object().model.name.clone()).collect();
    assert_eq!(names, vec!["A", "B", "C", "D"]);
}

#[test]
fn before_delete_decorator_installs_the_hook() {
    let mut b = ModelBuilder::new("User".to_string());
    let mut id = Field::new("id".to_string(), FieldType::Int);
    id.primary = true;
    b.field(id);
    let mut model = b.build().unwrap();
    assert!(!model.before_delete_pipeline.has_any_modifier());
    let hook = Pipeline { modifiers: vec![Modifier::Invalid("no deletes".to_string())] };
    before_delete_decorator(vec![Argument::PipelineArgument(hook)], &mut model);
    assert!(model.before_delete_pipeline.has_any_modifier());
    assert_eq!(model.before_delete_pipeline.modifiers.len(), 1);
}

#[test]
fn setter_decorator_installs_the_setter() {
    let mut p = Property {
        name: "fullName".to_string(),
        getter: None,
        setter: None,
    };
    let setter = Pipeline { modifiers: vec![Modifier::Assign(Value::Null)] };
    setter_decorator(vec![Argument::PipelineArgument(setter)], &mut p);
    assert!(p.setter.is_some());
    assert!(p.getter.is_none());
    assert_eq!(p.name, "fullName");
}
