use entity_core::field::{Field, FieldIndex, FieldType, IndexSettings, QueryAbility, ReadRule, Sort, Store};
use entity_core::model::{ActionType, ModelIndexItem, ModelIndexType, Permission};
use entity_core::model_builder::{ModelBuilder, ModelError};
use entity_core::pipeline::Pipeline;

fn id_field() -> Field {
    let mut f = Field::new("id".to_string(), FieldType::Int);
    f.primary = true;
    f
}

#[test]
fn build_derives_table_and_url_names_by_inflection() {
    let mut b = ModelBuilder::new("User".to_string());
    b.field(id_field());
    let m = b.build().unwrap();
    assert_eq!(m.table_name, "users");
    assert_eq!(m.url_segment_name, "users");
}

#[test]
fn build_kebab_cases_multiword_names() {
    let mut b = ModelBuilder::new("BlogPost".to_string());
    b.field(id_field());
    let m = b.build().unwrap();
    assert_eq!(m.table_name, "blogposts");
    assert_eq!(m.url_segment_name, "blog-posts");
}

#[test]
fn explicit_table_name_is_kept() {
    let mut b = ModelBuilder::new("User".to_string());
    b.table_name("accounts".to_string()).field(id_field());
    let m = b.build().unwrap();
    assert_eq!(m.table_name, "accounts");
}

#[test]
fn build_without_primary_fails_at_build_time() {
    let mut b = ModelBuilder::new("User".to_string());
    b.field(Field::new("name".to_string(), FieldType::Text));
    assert!(matches!(b.build(), Err(ModelError::MissingPrimary)));
}

#[test]
fn build_rejects_duplicate_field_names() {
    let mut b = ModelBuilder::new("User".to_string());
    b.field(id_field());
    b.field(Field::new("id".to_string(), FieldType::Text));
    assert!(matches!(b.build(), Err(ModelError::DuplicateFieldName)));
}

#[test]
fn key_roles_filter_the_field_list() {
    let mut b = ModelBuilder::new("User".to_string());
    b.field(id_field());
    let mut hidden = Field::new("secret".to_string(), FieldType::Text);
    hidden.read_rule = ReadRule::NoRead;
    b.field(hidden);
    let mut cached = Field::new("cached".to_string(), FieldType::Text);
    cached.store = Store::Calculated;
    b.field(cached);
    assert_eq!(b.allowed_output_keys(), vec!["id".to_string(), "cached".to_string()]);
    assert_eq!(b.allowed_save_keys(), vec!["id".to_string(), "secret".to_string()]);
    assert_eq!(
        b.get_get_value_keys(),
        vec!["id".to_string(), "secret".to_string(), "cached".to_string()]
    );
    let m = b.build().unwrap();
    assert_eq!(m.output_keys, vec!["id".to_string(), "cached".to_string()]);
    assert_eq!(m.save_keys, vec!["id".to_string(), "secret".to_string()]);
}

#[test]
fn primary_marked_field_synthesizes_primary_index() {
    let mut b = ModelBuilder::new("User".to_string());
    b.field(id_field());
    let m = b.build().unwrap();
    assert_eq!(m.primary_field_index, Some(0));
    assert!(matches!(m.primary.index_type, ModelIndexType::Primary));
    assert_eq!(m.primary.items.len(), 1);
    assert_eq!(m.primary.items[0].field_name, "id");
}

#[test]
fn builder_primary_keys_join_names_with_underscores() {
    let mut b = ModelBuilder::new("Grant".to_string());
    b.field(Field::new("user_id".to_string(), FieldType::Int));
    b.field(Field::new("role".to_string(), FieldType::Text));
    b.primary(vec!["user_id".to_string(), "role".to_string()]);
    let m = b.build().unwrap();
    assert_eq!(m.primary.name, "user_id_role");
    assert_eq!(m.primary.items.len(), 2);
    assert_eq!(m.primary.items[0].field_name, "user_id");
    assert_eq!(m.primary.items[1].field_name, "role");
    assert!(m.primary_field_index.is_none());
}

#[test]
fn field_index_annotations_become_secondary_indices() {
    let mut b = ModelBuilder::new("User".to_string());
    b.field(id_field());
    let mut email = Field::new("email".to_string(), FieldType::Text);
    email.index = FieldIndex::Unique(IndexSettings {
        name: None,
        sort: Sort::Asc,
        length: None,
    });
    b.field(email);
    let mut age = Field::new("age".to_string(), FieldType::Int);
    age.index = FieldIndex::Indexed(IndexSettings {
        name: Some("age_idx".to_string()),
        sort: Sort::Desc,
        length: Some(8),
    });
    b.field(age);
    let m = b.build().unwrap();
    assert_eq!(m.indices.len(), 2);
    assert!(matches!(m.indices[0].index_type, ModelIndexType::Unique));
    assert_eq!(m.indices[0].name, "email");
    assert!(matches!(m.indices[1].index_type, ModelIndexType::Index));
    assert_eq!(m.indices[1].name, "age_idx");
    assert!(matches!(m.indices[1].items[0].sort, Sort::Desc));
    assert_eq!(m.indices[1].items[0].len, Some(8));
}

#[test]
fn unique_builder_adds_unique_index() {
    let mut b = ModelBuilder::new("User".to_string());
    b.field(id_field());
    b.unique(vec!["email".to_string()]);
    b.index(vec!["age".to_string()]);
    let m = b.build().unwrap();
    assert_eq!(m.indices.len(), 2);
    assert!(matches!(m.indices[0].index_type, ModelIndexType::Unique));
    assert!(matches!(m.indices[1].index_type, ModelIndexType::Index));
    assert_eq!(m.indices[1].name, "age");
}

#[test]
fn identity_adds_sign_in_action() {
    let mut b = ModelBuilder::new("User".to_string());
    b.identity();
    assert!(b.actions.contains(&ActionType::SignIn));
}

#[test]
fn enable_disable_and_internal_shape_the_action_set() {
    let mut b = ModelBuilder::new("User".to_string());
    b.internal();
    assert!(b.actions.is_empty());
    b.enable(vec![ActionType::Create, ActionType::Update]);
    assert_eq!(b.actions, vec![ActionType::Create, ActionType::Update]);
    b.disable(vec![ActionType::Create]);
    assert_eq!(b.actions, vec![ActionType::Update]);
}

#[test]
fn disable_keeps_sign_in_for_identity_types() {
    let mut b = ModelBuilder::new("User".to_string());
    b.identity();
    let all = b.actions.clone();
    b.disable(all);
    assert_eq!(b.actions, vec![ActionType::SignIn]);
}

#[test]
fn builder_names_and_description() {
    let mut b = ModelBuilder::new("User".to_string());
    b.localized_name("Benutzer".to_string())
        .description("an account".to_string())
        .url_segment_name("people".to_string());
    b.field(id_field());
    let m = b.build().unwrap();
    assert_eq!(m.localized_name, "Benutzer");
    assert_eq!(m.description, "an account");
    assert_eq!(m.url_segment_name, "people");
    assert!(!m.identity);
}

#[test]
fn settings_variants_take_explicit_names_and_items() {
    let mut b = ModelBuilder::new("User".to_string());
    b.field(Field::new("id".to_string(), FieldType::Int));
    b.primary_settings(
        "pk".to_string(),
        vec![ModelIndexItem { field_name: "id".to_string(), sort: Sort::Desc, len: Some(4) }],
    );
    b.index_settings(
        "by_age".to_string(),
        vec![ModelIndexItem { field_name: "age".to_string(), sort: Sort::Asc, len: None }],
    );
    b.unique_settings(
        "by_mail".to_string(),
        vec![ModelIndexItem { field_name: "email".to_string(), sort: Sort::Asc, len: None }],
    );
    let m = b.build().unwrap();
    assert_eq!(m.primary.name, "pk");
    assert!(matches!(m.primary.items[0].sort, Sort::Desc));
    assert_eq!(m.indices.len(), 2);
    assert_eq!(m.indices[0].name, "by_age");
    assert!(matches!(m.indices[0].index_type, ModelIndexType::Index));
    assert_eq!(m.indices[1].name, "by_mail");
    assert!(matches!(m.indices[1].index_type, ModelIndexType::Unique));
}

#[test]
fn permissions_and_auth_key_roles() {
    let mut b = ModelBuilder::new("User".to_string());
    b.permissions(Permission { can_read: None, can_mutate: Some(Pipeline { modifiers: vec![] }) });
    b.field(id_field());
    let mut email = Field::new("email".to_string(), FieldType::Text);
    email.auth_identity = true;
    b.field(email);
    let mut password = Field::new("password".to_string(), FieldType::Text);
    password.auth_by = true;
    password.query_ability = QueryAbility::Unqueryable;
    b.field(password);
    assert_eq!(b.get_auth_identity_keys(), vec!["email".to_string()]);
    assert_eq!(b.get_auth_by_keys(), vec!["password".to_string()]);
    assert_eq!(b.get_query_keys(), vec!["id".to_string(), "email".to_string()]);
    assert_eq!(
        b.get_unique_query_keys(),
        vec!["id".to_string(), "email".to_string(), "password".to_string()]
    );
    assert_eq!(b.allowed_input_keys(), vec![
        "id".to_string(),
        "email".to_string(),
        "password".to_string(),
    ]);
    let m = b.build().unwrap();
    assert!(m.permission.is_some());
    assert_eq!(m.auth_identity_keys, vec!["email".to_string()]);
}
