use vstd::prelude::*;
use crate::pipeline::Pipeline;
use crate::value::Value;

verus! {

/// Sort order of one indexed column.
#[derive(Clone, Copy, Debug, PartialEq, Eq, Structural)]
pub enum Sort {
    Asc,
    Desc,
}

/// The declared type of a field; a decoded value must match it.
#[derive(Clone, Copy, Debug, PartialEq, Eq, Structural)]
pub enum FieldType {
    Bool,
    Int,
    Text,
}

/// Whether callers may write the field through the input role.
#[derive(Clone, Copy, Debug, PartialEq, Eq, Structural)]
pub enum WriteRule {
    Write,
    NoWrite,
}

/// Whether callers may read the field through the output role.
#[derive(Clone, Copy, Debug, PartialEq, Eq, Structural)]
pub enum ReadRule {
    Read,
    NoRead,
}

/// How the field is stored; calculated and temporary fields are never
/// persisted.
#[derive(Clone, Copy, Debug, PartialEq, Eq, Structural)]
pub enum Store {
    Normal,
    Calculated,
    Temp,
}

/// Whether the field may appear in queries.
#[derive(Clone, Copy, Debug, PartialEq, Eq, Structural)]
pub enum QueryAbility {
    Queryable,
    Unqueryable,
}

/// Per-field index annotation settings.
#[derive(Debug)]
pub struct IndexSettings {
    pub name: Option<String>,
    pub sort: Sort,
    pub length: Option<u64>,
}

/// A field's index annotation.
#[derive(Debug)]
pub enum FieldIndex {
    NoIndex,
    Indexed(IndexSettings),
    Unique(IndexSettings),
}

/// A default-value specification: a literal, or a pipeline evaluated against
/// a null stage.
#[derive(Debug)]
pub enum Argument {
    ValueArgument(Value),
    PipelineArgument(Pipeline),
}

/// One declared field of an entity type, with its roles and pipelines.
#[derive(Debug)]
pub struct Field {
    pub name: String,
    pub column_name: String,
    pub field_type: FieldType,
    pub write_rule: WriteRule,
    pub read_rule: ReadRule,
    pub store: Store,
    pub query_ability: QueryAbility,
    pub auth_identity: bool,
    pub auth_by: bool,
    pub primary: bool,
    pub index: FieldIndex,
    pub on_set_pipeline: Pipeline,
    pub on_save_pipeline: Pipeline,
    pub default: Option<Argument>,
}

impl Field {
    /// A field with the given name and type and permissive defaults.
    pub fn new(name: String, field_type: FieldType) -> (r: Field)
        ensures
            r.name == name,
            r.column_name@ == name@,
            r.field_type == field_type,
            r.write_rule == WriteRule::Write,
            r.read_rule == ReadRule::Read,
            r.store == Store::Normal,
            r.query_ability == QueryAbility::Queryable,
            !r.auth_identity,
            !r.auth_by,
            !r.primary,
            r.index is NoIndex,
            r.on_set_pipeline.modifiers@.len() == 0,
            r.on_save_pipeline.modifiers@.len() == 0,
            r.default is None,
    {
        let column_name = name.clone();
        Field {
            name,
            column_name,
            field_type,
            write_rule: WriteRule::Write,
            read_rule: ReadRule::Read,
            store: Store::Normal,
            query_ability: QueryAbility::Queryable,
            auth_identity: false,
            auth_by: false,
            primary: false,
            index: FieldIndex::NoIndex,
            on_set_pipeline: Pipeline { modifiers: Vec::new() },
            on_save_pipeline: Pipeline { modifiers: Vec::new() },
            default: None,
        }
    }
}

} // verus!
