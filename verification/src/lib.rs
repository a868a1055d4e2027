//! An in-process object-relational core: live entities bound to compiled
//! model metadata, with field values flowing through modifier pipelines on
//! mutation and persistence.

pub mod decorators;
pub mod error;
pub mod field;
pub mod model;
pub mod model_builder;
pub mod object;
pub mod keys;
pub mod pipeline;
pub mod relation;
pub mod stage;
pub mod text;
pub mod value;
pub mod vmap;
