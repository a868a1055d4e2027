use vstd::prelude::*;
use vstd::pervasive::unreached;
use crate::field::Argument;
use crate::model::Model;
use crate::pipeline::Pipeline;

verus! {

/// A computed property of an entity type, with its accessor pipelines.
#[derive(Debug)]
pub struct Property {
    pub name: String,
    pub getter: Option<Pipeline>,
    pub setter: Option<Pipeline>,
}

/// Installs a schema-declared before-delete hook on a model: the decorator's
/// single argument must be a pipeline, and it becomes the model's
/// before-delete pipeline, everything else untouched.
pub fn before_delete_decorator(args: Vec<Argument>, model: &mut Model)
    requires
        args@.len() > 0,
        args@[0] is PipelineArgument,
    ensures
        final(model).before_delete_pipeline == args@[0]->PipelineArgument_0,
        *final(model) == (Model {
            before_delete_pipeline: final(model).before_delete_pipeline,
            ..*old(model)
        }),
{
    let mut args = args;
    let first = args.remove(0);
    match first {
        Argument::PipelineArgument(p) => {
            model.before_delete_pipeline = p;
        },
        Argument::ValueArgument(_) => unreached(),
    }
}

/// Installs a schema-declared setter pipeline on a property: the decorator's
/// single argument must be a pipeline, and it becomes the property's setter,
/// everything else untouched.
pub fn setter_decorator(args: Vec<Argument>, property: &mut Property)
    requires
        args@.len() > 0,
        args@[0] is PipelineArgument,
    ensures
        final(property).setter matches Some(p) && p == args@[0]->PipelineArgument_0,
        final(property).name == old(property).name,
        final(property).getter == old(property).getter,
{
    let mut args = args;
    let first = args.remove(0);
    match first {
        Argument::PipelineArgument(p) => {
            property.setter = Some(p);
        },
        Argument::ValueArgument(_) => unreached(),
    }
}

} // verus!
