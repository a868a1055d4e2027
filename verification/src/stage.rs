use vstd::prelude::*;
use crate::value::{Value, ValueView};

verus! {

/// The unit of data flow through a pipeline: each modifier consumes one
/// stage and produces the next.
///
/// Only `Value`, `ConditionTrue` and `ConditionFalse` carry a concrete field
/// value; `Invalid` carries the human-readable reason a validation failed.
/// A pipeline run never aborts early on `Invalid`: the stage is threaded
/// through the remaining modifiers and the caller inspects the final one.
#[derive(Debug)]
pub enum Stage {
    Value(Value),
    Invalid(String),
    ConditionTrue(Value),
    ConditionFalse(Value),
}

/// The mathematical content of a `Stage`.
pub ghost enum StageView {
    Value(ValueView),
    Invalid(Seq<char>),
    ConditionTrue(ValueView),
    ConditionFalse(ValueView),
}

impl View for Stage {
    type V = StageView;

    open spec fn view(&self) -> StageView {
        match self {
            Stage::Value(v) => StageView::Value(v@),
            Stage::Invalid(s) => StageView::Invalid(s@),
            Stage::ConditionTrue(v) => StageView::ConditionTrue(v@),
            Stage::ConditionFalse(v) => StageView::ConditionFalse(v@),
        }
    }
}

impl StageView {
    /// Whether the stage is anything but a validation failure.
    pub open spec fn is_valid(&self) -> bool {
        !(*self is Invalid)
    }

    /// The value carried by a non-`Invalid` stage.
    pub open spec fn value(&self) -> Option<ValueView> {
        match *self {
            StageView::Value(v) => Some(v),
            StageView::ConditionTrue(v) => Some(v),
            StageView::ConditionFalse(v) => Some(v),
            StageView::Invalid(_) => None,
        }
    }
}

impl Stage {
    pub fn is_valid(&self) -> (r: bool)
        ensures
            r == self@.is_valid(),
    {
        match self {
            Stage::Invalid(_) => false,
            _ => true,
        }
    }

    /// The carried value, if the stage carries one.
    pub fn value(&self) -> (r: Option<Value>)
        ensures
            match r {
                Some(v) => self@.value() == Some(v@),
                None => self@.value() is None,
            },
    {
        match self {
            Stage::Value(v) => Some(v.clone()),
            Stage::ConditionTrue(v) => Some(v.clone()),
            Stage::ConditionFalse(v) => Some(v.clone()),
            Stage::Invalid(_) => None,
        }
    }
}

impl Clone for Stage {
    fn clone(&self) -> (r: Self)
        ensures
            r@ == self@,
    {
        match self {
            Stage::Value(v) => Stage::Value(v.clone()),
            Stage::Invalid(s) => Stage::Invalid(s.clone()),
            Stage::ConditionTrue(v) => Stage::ConditionTrue(v.clone()),
            Stage::ConditionFalse(v) => Stage::ConditionFalse(v.clone()),
        }
    }
}

} // verus!
