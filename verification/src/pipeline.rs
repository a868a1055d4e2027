use vstd::prelude::*;
use crate::stage::{Stage, StageView};
use crate::text::{lower_of, lowercase};
use crate::value::{Value, ValueView};

verus! {

/// One composable unit of field-value transformation or validation.
///
/// The set is closed: a pipeline is a small interpreted language, and every
/// modifier's effect on a stage is given exactly by `apply_spec`.
#[derive(Debug)]
pub enum Modifier {
    /// Branch probe: runs a nested pipeline against the current stage and
    /// reports which way it went, leaving the carried value untouched.
    If(IfModifier),
    /// Fails validation unconditionally with the given message.
    Invalid(String),
    /// Lower-cases a text value; any other value passes through unchanged.
    Lowercase,
    /// Replaces the carried value with a fixed one.
    Assign(Value),
}

/// The branching modifier: evaluates its nested pipeline against the incoming
/// stage; a nested run that ends in any non-`Invalid` stage turns the stage
/// into `ConditionTrue`, otherwise `ConditionFalse`, in both cases carrying
/// the original value forward unchanged so later modifiers can dispatch on
/// which branch was taken.
#[derive(Debug)]
pub struct IfModifier {
    pub pipeline: Pipeline,
}

/// An ordered, immutable list of modifiers, evaluated strictly left to right:
/// modifier `i + 1` receives exactly the stage modifier `i` returned. There
/// is no engine-level short-circuiting on `Invalid`.
#[derive(Debug)]
pub struct Pipeline {
    pub modifiers: Vec<Modifier>,
}

/// Lower-cases a text value; leaves every other value as it is.
pub open spec fn lower_value_spec(v: ValueView) -> ValueView {
    match v {
        ValueView::Text(t) => ValueView::Text(lower_of(t)),
        _ => v,
    }
}

/// The `Lowercase` modifier keeps the stage's kind and lower-cases the
/// carried value.
pub open spec fn lower_stage_spec(s: StageView) -> StageView {
    match s {
        StageView::Value(v) => StageView::Value(lower_value_spec(v)),
        StageView::ConditionTrue(v) => StageView::ConditionTrue(lower_value_spec(v)),
        StageView::ConditionFalse(v) => StageView::ConditionFalse(lower_value_spec(v)),
        StageView::Invalid(_) => s,
    }
}

impl Modifier {
    /// The exact effect of this modifier on a stage.
    pub open spec fn apply_spec(self, s: StageView) -> StageView
        decreases self, 1int,
    {
        match self {
            Modifier::If(im) => im.apply_spec(s),
            Modifier::Invalid(msg) => StageView::Invalid(msg@),
            Modifier::Lowercase => lower_stage_spec(s),
            Modifier::Assign(v) => match s.value() {
                Some(_) => StageView::Value(v@),
                None => s,
            },
        }
    }

    /// The stable diagnostic name of this modifier.
    pub open spec fn spec_name(self) -> Seq<char> {
        match self {
            Modifier::If(_) => "if"@,
            Modifier::Invalid(_) => "invalid"@,
            Modifier::Lowercase => "lowercase"@,
            Modifier::Assign(_) => "assign"@,
        }
    }

    pub fn name(&self) -> (r: &'static str)
        ensures
            r@ == self.spec_name(),
    {
        match self {
            Modifier::If(_) => "if",
            Modifier::Invalid(_) => "invalid",
            Modifier::Lowercase => "lowercase",
            Modifier::Assign(_) => "assign",
        }
    }

    /// Transforms or validates one stage.
    pub fn call(&self, stage: Stage) -> (r: Stage)
        ensures
            r@ == self.apply_spec(stage@),
        decreases self, 1int,
    {
        match self {
            Modifier::If(im) => im.call(stage),
            Modifier::Invalid(msg) => Stage::Invalid(msg.clone()),
            Modifier::Lowercase => lower_stage(stage),
            Modifier::Assign(v) => match stage {
                Stage::Invalid(m) => Stage::Invalid(m),
                _ => Stage::Value(v.clone()),
            },
        }
    }
}

/// Lower-cases a text value; leaves every other value as it is.
fn lower_value(v: Value) -> (r: Value)
    ensures
        r@ == lower_value_spec(v@),
{
    match v {
        Value::Text(t) => Value::Text(lowercase(t.as_str())),
        _ => v,
    }
}

/// Keeps the stage's kind and lower-cases the carried value.
fn lower_stage(s: Stage) -> (r: Stage)
    ensures
        r@ == lower_stage_spec(s@),
{
    match s {
        Stage::Value(v) => Stage::Value(lower_value(v)),
        Stage::ConditionTrue(v) => Stage::ConditionTrue(lower_value(v)),
        Stage::ConditionFalse(v) => Stage::ConditionFalse(lower_value(v)),
        Stage::Invalid(m) => Stage::Invalid(m),
    }
}

impl IfModifier {
    pub fn new(pipeline: Pipeline) -> (r: Self)
        ensures
            r.pipeline == pipeline,
    {
        IfModifier { pipeline }
    }

    /// The exact effect of the branching modifier: for a value-carrying
    /// stage, `ConditionTrue` of the original value when the nested pipeline
    /// ends valid, else `ConditionFalse` of it; an already-`Invalid` stage
    /// carries no value and passes through unchanged.
    pub open spec fn apply_spec(self, s: StageView) -> StageView
        decreases self, 0int,
    {
        match s.value() {
            Some(v) => if self.pipeline.process_from(0, s).is_valid() {
                StageView::ConditionTrue(v)
            } else {
                StageView::ConditionFalse(v)
            },
            None => s,
        }
    }

    /// Runs the nested pipeline as a probe over the incoming stage and
    /// reports the branch taken, carrying the original value unchanged.
    pub fn call(&self, stage: Stage) -> (r: Stage)
        ensures
            r@ == self.apply_spec(stage@),
        decreases self, 0int,
    {
        let probe = self.pipeline.process(stage.clone());
        match stage {
            Stage::Invalid(m) => Stage::Invalid(m),
            Stage::Value(v) | Stage::ConditionTrue(v) | Stage::ConditionFalse(v) => {
                if probe.is_valid() {
                    Stage::ConditionTrue(v)
                } else {
                    Stage::ConditionFalse(v)
                }
            },
        }
    }
}

impl Pipeline {
    /// The stage that results from threading `s` through the modifiers from
    /// position `i` on.
    pub open spec fn process_from(self, i: int, s: StageView) -> StageView
        decreases self, 2int, self.modifiers@.len() - i,
    {
        if i < 0 || i >= self.modifiers@.len() {
            s
        } else {
            self.process_from(i + 1, self.modifiers@[i].apply_spec(s))
        }
    }

    /// The stage that results from evaluating the whole pipeline on `s`.
    pub open spec fn process_spec(self, s: StageView) -> StageView {
        self.process_from(0, s)
    }

    /// Whether the pipeline holds at least one modifier.
    pub fn has_any_modifier(&self) -> (r: bool)
        ensures
            r == (self.modifiers@.len() > 0),
    {
        self.modifiers.len() > 0
    }

    /// Folds the modifier list left to right; modifier `i + 1` receives
    /// exactly the stage modifier `i` returned.
    pub fn process(&self, stage: Stage) -> (r: Stage)
        ensures
            r@ == self.process_spec(stage@),
        decreases self, 2int,
    {
        let ghost s0 = stage@;
        let mut s = stage;
        let mut i: usize = 0;
        let n = self.modifiers.len();
        while i < n
            invariant
                i <= n,
                n == self.modifiers@.len(),
                self.process_from(i as int, s@) == self.process_spec(s0),
            decreases n - i,
        {
            s = self.modifiers[i].call(s);
            i = i + 1;
        }
        s
    }
}

} // verus!

verus! {

/// No modifier turns a validation failure back into a value: an `Invalid`
/// stage passes through every modifier as some `Invalid` stage.
pub proof fn lemma_modifier_keeps_invalid(m: Modifier, s: StageView)
    requires
        !s.is_valid(),
    ensures
        !m.apply_spec(s).is_valid(),
{
}

proof fn lemma_process_from_keeps_invalid(p: Pipeline, i: int, s: StageView)
    requires
        !s.is_valid(),
    ensures
        !p.process_from(i, s).is_valid(),
    decreases p.modifiers@.len() - i,
{
    if 0 <= i < p.modifiers@.len() {
        lemma_modifier_keeps_invalid(p.modifiers@[i], s);
        lemma_process_from_keeps_invalid(p, i + 1, p.modifiers@[i].apply_spec(s));
    }
}

/// Once a pipeline run has gone invalid, the remaining modifiers still
/// execute, but the run's ultimate outcome stays invalid: callers always
/// see the failure in the final stage.
pub proof fn lemma_pipeline_propagates_invalid(p: Pipeline, s: StageView)
    requires
        !s.is_valid(),
    ensures
        !p.process_spec(s).is_valid(),
{
    lemma_process_from_keeps_invalid(p, 0, s);
}

} // verus!
