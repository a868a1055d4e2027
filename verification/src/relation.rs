use vstd::prelude::*;
use crate::object::Object;

verus! {

/// A declared association between two entity types: the local and foreign
/// column lists, a cardinality flag, and an optional join entity type.
#[derive(Debug)]
pub struct Relation {
    pub name: String,
    pub model: String,
    pub through: Option<String>,
    pub is_vec: bool,
    pub fields: Vec<String>,
    pub references: Vec<String>,
}

/// A pending relation operation: an intent carrying its target entity, not
/// yet applied state; persistence logic consumes these. `Replace` stands
/// for wholesale reassignment of the association.
pub enum RelationManipulation {
    Connect(Object),
    Disconnect(Object),
    Replace(Object),
    Keep(Object),
}

impl RelationManipulation {
    /// The entity the intent targets.
    pub open spec fn spec_object(self) -> Object {
        match self {
            RelationManipulation::Connect(o) => o,
            RelationManipulation::Disconnect(o) => o,
            RelationManipulation::Replace(o) => o,
            RelationManipulation::Keep(o) => o,
        }
    }

    /// The entity the intent targets.
    pub fn object(&self) -> (r: &Object)
        ensures
            *r == self.spec_object(),
    {
        match self {
            RelationManipulation::Connect(o) => o,
            RelationManipulation::Disconnect(o) => o,
            RelationManipulation::Replace(o) => o,
            RelationManipulation::Keep(o) => o,
        }
    }
}

} // verus!
